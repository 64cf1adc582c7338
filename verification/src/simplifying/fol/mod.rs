pub mod classic;

use crate::convenience::sets::{views, ModelEq};
use crate::syntax_tree::fol::{
    Comparison, ComparisonModel, Formula, FormulaModel, GeneralTerm, GeneralTermModel, Guard,
    GuardModel, IntegerTerm, IntegerTermModel, Quantification, QuantificationModel, Relation,
    Sort, Variable, VariableModel,
};
use crate::syntax_tree::fol_ops::lemma_integer_term_substitutable;
use crate::translating::tau_star::{choose_fresh_variable_names, fresh_names, lemma_fresh_names_len, variable_names};
use vstd::prelude::*;

verus! {

/// The comparison `ovar = ivar` between a general and an integer variable of that name.
pub open spec fn general_equals_integer(ivar: VariableModel, ovar: VariableModel) -> ComparisonModel {
    ComparisonModel {
        term: GeneralTermModel::Variable(ovar.name),
        guards: seq![GuardModel {
            relation: Relation::Equal,
            term: GeneralTermModel::IntegerTerm(IntegerTermModel::Variable(ivar.name)),
        }],
    }
}

/// The comparison `ivar = ovar` between an integer and a general variable of that name.
pub open spec fn integer_equals_general(ivar: VariableModel, ovar: VariableModel) -> ComparisonModel {
    ComparisonModel {
        term: GeneralTermModel::IntegerTerm(IntegerTermModel::Variable(ivar.name)),
        guards: seq![GuardModel { relation: Relation::Equal, term: GeneralTermModel::Variable(ovar.name) }],
    }
}

/// Whether the comparison says that the general variable `ovar` equals the
/// integer variable `ivar`, in either order.
pub open spec fn equates(ivar: VariableModel, ovar: VariableModel, comp: ComparisonModel) -> bool {
    comp == general_equals_integer(ivar, ovar) || comp == integer_equals_general(ivar, ovar)
}

/// The fresh integer variable that takes the place of `ovar`: named after the
/// first letter of `ivar`, different from every variable of the formula.
pub open spec fn replacement_name(ivar: VariableModel, formula: FormulaModel) -> Seq<char> {
    fresh_names(variable_names(formula.variables()), seq![ivar.name[0]], 1)[0]
}

/// The quantified formula with `ovar` taken out of its quantified variables,
/// the fresh integer variable added at their end, and the fresh variable put
/// in place of the free occurrences of `ovar` in its body.
pub open spec fn replaced(ivar: VariableModel, ovar: VariableModel, formula: FormulaModel) -> FormulaModel {
    let f = replacement_name(ivar, formula);
    match formula {
        FormulaModel::QuantifiedFormula { quantification, formula: body } => FormulaModel::QuantifiedFormula {
            quantification: QuantificationModel {
                quantifier: quantification.quantifier,
                variables: quantification.variables.filter(|x: VariableModel| x != ovar)
                    .push(VariableModel { name: f, sort: Sort::Integer }),
            },
            formula: Box::new((*body).substitute(ovar, GeneralTermModel::IntegerTerm(IntegerTermModel::Variable(f)))),
        },
        _ => formula,
    }
}

/// The variables other than `ovar`, in their order.
fn without(variables: Vec<Variable>, ovar: &Variable) -> (r: Vec<Variable>)
    ensures
        views(r@) == views(variables@).filter(|x: VariableModel| x != ovar@),
{
    let ghost all = views(variables@);
    let ghost pred = |x: VariableModel| x != ovar@;
    let mut r: Vec<Variable> = Vec::new();
    let mut i: usize = 0;
    while i < variables.len()
        invariant
            i <= variables.len(),
            all == views(variables@),
            pred == (|x: VariableModel| x != ovar@),
            views(r@) == all.take(i as int).filter(pred),
        decreases variables.len() - i,
    {
        proof {
            reveal(Seq::filter);
            assert(all.take(i as int + 1).drop_last() =~= all.take(i as int));
        }
        assert(all[i as int] == variables@[i as int]@);
        if !variables[i].same(ovar) {
            let ghost before = views(r@);
            r.push(variables[i].clone());
            assert(views(r@) =~= before.push(all[i as int]));
        }
        i += 1;
    }
    assert(all.take(variables.len() as int) =~= all);
    r
}

/// If the comparison says that `ovar` equals `ivar`, the quantified formula
/// with a fresh integer variable in place of `ovar`, and `true`; otherwise the
/// formula itself and `false`.
pub fn replacement_helper(ivar: &Variable, ovar: &Variable, comp: &Comparison, formula: &Formula) -> (r: (Formula, bool))
    requires
        equates(ivar@, ovar@, comp@) ==> ivar@.name.len() > 0 && formula@ is QuantifiedFormula,
    ensures
        r.1 == equates(ivar@, ovar@, comp@),
        r.1 ==> r.0@ == replaced(ivar@, ovar@, formula@),
        !r.1 ==> r.0@ == formula@,
{
    let ivar_term = GeneralTerm::IntegerTerm(IntegerTerm::Variable(ivar.name.clone()));
    let first = Comparison {
        term: GeneralTerm::Variable(ovar.name.clone()),
        guards: vec![Guard { relation: Relation::Equal, term: ivar_term.clone() }],
    };
    assert(first@.guards =~= general_equals_integer(ivar@, ovar@).guards);
    let second = Comparison {
        term: ivar_term,
        guards: vec![Guard { relation: Relation::Equal, term: GeneralTerm::Variable(ovar.name.clone()) }],
    };
    assert(second@.guards =~= integer_equals_general(ivar@, ovar@).guards);
    let replace = comp.same(&first) || comp.same(&second);
    if !replace {
        return (formula.clone(), false);
    }
    let initial = ivar.name.as_str().get_char(0);
    let mut variant = String::new();
    crate::convenience::text::push_char(&mut variant, initial);
    assert(variant@ =~= seq![ivar@.name[0]]);
    let names = choose_fresh_variable_names(&formula.variables(), variant.as_str(), 1);
    proof {
        lemma_fresh_names_len(variable_names(formula@.variables()), variant@, 1);
    }
    let fvar = names[0].clone();
    assert(fvar@ == replacement_name(ivar@, formula@));
    let copy = formula.clone();
    proof {
        reveal_with_fuel(crate::syntax_tree::fol::formula_model, 2);
    }
    match copy {
        Formula::QuantifiedFormula { quantification, formula: body } => {
            let ghost q = quantification@;
            let mut variables = without(quantification.variables, ovar);
            let ghost kept = views(variables@);
            variables.push(Variable { name: fvar.clone(), sort: Sort::Integer });
            assert(views(variables@) =~= kept.push(VariableModel { name: fvar@, sort: Sort::Integer }));
            let term = GeneralTerm::IntegerTerm(IntegerTerm::Variable(fvar));
            proof {
                lemma_integer_term_substitutable((*body)@, ovar@, term@);
            }
            let body = (*body).substitute(ovar.clone(), term);
            let r = Formula::QuantifiedFormula {
                quantification: Quantification { quantifier: quantification.quantifier, variables },
                formula: Box::new(body),
            };
            proof {
                reveal_with_fuel(crate::syntax_tree::fol::formula_model, 2);
            }
            (r, true)
        },
        other => (other, true),
    }
}

} // verus!
