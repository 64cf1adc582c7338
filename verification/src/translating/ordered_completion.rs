//! The ordered completion: the completion split into its two directions, where
//! the direction towards the bodies is strengthened by order atoms
//! `less_q_p(zs, xs)` for the positive body atoms `q(zs)` of a head `p(xs)`.

use crate::convenience::sets::{set_difference, views, ModelEq};
use crate::convenience::text::concat;
use crate::syntax_tree::fol::{
    Atom, AtomModel, AtomicFormula, AtomicFormulaModel, BinaryConnective, Formula, FormulaModel,
    GeneralTerm, GeneralTermModel, Quantifier, Theory, TheoryModel, Variable, VariableModel,
};
use crate::syntax_tree::fol_ops::disjunction_of;
use crate::translating::completion::{
    close_bodies, components, components_exec, disjoined_bodies, Definition, DefinitionModel,
};
use vstd::prelude::*;

verus! {

/// Whether every term is a general variable.
pub open spec fn all_variables(ts: Seq<GeneralTermModel>) -> bool {
    forall|i: int| 0 <= i < ts.len() ==> #[trigger] ts[i] is Variable
}

/// Whether no term occurs twice.
pub open spec fn pairwise_different(ts: Seq<GeneralTermModel>) -> bool {
    forall|i: int, j: int| 0 <= i < j < ts.len() ==> #[trigger] ts[i] != #[trigger] ts[j]
}

/// A head made of pairwise different general variables.
pub open spec fn is_proper_head(a: AtomicFormulaModel) -> bool {
    match a {
        AtomicFormulaModel::Atom(atom) => all_variables(atom.terms) && pairwise_different(atom.terms),
        _ => false,
    }
}

/// The predicate of a head atom.
pub open spec fn head_predicate(a: AtomicFormulaModel) -> crate::syntax_tree::fol::PredicateModel {
    match a {
        AtomicFormulaModel::Atom(atom) => atom.predicate(),
        _ => crate::syntax_tree::fol::PredicateModel { symbol: seq![], arity: 0 },
    }
}

/// Whether a head is not made of different general variables, or two heads
/// share a predicate.
pub open spec fn has_head_mismatches(defs: Seq<DefinitionModel>) -> bool {
    ||| exists|k: int| 0 <= k < defs.len() && !is_proper_head(#[trigger] defs[k].head)
    ||| exists|k: int, l: int| 0 <= k < l < defs.len()
            && head_predicate(#[trigger] defs[k].head) == head_predicate(#[trigger] defs[l].head)
}

/// `less_q_p(zs, xs)` for the atoms `q(zs)` and `p(xs)`.
pub open spec fn order_atom(q: AtomModel, p: AtomModel) -> AtomModel {
    AtomModel {
        predicate_symbol: "less_"@ + q.predicate_symbol + "_"@ + p.predicate_symbol,
        terms: q.terms + p.terms,
    }
}

/// Replaces each atom `q(zs)` outside the scope of a negation by `q(zs) and less_q_p(zs, xs)`.
pub open spec fn conjoin_order_atoms(f: FormulaModel, head: AtomModel) -> FormulaModel
    decreases f,
{
    match f {
        FormulaModel::AtomicFormula(AtomicFormulaModel::Atom(q)) => FormulaModel::BinaryFormula {
            connective: BinaryConnective::Conjunction,
            lhs: Box::new(f),
            rhs: Box::new(FormulaModel::AtomicFormula(AtomicFormulaModel::Atom(order_atom(q, head)))),
        },
        FormulaModel::AtomicFormula(_) => f,
        FormulaModel::UnaryFormula { .. } => f,
        FormulaModel::BinaryFormula { connective, lhs, rhs } => FormulaModel::BinaryFormula {
            connective,
            lhs: Box::new(conjoin_order_atoms(*lhs, head)),
            rhs: Box::new(conjoin_order_atoms(*rhs, head)),
        },
        FormulaModel::QuantifiedFormula { quantification, formula } => FormulaModel::QuantifiedFormula {
            quantification,
            formula: Box::new(conjoin_order_atoms(*formula, head)),
        },
    }
}

/// `forall V (p(V) <- exists U1 F1 or ... or exists Un Fn)`.
pub open spec fn rule_translation(d: DefinitionModel) -> FormulaModel {
    let v = d.head.variables();
    FormulaModel::BinaryFormula {
        connective: BinaryConnective::ReverseImplication,
        lhs: Box::new(FormulaModel::AtomicFormula(d.head)),
        rhs: Box::new(disjoined_bodies(d.bodies, v)),
    }.quantify(Quantifier::Forall, v)
}

/// A body with its order atoms, quantified over the free variables of the
/// body itself that are not in `v`.
pub open spec fn ordered_body(f: FormulaModel, head: AtomModel, v: Seq<VariableModel>) -> FormulaModel {
    conjoin_order_atoms(f, head).quantify(Quantifier::Exists, set_difference(f.free_variables(), v))
}

/// `forall V (p(V) -> exists U1 F1' or ... or exists Un Fn')` with the order atoms in `Fi'`.
pub open spec fn definition_with_order(d: DefinitionModel) -> FormulaModel {
    let v = d.head.variables();
    let head = match d.head {
        AtomicFormulaModel::Atom(a) => a,
        _ => AtomModel { predicate_symbol: seq![], terms: seq![] },
    };
    FormulaModel::BinaryFormula {
        connective: BinaryConnective::Implication,
        lhs: Box::new(FormulaModel::AtomicFormula(d.head)),
        rhs: Box::new(disjunction_of(d.bodies.map_values(|f: FormulaModel| ordered_body(f, head, v)))),
    }.quantify(Quantifier::Forall, v)
}

/// The ordered completion: the closed constraints, the rule translations, then
/// the definitions with order atoms; nothing where the completion has none or
/// the heads mismatch.
pub open spec fn ordered_completion_model(t: TheoryModel) -> Option<TheoryModel> {
    match components(t.formulas) {
        None => None,
        Some((defs, constraints)) => if has_head_mismatches(defs) {
            None
        } else {
            Some(TheoryModel {
                formulas: constraints.map_values(|c: FormulaModel| c.universal_closure())
                    + defs.map_values(|d: DefinitionModel| rule_translation(d))
                    + defs.map_values(|d: DefinitionModel| definition_with_order(d)),
            })
        },
    }
}

fn is_proper_head_exec(a: &AtomicFormula) -> (r: bool)
    ensures
        r == is_proper_head(a@),
{
    match a {
        AtomicFormula::Atom(atom) => {
            let ghost ts = views(atom.terms@);
            assert(a@ == AtomicFormulaModel::Atom(atom@));
            assert(atom@.terms == ts);
            assert(is_proper_head(a@) == (all_variables(ts) && pairwise_different(ts)));
            let n = atom.terms.len();
            let mut i: usize = 0;
            while i < n
                invariant
                    n == ts.len(),
                    ts == views(atom.terms@),
                    is_proper_head(a@) == (all_variables(ts) && pairwise_different(ts)),
                    i <= n,
                    forall|k: int| 0 <= k < i ==> #[trigger] ts[k] is Variable,
                decreases n - i,
            {
                assert(ts[i as int] == atom.terms@[i as int]@);
                match &atom.terms[i] {
                    GeneralTerm::Variable(_) => {},
                    _ => {
                        assert(!(ts[i as int] is Variable));
                        assert(!all_variables(ts));
                        return false;
                    },
                }
                i += 1;
            }
            let mut j: usize = 0;
            while j < n
                invariant
                    n == ts.len(),
                    ts == views(atom.terms@),
                    is_proper_head(a@) == (all_variables(ts) && pairwise_different(ts)),
                    j <= n,
                    forall|k: int| 0 <= k < n ==> #[trigger] ts[k] is Variable,
                    forall|k: int, l: int| 0 <= k < l < n && k < j ==> #[trigger] ts[k] != #[trigger] ts[l],
                decreases n - j,
            {
                let mut l: usize = j + 1;
                while l < n
                    invariant
                        n == ts.len(),
                        ts == views(atom.terms@),
                        is_proper_head(a@) == (all_variables(ts) && pairwise_different(ts)),
                        j < l <= n,
                        forall|k: int, m: int| 0 <= k < m < n && k < j ==> #[trigger] ts[k] != #[trigger] ts[m],
                        forall|m: int| j < m < l ==> ts[j as int] != #[trigger] ts[m],
                    decreases n - l,
                {
                    assert(ts[j as int] == atom.terms@[j as int]@);
                    assert(ts[l as int] == atom.terms@[l as int]@);
                    if atom.terms[j].same(&atom.terms[l]) {
                        assert(ts[j as int] == ts[l as int]);
                        assert(!pairwise_different(ts));
                        return false;
                    }
                    l += 1;
                }
                j += 1;
            }
            true
        },
        _ => false,
    }
}

fn head_predicate_exec(a: &AtomicFormula) -> (r: crate::syntax_tree::fol::Predicate)
    ensures
        r@ == head_predicate(a@),
{
    match a {
        AtomicFormula::Atom(atom) => atom.predicate(),
        _ => crate::syntax_tree::fol::Predicate { symbol: String::new(), arity: 0 },
    }
}

fn has_head_mismatches_exec(defs: &Vec<Definition>) -> (r: bool)
    ensures
        r == has_head_mismatches(views(defs@)),
{
    let ghost ds = views(defs@);
    let n = defs.len();
    let mut k: usize = 0;
    while k < n
        invariant
            n == ds.len(),
            ds == views(defs@),
            k <= n,
            forall|j: int| 0 <= j < k ==> is_proper_head(#[trigger] ds[j].head),
        decreases n - k,
    {
        assert(ds[k as int] == defs@[k as int]@);
        if !is_proper_head_exec(&defs[k].head) {
            assert(!is_proper_head(ds[k as int].head));
            return true;
        }
        k += 1;
    }
    let mut i: usize = 0;
    while i < n
        invariant
            n == ds.len(),
            ds == views(defs@),
            i <= n,
            forall|j: int| 0 <= j < n ==> is_proper_head(#[trigger] ds[j].head),
            forall|a: int, b: int| 0 <= a < b < n && a < i
                ==> head_predicate(#[trigger] ds[a].head) != head_predicate(#[trigger] ds[b].head),
        decreases n - i,
    {
        let p = head_predicate_exec(&defs[i].head);
        assert(ds[i as int] == defs@[i as int]@);
        let mut l: usize = i + 1;
        while l < n
            invariant
                n == ds.len(),
                ds == views(defs@),
                i < l <= n,
                p@ == head_predicate(ds[i as int].head),
                forall|a: int, b: int| 0 <= a < b < n && a < i
                    ==> head_predicate(#[trigger] ds[a].head) != head_predicate(#[trigger] ds[b].head),
                forall|b: int| i < b < l ==> head_predicate(ds[i as int].head) != head_predicate(#[trigger] ds[b].head),
            decreases n - l,
        {
            assert(ds[l as int] == defs@[l as int]@);
            let q = head_predicate_exec(&defs[l].head);
            if p.same(&q) {
                assert(head_predicate(ds[i as int].head) == head_predicate(ds[l as int].head));
                return true;
            }
            l += 1;
        }
        i += 1;
    }
    false
}

/// `less_q_p(zs, xs)` for the atoms `q(zs)` and `p(xs)`.
fn create_order_atom(q: Atom, p: Atom) -> (r: Atom)
    ensures
        r@ == order_atom(q@, p@),
{
    let symbol = concat(concat(concat("less_", q.predicate_symbol.as_str()).as_str(), "_").as_str(), p.predicate_symbol.as_str());
    let mut terms = q.terms;
    let ghost front = views(terms@);
    let mut rest = p.terms;
    let ghost back = views(rest@);
    let n = rest.len();
    let mut i: usize = 0;
    while i < n
        invariant
            n == back.len(),
            i <= n,
            rest.len() == n - i,
            forall|k: int| 0 <= k < rest.len() ==> #[trigger] rest@[k]@ == back[k + i],
            views(terms@) =~= front + back.take(i as int),
        decreases n - i,
    {
        let t = rest.remove(0);
        assert(t@ == back[i as int]);
        let ghost before = views(terms@);
        terms.push(t);
        assert(views(terms@) =~= before.push(back[i as int]));
        assert(back.take(i as int + 1) =~= back.take(i as int).push(back[i as int]));
        i += 1;
    }
    assert(back.take(n as int) =~= back);
    Atom { predicate_symbol: symbol, terms }
}

fn conjoin_order_atoms_exec(formula: Formula, head: &Atom) -> (r: Formula)
    ensures
        r@ == conjoin_order_atoms(formula@, head@),
    decreases formula,
{
    proof {
        reveal_with_fuel(crate::syntax_tree::fol::formula_model, 2);
    }
    match formula {
        Formula::AtomicFormula(AtomicFormula::Atom(q)) => {
            let order = create_order_atom(q.clone(), head.clone());
            Formula::BinaryFormula {
                connective: BinaryConnective::Conjunction,
                lhs: Box::new(Formula::AtomicFormula(AtomicFormula::Atom(q))),
                rhs: Box::new(Formula::AtomicFormula(AtomicFormula::Atom(order))),
            }
        },
        Formula::AtomicFormula(a) => Formula::AtomicFormula(a),
        Formula::UnaryFormula { connective, formula } => Formula::UnaryFormula { connective, formula },
        Formula::BinaryFormula { connective, lhs, rhs } => Formula::BinaryFormula {
            connective,
            lhs: Box::new(conjoin_order_atoms_exec(*lhs, head)),
            rhs: Box::new(conjoin_order_atoms_exec(*rhs, head)),
        },
        Formula::QuantifiedFormula { quantification, formula } => Formula::QuantifiedFormula {
            quantification,
            formula: Box::new(conjoin_order_atoms_exec(*formula, head)),
        },
    }
}

fn translate_rules(d: &Definition) -> (r: Formula)
    ensures
        r@ == rule_translation(d@),
{
    proof {
        reveal_with_fuel(crate::syntax_tree::fol::formula_model, 2);
    }
    let v = d.head.variables();
    let disjunction = Formula::disjoin(close_bodies(crate::convenience::sets::duplicate_all(&d.bodies), &v));
    let implication = Formula::BinaryFormula {
        connective: BinaryConnective::ReverseImplication,
        lhs: Box::new(Formula::AtomicFormula(d.head.clone())),
        rhs: Box::new(disjunction),
    };
    implication.quantify(Quantifier::Forall, v)
}

fn define_with_order(d: Definition) -> (r: Formula)
    requires
        d@.head is Atom,
    ensures
        r@ == definition_with_order(d@),
{
    proof {
        reveal_with_fuel(crate::syntax_tree::fol::formula_model, 2);
    }
    let v = d.head.variables();
    let head = match &d.head {
        AtomicFormula::Atom(a) => a.clone(),
        _ => Atom { predicate_symbol: String::new(), terms: Vec::new() },
    };
    let ghost all = views(d.bodies@);
    let mut rest = d.bodies;
    let n = rest.len();
    let mut bodies: Vec<Formula> = Vec::new();
    let mut i: usize = 0;
    while i < n
        invariant
            n == all.len(),
            i <= n,
            rest.len() == n - i,
            forall|k: int| 0 <= k < rest.len() ==> #[trigger] rest@[k]@ == all[k + i],
            bodies.len() == i,
            forall|k: int| 0 <= k < i ==> #[trigger] bodies@[k]@ == ordered_body(all[k], head@, views(v@)),
        decreases n - i,
    {
        let f = rest.remove(0);
        assert(f@ == all[i as int]);
        let u = crate::convenience::sets::difference(&f.free_variables(), &v);
        bodies.push(conjoin_order_atoms_exec(f, &head).quantify(Quantifier::Exists, u));
        i += 1;
    }
    assert(views(bodies@) =~= all.map_values(|f: FormulaModel| ordered_body(f, head@, views(v@))));
    let implication = Formula::BinaryFormula {
        connective: BinaryConnective::Implication,
        lhs: Box::new(Formula::AtomicFormula(d.head)),
        rhs: Box::new(Formula::disjoin(bodies)),
    };
    implication.quantify(Quantifier::Forall, v)
}

/// The ordered completion of a theory; nothing where the completion has none,
/// where a head is not made of different general variables, or where two heads
/// share a predicate.
pub fn ordered_completion(theory: Theory) -> (r: Option<Theory>)
    ensures
        r matches Some(t) ==> ordered_completion_model(theory@) == Some(t@),
        r is None ==> ordered_completion_model(theory@) is None,
{
    let (definitions, constraints) = match components_exec(theory) {
        Some(x) => x,
        None => return None,
    };
    if has_head_mismatches_exec(&definitions) {
        return None;
    }
    let ghost defs = views(definitions@);
    let ghost cons = views(constraints@);
    let mut formulas: Vec<Formula> = Vec::new();
    let mut rest = constraints;
    let m = rest.len();
    let mut i: usize = 0;
    while i < m
        invariant
            m == cons.len(),
            i <= m,
            rest.len() == m - i,
            forall|k: int| 0 <= k < rest.len() ==> #[trigger] rest@[k]@ == cons[k + i],
            formulas.len() == i,
            forall|k: int| 0 <= k < i ==> #[trigger] formulas@[k]@ == cons[k].universal_closure(),
        decreases m - i,
    {
        let c = rest.remove(0);
        assert(c@ == cons[i as int]);
        formulas.push(c.universal_closure());
        i += 1;
    }
    let n = definitions.len();
    let mut j: usize = 0;
    while j < n
        invariant
            n == defs.len(),
            defs == views(definitions@),
            j <= n,
            formulas.len() == m + j,
            forall|k: int| 0 <= k < m ==> #[trigger] formulas@[k]@ == cons[k].universal_closure(),
            forall|k: int| 0 <= k < j ==> #[trigger] formulas@[m + k]@ == rule_translation(defs[k]),
        decreases n - j,
    {
        assert(defs[j as int] == definitions@[j as int]@);
        formulas.push(translate_rules(&definitions[j]));
        j += 1;
    }
    let mut rest = definitions;
    let mut l: usize = 0;
    while l < n
        invariant
            n == defs.len(),
            l <= n,
            rest.len() == n - l,
            forall|k: int| 0 <= k < rest.len() ==> #[trigger] rest@[k]@ == defs[k + l],
            !has_head_mismatches(defs),
            formulas.len() == m + n + l,
            forall|k: int| 0 <= k < m ==> #[trigger] formulas@[k]@ == cons[k].universal_closure(),
            forall|k: int| 0 <= k < n ==> #[trigger] formulas@[m + k]@ == rule_translation(defs[k]),
            forall|k: int| 0 <= k < l ==> #[trigger] formulas@[m + n + k]@ == definition_with_order(defs[k]),
        decreases n - l,
    {
        let d = rest.remove(0);
        assert(d@ == defs[l as int]);
        assert(is_proper_head(defs[l as int].head));
        formulas.push(define_with_order(d));
        l += 1;
    }
    let ghost target = cons.map_values(|c: FormulaModel| c.universal_closure())
        + defs.map_values(|d: DefinitionModel| rule_translation(d))
        + defs.map_values(|d: DefinitionModel| definition_with_order(d));
    assert forall|k: int| 0 <= k < formulas.len() implies #[trigger] views(formulas@)[k] == target[k] by {
        assert(views(formulas@)[k] == formulas@[k]@);
        if k < m {
            assert(formulas@[k]@ == cons[k].universal_closure());
        } else if k < m + n {
            let j = k - m;
            assert(formulas@[m + j]@ == rule_translation(defs[j]));
        } else {
            let j = k - m - n;
            assert(formulas@[m + n + j]@ == definition_with_order(defs[j]));
        }
    }
    assert(views(formulas@) =~= target);
    Some(Theory { formulas })
}

} // verus!
