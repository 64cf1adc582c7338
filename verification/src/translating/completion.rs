//! Clark's completion of the theories that tau* produces.
//!
//! A formula of such a theory is a constraint `F -> #false` or a partial
//! definition `F -> p(X)`, possibly under a universal quantifier; the
//! completion collects the partial definitions of each head atom into an
//! equivalence.

use crate::convenience::sets::{set_difference, views, ModelEq};
use crate::syntax_tree::fol::{
    AtomicFormula, AtomicFormulaModel, BinaryConnective, Formula, FormulaModel, Quantifier,
    Theory, TheoryModel, VariableModel,
};
use crate::syntax_tree::fol_ops::disjunction_of;
use vstd::prelude::*;

verus! {

/// What a formula of the theory contributes to the completion.
pub enum Component {
    PartialDefinition { f: Formula, a: AtomicFormula },
    Constraint(Formula),
}

pub enum ComponentModel {
    PartialDefinition { f: FormulaModel, a: AtomicFormulaModel },
    Constraint(FormulaModel),
}

impl View for Component {
    type V = ComponentModel;
    open spec fn view(&self) -> ComponentModel {
        match self {
            Component::PartialDefinition { f, a } => ComponentModel::PartialDefinition { f: f@, a: a@ },
            Component::Constraint(c) => ComponentModel::Constraint(c@),
        }
    }
}

/// The bodies of the partial definitions of one head atom, in their order.
pub struct Definition {
    pub head: AtomicFormula,
    pub bodies: Vec<Formula>,
}

pub struct DefinitionModel {
    pub head: AtomicFormulaModel,
    pub bodies: Seq<FormulaModel>,
}

impl View for Definition {
    type V = DefinitionModel;
    open spec fn view(&self) -> DefinitionModel {
        DefinitionModel { head: self.head@, bodies: views(self.bodies@) }
    }
}

/// `F -> G` or `G <- F` with `G` the falsity (a constraint, the whole formula)
/// or an atom (a partial definition of `G` by `F`); nothing otherwise.
pub open spec fn split_implication(formula: FormulaModel) -> Option<ComponentModel> {
    match formula {
        FormulaModel::BinaryFormula { connective, lhs, rhs } => {
            if connective == BinaryConnective::Implication || connective == BinaryConnective::ReverseImplication {
                let f = if connective == BinaryConnective::Implication { *lhs } else { *rhs };
                let g = if connective == BinaryConnective::Implication { *rhs } else { *lhs };
                match g {
                    FormulaModel::AtomicFormula(AtomicFormulaModel::Falsity) => Some(ComponentModel::Constraint(formula)),
                    FormulaModel::AtomicFormula(AtomicFormulaModel::Atom(a)) =>
                        Some(ComponentModel::PartialDefinition { f, a: AtomicFormulaModel::Atom(a) }),
                    _ => None,
                }
            } else {
                None
            }
        },
        _ => None,
    }
}

/// A closed formula, with an outermost universal quantifier removed, split as above.
pub open spec fn split(formula: FormulaModel) -> Option<ComponentModel> {
    if formula.free_variables().len() > 0 {
        None
    } else {
        match formula {
            FormulaModel::QuantifiedFormula { quantification, formula: inner } =>
                if quantification.quantifier == Quantifier::Forall { split_implication(*inner) } else { split_implication(formula) },
            _ => split_implication(formula),
        }
    }
}

/// The position of the definition of `a`, if there is one.
pub open spec fn definition_index(defs: Seq<DefinitionModel>, a: AtomicFormulaModel) -> int
    decreases defs.len(),
{
    if defs.len() == 0 {
        -1
    } else if defs.last().head == a {
        defs.len() - 1
    } else {
        definition_index(defs.drop_last(), a)
    }
}

/// Adds the body `f` to the definition of `a`, which is added at the end if it is new.
pub open spec fn add_definition(defs: Seq<DefinitionModel>, a: AtomicFormulaModel, f: FormulaModel) -> Seq<DefinitionModel> {
    let k = definition_index(defs, a);
    if k < 0 {
        defs.push(DefinitionModel { head: a, bodies: seq![f] })
    } else {
        defs.update(k, DefinitionModel { head: a, bodies: defs[k].bodies.push(f) })
    }
}

/// The definitions and the constraints of a theory, in order; nothing if a
/// formula is neither.
pub open spec fn components(fs: Seq<FormulaModel>) -> Option<(Seq<DefinitionModel>, Seq<FormulaModel>)>
    decreases fs.len(),
{
    if fs.len() == 0 {
        Some((seq![], seq![]))
    } else {
        match components(fs.drop_last()) {
            None => None,
            Some((defs, constraints)) => match split(fs.last()) {
                None => None,
                Some(ComponentModel::Constraint(c)) => Some((defs, constraints.push(c))),
                Some(ComponentModel::PartialDefinition { f, a }) => Some((add_definition(defs, a, f), constraints)),
            },
        }
    }
}

/// `f` quantified existentially over its free variables that are not in `v`.
pub open spec fn close_body(f: FormulaModel, v: Seq<VariableModel>) -> FormulaModel {
    f.quantify(Quantifier::Exists, set_difference(f.free_variables(), v))
}

/// The bodies, each closed as above, joined by disjunction.
pub open spec fn disjoined_bodies(bodies: Seq<FormulaModel>, v: Seq<VariableModel>) -> FormulaModel {
    disjunction_of(bodies.map_values(|f: FormulaModel| close_body(f, v)))
}

/// `forall V (a <-> exists U1 F1 or ... or exists Un Fn)`.
pub open spec fn completed_definition(d: DefinitionModel) -> FormulaModel {
    let v = d.head.variables();
    FormulaModel::BinaryFormula {
        connective: BinaryConnective::Equivalence,
        lhs: Box::new(FormulaModel::AtomicFormula(d.head)),
        rhs: Box::new(disjoined_bodies(d.bodies, v)),
    }.quantify(Quantifier::Forall, v)
}

/// The completion: the constraints, then one completed definition for each head atom.
pub open spec fn completion_model(t: TheoryModel) -> Option<TheoryModel> {
    match components(t.formulas) {
        None => None,
        Some((defs, constraints)) => Some(TheoryModel {
            formulas: constraints + defs.map_values(|d: DefinitionModel| completed_definition(d)),
        }),
    }
}

fn split_implication_exec(formula: Formula) -> (r: Option<Component>)
    ensures
        r matches Some(c) ==> split_implication(formula@) == Some(c@),
        r is None ==> split_implication(formula@) is None,
{
    proof {
        reveal_with_fuel(crate::syntax_tree::fol::formula_model, 2);
    }
    let whole = formula.clone();
    match formula {
        Formula::BinaryFormula { connective, lhs, rhs } => {
            let (f, g) = match connective {
                BinaryConnective::Implication => (*lhs, *rhs),
                BinaryConnective::ReverseImplication => (*rhs, *lhs),
                _ => return None,
            };
            match g {
                Formula::AtomicFormula(AtomicFormula::Falsity) => Some(Component::Constraint(whole)),
                Formula::AtomicFormula(AtomicFormula::Atom(a)) =>
                    Some(Component::PartialDefinition { f, a: AtomicFormula::Atom(a) }),
                _ => None,
            }
        },
        _ => None,
    }
}

fn split_exec(formula: Formula) -> (r: Option<Component>)
    ensures
        r matches Some(c) ==> split(formula@) == Some(c@),
        r is None ==> split(formula@) is None,
{
    proof {
        reveal_with_fuel(crate::syntax_tree::fol::formula_model, 2);
    }
    if formula.free_variables().len() > 0 {
        return None;
    }
    match formula {
        Formula::QuantifiedFormula { quantification, formula: inner } => {
            if quantification.quantifier == Quantifier::Forall {
                split_implication_exec(*inner)
            } else {
                split_implication_exec(Formula::QuantifiedFormula { quantification, formula: inner })
            }
        },
        formula => split_implication_exec(formula),
    }
}

fn definition_index_exec(defs: &Vec<Definition>, a: &AtomicFormula) -> (r: Option<usize>)
    ensures
        r matches Some(k) ==> k == definition_index(views(defs@), a@) && k < defs.len(),
        r is None ==> definition_index(views(defs@), a@) < 0,
{
    let ghost all = views(defs@);
    let mut i = defs.len();
    assert(all.take(all.len() as int) =~= all);
    while i > 0
        invariant
            i <= defs.len(),
            all == views(defs@),
            definition_index(all, a@) == definition_index(all.take(i as int), a@),
        decreases i,
    {
        assert(all.take(i as int).drop_last() =~= all.take(i as int - 1));
        if defs[i - 1].head.same(a) {
            return Some(i - 1);
        }
        i -= 1;
    }
    None
}

/// The definitions and the constraints of a theory; nothing if a formula is neither.
pub fn components_exec(theory: Theory) -> (r: Option<(Vec<Definition>, Vec<Formula>)>)
    ensures
        r matches Some((d, c)) ==> components(theory@.formulas) == Some((views(d@), views(c@))),
        r is None ==> components(theory@.formulas) is None,
{
    let ghost fs = theory@.formulas;
    let mut definitions: Vec<Definition> = Vec::new();
    let mut constraints: Vec<Formula> = Vec::new();
    let mut rest = theory.formulas;
    let n = rest.len();
    let mut i: usize = 0;
    assert(fs.take(0) =~= Seq::<FormulaModel>::empty());
    assert(views(definitions@) =~= Seq::<DefinitionModel>::empty());
    assert(views(constraints@) =~= Seq::<FormulaModel>::empty());
    while i < n
        invariant
            n == fs.len(),
            fs == theory@.formulas,
            i <= n,
            rest.len() == n - i,
            forall|k: int| 0 <= k < rest.len() ==> #[trigger] rest@[k]@ == fs[k + i],
            components(fs.take(i as int)) == Some((views(definitions@), views(constraints@))),
        decreases n - i,
    {
        let formula = rest.remove(0);
        assert(formula@ == fs[i as int]);
        assert(fs.take(i as int + 1).drop_last() =~= fs.take(i as int));
        assert(fs.take(i as int + 1).last() == fs[i as int]);
        match split_exec(formula) {
            None => {
                proof {
                    assert(components(fs.take(i as int + 1)) is None);
                    lemma_components_none(fs, i as int + 1);
                }
                return None;
            },
            Some(Component::Constraint(c)) => {
                let ghost before = views(constraints@);
                constraints.push(c);
                assert(views(constraints@) =~= before.push(c@));
            },
            Some(Component::PartialDefinition { f, a }) => {
                let ghost before = views(definitions@);
                match definition_index_exec(&definitions, &a) {
                    Some(k) => {
                        proof {
                            lemma_definition_index(before, a@);
                        }
                        let ghost vec_before = definitions@;
                        let mut d = definitions.remove(k);
                        assert(d@ == before[k as int]);
                        let ghost bodies = views(d.bodies@);
                        d.bodies.push(f);
                        assert(views(d.bodies@) =~= bodies.push(f@));
                        let ghost new_d = d@;
                        definitions.insert(k, d);
                        assert(definitions@ =~= vec_before.update(k as int, definitions@[k as int]));
                        assert(views(definitions@) =~= before.update(k as int, new_d));
                        assert(new_d == DefinitionModel { head: a@, bodies: before[k as int].bodies.push(f@) });
                    },
                    None => {
                        let mut bodies: Vec<Formula> = Vec::new();
                        bodies.push(f);
                        assert(views(bodies@) =~= seq![f@]);
                        definitions.push(Definition { head: a, bodies });
                        assert(views(definitions@) =~= add_definition(before, a@, f@));
                    },
                }
            },
        }
        i += 1;
    }
    assert(fs.take(n as int) =~= fs);
    Some((definitions, constraints))
}

proof fn lemma_definition_index(defs: Seq<DefinitionModel>, a: AtomicFormulaModel)
    ensures
        -1 <= definition_index(defs, a) < defs.len(),
        definition_index(defs, a) >= 0 ==> defs[definition_index(defs, a)].head == a,
    decreases defs.len(),
{
    if defs.len() > 0 && defs.last().head != a {
        lemma_definition_index(defs.drop_last(), a);
    }
}

/// A theory with a prefix that has no components has none.
proof fn lemma_components_none(fs: Seq<FormulaModel>, j: int)
    requires
        0 <= j <= fs.len(),
        components(fs.take(j)) is None,
    ensures
        components(fs) is None,
    decreases fs.len(),
{
    if j < fs.len() {
        assert(fs.drop_last().take(j) =~= fs.take(j));
        lemma_components_none(fs.drop_last(), j);
    } else {
        assert(fs.take(j) =~= fs);
    }
}

/// `forall V (a <-> exists U1 F1 or ... or exists Un Fn)` for a definition.
fn complete_definition(d: Definition) -> (r: Formula)
    ensures
        r@ == completed_definition(d@),
{
    proof {
        reveal_with_fuel(crate::syntax_tree::fol::formula_model, 2);
    }
    let v = d.head.variables();
    let disjunction = Formula::disjoin(close_bodies(d.bodies, &v));
    let equivalence = Formula::BinaryFormula {
        connective: BinaryConnective::Equivalence,
        lhs: Box::new(Formula::AtomicFormula(d.head)),
        rhs: Box::new(disjunction),
    };
    equivalence.quantify(Quantifier::Forall, v)
}

/// Each body quantified existentially over its free variables outside `v`.
pub fn close_bodies(bodies: Vec<Formula>, v: &Vec<crate::syntax_tree::fol::Variable>) -> (r: Vec<Formula>)
    ensures
        views(r@) == views(bodies@).map_values(|f: FormulaModel| close_body(f, views(v@))),
{
    let ghost all = views(bodies@);
    let mut rest = bodies;
    let n = rest.len();
    let mut r: Vec<Formula> = Vec::new();
    let mut i: usize = 0;
    while i < n
        invariant
            n == all.len(),
            i <= n,
            rest.len() == n - i,
            forall|k: int| 0 <= k < rest.len() ==> #[trigger] rest@[k]@ == all[k + i],
            r.len() == i,
            forall|k: int| 0 <= k < i ==> #[trigger] r@[k]@ == close_body(all[k], views(v@)),
        decreases n - i,
    {
        let f = rest.remove(0);
        assert(f@ == all[i as int]);
        let u = crate::convenience::sets::difference(&f.free_variables(), v);
        r.push(f.quantify(Quantifier::Exists, u));
        i += 1;
    }
    assert(views(r@) =~= all.map_values(|f: FormulaModel| close_body(f, views(v@))));
    r
}

/// The completion of a theory; nothing if a formula is neither a constraint
/// nor a partial definition of an atom, or has free variables.
pub fn completion(theory: Theory) -> (r: Option<Theory>)
    ensures
        r matches Some(t) ==> completion_model(theory@) == Some(t@),
        r is None ==> completion_model(theory@) is None,
{
    let (definitions, constraints) = match components_exec(theory) {
        Some(x) => x,
        None => return None,
    };
    let ghost defs = views(definitions@);
    let ghost cons = views(constraints@);
    let mut formulas = constraints;
    let mut rest = definitions;
    let n = rest.len();
    let mut i: usize = 0;
    while i < n
        invariant
            n == defs.len(),
            i <= n,
            rest.len() == n - i,
            forall|k: int| 0 <= k < rest.len() ==> #[trigger] rest@[k]@ == defs[k + i],
            formulas.len() == cons.len() + i,
            forall|k: int| 0 <= k < cons.len() ==> #[trigger] formulas@[k]@ == cons[k],
            forall|k: int| 0 <= k < i ==> #[trigger] formulas@[cons.len() + k]@ == completed_definition(defs[k]),
        decreases n - i,
    {
        let d = rest.remove(0);
        assert(d@ == defs[i as int]);
        formulas.push(complete_definition(d));
        i += 1;
    }
    let ghost target = cons + defs.map_values(|d: DefinitionModel| completed_definition(d));
    assert forall|k: int| 0 <= k < formulas.len() implies #[trigger] views(formulas@)[k] == target[k] by {
        assert(views(formulas@)[k] == formulas@[k]@);
        if k < cons.len() {
            assert(formulas@[k]@ == cons[k]);
        } else {
            let j = k - cons.len();
            assert(formulas@[cons.len() + j]@ == completed_definition(defs[j]));
            assert(cons.len() + j == k);
        }
    }
    assert(views(formulas@) =~= target);
    Some(Theory { formulas })
}

} // verus!
