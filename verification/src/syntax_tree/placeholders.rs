//! Placeholders: symbols that a user guide declares to stand for function
//! constants of a sort. Replacing them turns each such symbol into the
//! function constant of its declared sort.

use crate::convenience::sets::views;
use crate::syntax_tree::fol::{
    AnnotatedFormula, AnnotatedFormulaModel, Atom, AtomModel, AtomicFormula, AtomicFormulaModel, Comparison,
    ComparisonModel, Formula, FormulaModel, FunctionConstant, FunctionConstantModel, GeneralTerm, GeneralTermModel,
    Guard, GuardModel, IntegerTerm, IntegerTermModel, Sort, Specification, SpecificationModel, SymbolicTerm,
    SymbolicTermModel, Theory, TheoryModel,
};
use vstd::prelude::*;

verus! {

/// The sort of the placeholder with the given name; where several have it, the last.
pub open spec fn placeholder_sort(ps: Seq<FunctionConstantModel>, name: Seq<char>) -> Option<Sort>
    decreases ps.len(),
{
    if ps.len() == 0 {
        None
    } else if ps.last().name == name {
        Some(ps.last().sort)
    } else {
        placeholder_sort(ps.drop_last(), name)
    }
}

/// A symbol that names a placeholder becomes the function constant of its sort.
pub open spec fn placed_term(t: GeneralTermModel, ps: Seq<FunctionConstantModel>) -> GeneralTermModel {
    match t {
        GeneralTermModel::SymbolicTerm(SymbolicTermModel::Symbol(s)) => match placeholder_sort(ps, s) {
            Some(Sort::Integer) => GeneralTermModel::IntegerTerm(IntegerTermModel::FunctionConstant(s)),
            Some(Sort::Symbol) => GeneralTermModel::SymbolicTerm(SymbolicTermModel::FunctionConstant(s)),
            Some(Sort::General) => GeneralTermModel::FunctionConstant(s),
            None => t,
        },
        _ => t,
    }
}

pub open spec fn placed_atomic(a: AtomicFormulaModel, ps: Seq<FunctionConstantModel>) -> AtomicFormulaModel {
    match a {
        AtomicFormulaModel::Atom(x) => AtomicFormulaModel::Atom(AtomModel {
            predicate_symbol: x.predicate_symbol,
            terms: x.terms.map_values(|t: GeneralTermModel| placed_term(t, ps)),
        }),
        AtomicFormulaModel::Comparison(c) => AtomicFormulaModel::Comparison(ComparisonModel {
            term: placed_term(c.term, ps),
            guards: c.guards.map_values(|g: GuardModel| GuardModel { relation: g.relation, term: placed_term(g.term, ps) }),
        }),
        _ => a,
    }
}

/// The formula with its placeholders replaced.
pub open spec fn placed_formula(f: FormulaModel, ps: Seq<FunctionConstantModel>) -> FormulaModel
    decreases f,
{
    match f {
        FormulaModel::AtomicFormula(a) => FormulaModel::AtomicFormula(placed_atomic(a, ps)),
        FormulaModel::UnaryFormula { connective, formula } =>
            FormulaModel::UnaryFormula { connective, formula: Box::new(placed_formula(*formula, ps)) },
        FormulaModel::BinaryFormula { connective, lhs, rhs } => FormulaModel::BinaryFormula {
            connective,
            lhs: Box::new(placed_formula(*lhs, ps)),
            rhs: Box::new(placed_formula(*rhs, ps)),
        },
        FormulaModel::QuantifiedFormula { quantification, formula } =>
            FormulaModel::QuantifiedFormula { quantification, formula: Box::new(placed_formula(*formula, ps)) },
    }
}

pub open spec fn placed_annotated(a: AnnotatedFormulaModel, ps: Seq<FunctionConstantModel>) -> AnnotatedFormulaModel {
    AnnotatedFormulaModel { formula: placed_formula(a.formula, ps), ..a }
}

fn sort_of(ps: &Vec<FunctionConstant>, name: &String) -> (r: Option<Sort>)
    ensures
        r == placeholder_sort(views(ps@), name@),
{
    let ghost all = views(ps@);
    let mut i = ps.len();
    assert(all.take(all.len() as int) =~= all);
    while i > 0
        invariant
            i <= ps.len(),
            all == views(ps@),
            placeholder_sort(all.take(i as int), name@) == placeholder_sort(all, name@),
        decreases i,
    {
        assert(all.take(i as int).drop_last() =~= all.take(i as int - 1));
        if ps[i - 1].name == *name {
            return Some(ps[i - 1].sort);
        }
        i -= 1;
    }
    assert(all.take(0) =~= Seq::<FunctionConstantModel>::empty());
    None
}

pub fn place_term(t: GeneralTerm, ps: &Vec<FunctionConstant>) -> (r: GeneralTerm)
    ensures
        r@ == placed_term(t@, views(ps@)),
{
    match t {
        GeneralTerm::SymbolicTerm(SymbolicTerm::Symbol(s)) => match sort_of(ps, &s) {
            Some(Sort::Integer) => GeneralTerm::IntegerTerm(IntegerTerm::FunctionConstant(s)),
            Some(Sort::Symbol) => GeneralTerm::SymbolicTerm(SymbolicTerm::FunctionConstant(s)),
            Some(Sort::General) => GeneralTerm::FunctionConstant(s),
            None => GeneralTerm::SymbolicTerm(SymbolicTerm::Symbol(s)),
        },
        other => other,
    }
}

fn place_terms(ts: Vec<GeneralTerm>, ps: &Vec<FunctionConstant>) -> (r: Vec<GeneralTerm>)
    ensures
        views(r@) == views(ts@).map_values(|t: GeneralTermModel| placed_term(t, views(ps@))),
{
    let ghost all = views(ts@);
    let mut rest = ts;
    let n = rest.len();
    let mut r: Vec<GeneralTerm> = Vec::new();
    let mut i: usize = 0;
    while i < n
        invariant
            n == all.len(),
            i <= n,
            rest.len() == n - i,
            forall|k: int| 0 <= k < rest.len() ==> #[trigger] rest@[k]@ == all[k + i],
            views(r@) =~= all.take(i as int).map_values(|t: GeneralTermModel| placed_term(t, views(ps@))),
        decreases n - i,
    {
        let t = rest.remove(0);
        let ghost tv = t@;
        let p = place_term(t, ps);
        let ghost before = views(r@);
        r.push(p);
        assert(views(r@) =~= before.push(p@));
        assert(all.take(i as int + 1) =~= all.take(i as int).push(all[i as int]));
        i += 1;
    }
    assert(all.take(n as int) =~= all);
    r
}

fn place_guards(gs: Vec<Guard>, ps: &Vec<FunctionConstant>) -> (r: Vec<Guard>)
    ensures
        views(r@) == views(gs@).map_values(|g: GuardModel| GuardModel { relation: g.relation, term: placed_term(g.term, views(ps@)) }),
{
    let ghost all = views(gs@);
    let mut rest = gs;
    let n = rest.len();
    let mut r: Vec<Guard> = Vec::new();
    let mut i: usize = 0;
    while i < n
        invariant
            n == all.len(),
            i <= n,
            rest.len() == n - i,
            forall|k: int| 0 <= k < rest.len() ==> #[trigger] rest@[k]@ == all[k + i],
            views(r@) =~= all.take(i as int).map_values(|g: GuardModel| GuardModel { relation: g.relation, term: placed_term(g.term, views(ps@)) }),
        decreases n - i,
    {
        let g = rest.remove(0);
        let ghost gv = g@;
        let p = Guard { relation: g.relation, term: place_term(g.term, ps) };
        assert(p@ == GuardModel { relation: gv.relation, term: placed_term(gv.term, views(ps@)) });
        let ghost before = views(r@);
        r.push(p);
        assert(views(r@) =~= before.push(p@));
        assert(all.take(i as int + 1) =~= all.take(i as int).push(all[i as int]));
        i += 1;
    }
    assert(all.take(n as int) =~= all);
    r
}

fn place_atomic(a: AtomicFormula, ps: &Vec<FunctionConstant>) -> (r: AtomicFormula)
    ensures
        r@ == placed_atomic(a@, views(ps@)),
{
    match a {
        AtomicFormula::Atom(x) => AtomicFormula::Atom(Atom { predicate_symbol: x.predicate_symbol, terms: place_terms(x.terms, ps) }),
        AtomicFormula::Comparison(c) => AtomicFormula::Comparison(Comparison { term: place_term(c.term, ps), guards: place_guards(c.guards, ps) }),
        other => other,
    }
}

impl Formula {
    /// The formula with each symbol that names a placeholder replaced by the
    /// function constant of the placeholder's sort.
    pub fn replace_placeholders(self, placeholders: &Vec<FunctionConstant>) -> (r: Formula)
        ensures
            r@ == placed_formula(self@, views(placeholders@)),
        decreases self,
    {
        match self {
            Formula::AtomicFormula(a) => Formula::AtomicFormula(place_atomic(a, placeholders)),
            Formula::UnaryFormula { connective, formula } =>
                Formula::UnaryFormula { connective, formula: Box::new((*formula).replace_placeholders(placeholders)) },
            Formula::BinaryFormula { connective, lhs, rhs } => Formula::BinaryFormula {
                connective,
                lhs: Box::new((*lhs).replace_placeholders(placeholders)),
                rhs: Box::new((*rhs).replace_placeholders(placeholders)),
            },
            Formula::QuantifiedFormula { quantification, formula } => Formula::QuantifiedFormula {
                quantification,
                formula: Box::new((*formula).replace_placeholders(placeholders)),
            },
        }
    }
}

impl AnnotatedFormula {
    /// The annotated formula with the placeholders of its formula replaced.
    pub fn replace_placeholders(self, placeholders: &Vec<FunctionConstant>) -> (r: AnnotatedFormula)
        ensures
            r@ == placed_annotated(self@, views(placeholders@)),
    {
        AnnotatedFormula {
            role: self.role,
            direction: self.direction,
            name: self.name,
            formula: self.formula.replace_placeholders(placeholders),
        }
    }
}

impl Theory {
    /// The theory with the placeholders of each formula replaced.
    pub fn replace_placeholders(self, placeholders: &Vec<FunctionConstant>) -> (r: Theory)
        ensures
            r@.formulas == self@.formulas.map_values(|f: FormulaModel| placed_formula(f, views(placeholders@))),
    {
        let ghost all = self@.formulas;
        let mut rest = self.formulas;
        let n = rest.len();
        let mut r: Vec<Formula> = Vec::new();
        let mut i: usize = 0;
        while i < n
            invariant
                n == all.len(),
                i <= n,
                rest.len() == n - i,
                forall|k: int| 0 <= k < rest.len() ==> #[trigger] rest@[k]@ == all[k + i],
                views(r@) =~= all.take(i as int).map_values(|f: FormulaModel| placed_formula(f, views(placeholders@))),
            decreases n - i,
        {
            let f = rest.remove(0);
            let p = f.replace_placeholders(placeholders);
            let ghost before = views(r@);
            r.push(p);
            assert(views(r@) =~= before.push(p@));
            assert(all.take(i as int + 1) =~= all.take(i as int).push(all[i as int]));
            i += 1;
        }
        assert(all.take(n as int) =~= all);
        Theory { formulas: r }
    }
}

impl Specification {
    /// The specification with the placeholders of each formula replaced.
    pub fn replace_placeholders(self, placeholders: &Vec<FunctionConstant>) -> (r: Specification)
        ensures
            r@.formulas == self@.formulas.map_values(|a: AnnotatedFormulaModel| placed_annotated(a, views(placeholders@))),
    {
        let ghost all = self@.formulas;
        let mut rest = self.formulas;
        let n = rest.len();
        let mut r: Vec<AnnotatedFormula> = Vec::new();
        let mut i: usize = 0;
        while i < n
            invariant
                n == all.len(),
                i <= n,
                rest.len() == n - i,
                forall|k: int| 0 <= k < rest.len() ==> #[trigger] rest@[k]@ == all[k + i],
                views(r@) =~= all.take(i as int).map_values(|a: AnnotatedFormulaModel| placed_annotated(a, views(placeholders@))),
            decreases n - i,
        {
            let f = rest.remove(0);
            let p = f.replace_placeholders(placeholders);
            let ghost before = views(r@);
            r.push(p);
            assert(views(r@) =~= before.push(p@));
            assert(all.take(i as int + 1) =~= all.take(i as int).push(all[i as int]));
            i += 1;
        }
        assert(all.take(n as int) =~= all);
        Specification { formulas: r }
    }
}

} // verus!
