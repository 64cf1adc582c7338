//! Proof outlines: lemmas, inductive lemmas and definitions that guide a proof.

use crate::convenience::sets::{contains, difference, duplicate_all, extend, insert, set_difference, set_from, set_insert, views, ModelEq};
use crate::syntax_tree::fol::{FunctionConstant, FunctionConstantModel};
use crate::syntax_tree::placeholders::placed_annotated;
use crate::convenience::with_warnings::WithWarnings;
use crate::syntax_tree::fol::{
    self, AnnotatedFormulaModel, AtomicFormula, AtomicFormulaModel, BinaryConnective,
    BinaryOperator, Comparison, Formula, FormulaModel, GeneralTerm, GeneralTermModel, Guard,
    IntegerTerm, IntegerTermModel, Predicate, PredicateModel, Quantifier, Relation, Sort,
    SymbolicTermModel, Variable, VariableModel,
};
use crate::convenience::text::concat;
use crate::verifying::problem;
use vstd::prelude::*;

verus! {

/// Why a proof outline cannot be used.
#[derive(Debug, PartialEq, Eq)]
pub enum ProofOutlineError {
    AnnotatedFormulaWithInvalidRole(fol::AnnotatedFormula),
    DuplicatedVariables(Formula),
    TakenPredicate(Predicate),
    FreeRhsVariables(Formula),
    UndefinedRhsPredicate { definition: Formula, predicate: Predicate },
    DefinedPredicateVariableListMismatch(Formula),
    TermsInDefinition { term: GeneralTerm, formula: Formula },
    MalformedInductiveLemma(Formula),
    MalformedInductiveAntecedent(Formula),
    MalformedInductiveVariables(Formula),
    MalformedInductiveTerm(Formula),
    MalformedDefinition(Formula),
    InvalidRoleForGeneralLemma(fol::AnnotatedFormula),
}

pub enum ProofOutlineErrorModel {
    AnnotatedFormulaWithInvalidRole(AnnotatedFormulaModel),
    DuplicatedVariables(FormulaModel),
    TakenPredicate(PredicateModel),
    FreeRhsVariables(FormulaModel),
    UndefinedRhsPredicate { definition: FormulaModel, predicate: PredicateModel },
    DefinedPredicateVariableListMismatch(FormulaModel),
    TermsInDefinition { term: GeneralTermModel, formula: FormulaModel },
    MalformedInductiveLemma(FormulaModel),
    MalformedInductiveAntecedent(FormulaModel),
    MalformedInductiveVariables(FormulaModel),
    MalformedInductiveTerm(FormulaModel),
    MalformedDefinition(FormulaModel),
    InvalidRoleForGeneralLemma(AnnotatedFormulaModel),
}

impl View for ProofOutlineError {
    type V = ProofOutlineErrorModel;
    open spec fn view(&self) -> ProofOutlineErrorModel {
        match self {
            ProofOutlineError::AnnotatedFormulaWithInvalidRole(a) => ProofOutlineErrorModel::AnnotatedFormulaWithInvalidRole(a@),
            ProofOutlineError::DuplicatedVariables(f) => ProofOutlineErrorModel::DuplicatedVariables(f@),
            ProofOutlineError::TakenPredicate(p) => ProofOutlineErrorModel::TakenPredicate(p@),
            ProofOutlineError::FreeRhsVariables(f) => ProofOutlineErrorModel::FreeRhsVariables(f@),
            ProofOutlineError::UndefinedRhsPredicate { definition, predicate } =>
                ProofOutlineErrorModel::UndefinedRhsPredicate { definition: definition@, predicate: predicate@ },
            ProofOutlineError::DefinedPredicateVariableListMismatch(f) => ProofOutlineErrorModel::DefinedPredicateVariableListMismatch(f@),
            ProofOutlineError::TermsInDefinition { term, formula } =>
                ProofOutlineErrorModel::TermsInDefinition { term: term@, formula: formula@ },
            ProofOutlineError::MalformedInductiveLemma(f) => ProofOutlineErrorModel::MalformedInductiveLemma(f@),
            ProofOutlineError::MalformedInductiveAntecedent(f) => ProofOutlineErrorModel::MalformedInductiveAntecedent(f@),
            ProofOutlineError::MalformedInductiveVariables(f) => ProofOutlineErrorModel::MalformedInductiveVariables(f@),
            ProofOutlineError::MalformedInductiveTerm(f) => ProofOutlineErrorModel::MalformedInductiveTerm(f@),
            ProofOutlineError::MalformedDefinition(f) => ProofOutlineErrorModel::MalformedDefinition(f@),
            ProofOutlineError::InvalidRoleForGeneralLemma(a) => ProofOutlineErrorModel::InvalidRoleForGeneralLemma(a@),
        }
    }
}

/// What a proof outline may do that is allowed but suspicious.
#[derive(Debug, PartialEq, Eq)]
pub enum ProofOutlineWarning {
    ExcessQuantifiedVariables(Formula),
}

pub enum ProofOutlineWarningModel {
    ExcessQuantifiedVariables(FormulaModel),
}

impl View for ProofOutlineWarning {
    type V = ProofOutlineWarningModel;
    open spec fn view(&self) -> ProofOutlineWarningModel {
        match self {
            ProofOutlineWarning::ExcessQuantifiedVariables(f) => ProofOutlineWarningModel::ExcessQuantifiedVariables(f@),
        }
    }
}

// ================================================================ definitions

/// The variable that a term is, if it is one.
pub open spec fn term_variable(t: GeneralTermModel) -> Option<VariableModel> {
    match t {
        GeneralTermModel::Variable(v) => Some(VariableModel { name: v, sort: Sort::General }),
        GeneralTermModel::IntegerTerm(IntegerTermModel::Variable(v)) => Some(VariableModel { name: v, sort: Sort::Integer }),
        GeneralTermModel::SymbolicTerm(SymbolicTermModel::Variable(v)) => Some(VariableModel { name: v, sort: Sort::Symbol }),
        _ => None,
    }
}

/// The first term that is not a variable.
pub open spec fn first_non_variable(ts: Seq<GeneralTermModel>) -> Option<GeneralTermModel>
    decreases ts.len(),
{
    if ts.len() == 0 {
        None
    } else if term_variable(ts[0]) is None {
        Some(ts[0])
    } else {
        first_non_variable(ts.drop_first())
    }
}

/// The variables that the terms are.
pub open spec fn term_variables(ts: Seq<GeneralTermModel>) -> Seq<VariableModel> {
    ts.map_values(|t: GeneralTermModel| term_variable(t)->0)
}

/// Whether two sequences hold the same elements, in whatever order and number.
pub open spec fn same_members<A>(a: Seq<A>, b: Seq<A>) -> bool {
    forall|x: A| a.contains(x) <==> b.contains(x)
}

/// The predicate that a definition `forall V (p(V) <-> F)` defines, with its
/// warnings; the first of the checks that fails otherwise: the definition has
/// this form, its quantifier lists no variable twice, the terms of `p(V)` are
/// variables and they are the quantified ones, `p` is not taken, `F` has no
/// other free variables (a warning where it lacks a quantified one) and no
/// predicate that is not taken.
pub open spec fn definition_outcome(f: FormulaModel, taken: Seq<PredicateModel>)
    -> Result<(PredicateModel, Seq<ProofOutlineWarningModel>), ProofOutlineErrorModel>
{
    match f {
        FormulaModel::QuantifiedFormula { quantification, formula } => {
            if quantification.quantifier != Quantifier::Forall {
                Err(ProofOutlineErrorModel::MalformedDefinition(f))
            } else {
                match *formula {
                    FormulaModel::BinaryFormula { connective: BinaryConnective::Equivalence, lhs, rhs } => match *lhs {
                        FormulaModel::AtomicFormula(AtomicFormulaModel::Atom(a)) => {
                            let uniques = set_from(quantification.variables);
                            if uniques.len() < quantification.variables.len() {
                                Err(ProofOutlineErrorModel::DuplicatedVariables(f))
                            } else {
                                match first_non_variable(a.terms) {
                                    Some(t) => Err(ProofOutlineErrorModel::TermsInDefinition { term: t, formula: f }),
                                    None => {
                                        if !same_members(uniques, set_from(term_variables(a.terms))) {
                                            Err(ProofOutlineErrorModel::DefinedPredicateVariableListMismatch(f))
                                        } else if taken.contains(a.predicate()) {
                                            Err(ProofOutlineErrorModel::TakenPredicate(a.predicate()))
                                        } else if set_difference((*rhs).free_variables(), uniques).len() > 0 {
                                            Err(ProofOutlineErrorModel::FreeRhsVariables(f))
                                        } else {
                                            let undefined = set_difference((*rhs).predicates(), taken);
                                            if undefined.len() > 0 {
                                                Err(ProofOutlineErrorModel::UndefinedRhsPredicate { definition: f, predicate: undefined[0] })
                                            } else if set_difference(uniques, (*rhs).free_variables()).len() > 0 {
                                                Ok((a.predicate(), seq![ProofOutlineWarningModel::ExcessQuantifiedVariables(f)]))
                                            } else {
                                                Ok((a.predicate(), seq![]))
                                            }
                                        }
                                    },
                                }
                            }
                        },
                        _ => Err(ProofOutlineErrorModel::MalformedDefinition(f)),
                    },
                    _ => Err(ProofOutlineErrorModel::MalformedDefinition(f)),
                }
            }
        },
        _ => Err(ProofOutlineErrorModel::MalformedDefinition(f)),
    }
}

fn term_variable_exec(t: &GeneralTerm) -> (r: Option<Variable>)
    ensures
        r is Some <==> term_variable(t@) is Some,
        r matches Some(v) ==> term_variable(t@) == Some(v@),
{
    match t {
        GeneralTerm::Variable(v) => Some(Variable { name: v.clone(), sort: Sort::General }),
        GeneralTerm::IntegerTerm(IntegerTerm::Variable(v)) => Some(Variable { name: v.clone(), sort: Sort::Integer }),
        GeneralTerm::SymbolicTerm(fol::SymbolicTerm::Variable(v)) => Some(Variable { name: v.clone(), sort: Sort::Symbol }),
        _ => None,
    }
}

/// The variables of a sequence of terms, each once, or the first term that is not a variable.
fn variables_of_terms(ts: &Vec<GeneralTerm>) -> (r: Result<Vec<Variable>, GeneralTerm>)
    ensures
        match first_non_variable(views(ts@)) {
            Some(t) => r matches Err(e) && e@ == t,
            None => r matches Ok(vs) && views(vs@) == set_from(term_variables(views(ts@))),
        },
{
    let ghost all = views(ts@);
    let mut vars: Vec<Variable> = Vec::new();
    let mut i: usize = 0;
    assert(views(vars@) =~= Seq::<VariableModel>::empty());
    assert(all.skip(0) =~= all);
    while i < ts.len()
        invariant
            i <= ts.len(),
            all == views(ts@),
            first_non_variable(all) == first_non_variable(all.skip(i as int)),
            forall|k: int| 0 <= k < i ==> term_variable(#[trigger] all[k]) is Some,
            views(vars@) == set_from(term_variables(all.take(i as int))),
        decreases ts.len() - i,
    {
        assert(all.skip(i as int)[0] == all[i as int]);
        assert(all.skip(i as int).drop_first() =~= all.skip(i as int + 1));
        assert(all[i as int] == ts@[i as int]@);
        match term_variable_exec(&ts[i]) {
            Some(v) => {
                let ghost before = views(vars@);
                crate::convenience::sets::insert(&mut vars, v);
                assert(term_variables(all.take(i as int + 1)).drop_last() =~= term_variables(all.take(i as int)));
                assert(term_variables(all.take(i as int + 1)).last() == v@);
            },
            None => {
                return Err(ts[i].clone());
            },
        }
        i += 1;
    }
    assert(all.take(ts.len() as int) =~= all);
    assert(all.skip(ts.len() as int) =~= Seq::<GeneralTermModel>::empty());
    Ok(vars)
}

/// Whether every element of `a` is in `b`.
fn all_in<T: ModelEq>(a: &Vec<T>, b: &Vec<T>) -> (r: bool)
    ensures
        r == (forall|x: T::V| views(a@).contains(x) ==> views(b@).contains(x)),
{
    let mut i: usize = 0;
    while i < a.len()
        invariant
            i <= a.len(),
            forall|k: int| 0 <= k < i ==> views(b@).contains(#[trigger] views(a@)[k]),
        decreases a.len() - i,
    {
        if !contains(b, &a[i]) {
            assert(views(a@)[i as int] == a@[i as int]@);
            assert(views(a@).contains(a@[i as int]@));
            return false;
        }
        assert(views(a@)[i as int] == a@[i as int]@);
        i += 1;
    }
    assert forall|x: T::V| views(a@).contains(x) implies views(b@).contains(x) by {
        let k = choose|k: int| 0 <= k < views(a@).len() && views(a@)[k] == x;
    }
    true
}

impl Formula {
    /// The predicate that a definition `forall V (p(V) <-> F)` defines, with the
    /// warnings about it; an error for the first check that fails.
    pub fn definition(&self, taken_predicates: &Vec<Predicate>) -> (r: Result<WithWarnings<Predicate, ProofOutlineWarning>, ProofOutlineError>)
        ensures
            match definition_outcome(self@, views(taken_predicates@)) {
                Ok((p, ws)) => r matches Ok(w) && w.data@ == p && views(w.warnings@) == ws,
                Err(e) => r matches Err(x) && x@ == e,
            },
    {
        proof {
            reveal_with_fuel(crate::syntax_tree::fol::formula_model, 3);
        }
        let malformed = ProofOutlineError::MalformedDefinition(self.clone());
        match self {
            Formula::QuantifiedFormula { quantification, formula } => {
                if quantification.quantifier != Quantifier::Forall {
                    return Err(malformed);
                }
                match &**formula {
                    Formula::BinaryFormula { connective: BinaryConnective::Equivalence, lhs, rhs } => match &**lhs {
                        Formula::AtomicFormula(AtomicFormula::Atom(a)) => {
                            let mut uniques: Vec<Variable> = Vec::new();
                            assert(views(uniques@) =~= Seq::<VariableModel>::empty());
                            extend(&mut uniques, crate::convenience::sets::duplicate_all(&quantification.variables));
                            if uniques.len() < quantification.variables.len() {
                                return Err(ProofOutlineError::DuplicatedVariables(self.clone()));
                            }
                            let terms_as_vars = match variables_of_terms(&a.terms) {
                                Ok(vs) => vs,
                                Err(t) => {
                                    return Err(ProofOutlineError::TermsInDefinition { term: t, formula: self.clone() });
                                },
                            };
                            if !(all_in(&uniques, &terms_as_vars) && all_in(&terms_as_vars, &uniques)) {
                                return Err(ProofOutlineError::DefinedPredicateVariableListMismatch(self.clone()));
                            }
                            let predicate = a.predicate();
                            if contains(taken_predicates, &predicate) {
                                return Err(ProofOutlineError::TakenPredicate(predicate));
                            }
                            let rhs_free = rhs.free_variables();
                            if difference(&rhs_free, &uniques).len() > 0 {
                                return Err(ProofOutlineError::FreeRhsVariables(self.clone()));
                            }
                            let undefined = difference(&rhs.predicates(), taken_predicates);
                            if undefined.len() > 0 {
                                return Err(ProofOutlineError::UndefinedRhsPredicate {
                                    definition: self.clone(),
                                    predicate: undefined[0].clone(),
                                });
                            }
                            let mut result = WithWarnings::flawless(predicate);
                            if difference(&uniques, &rhs_free).len() > 0 {
                                result = result.add_warning(ProofOutlineWarning::ExcessQuantifiedVariables(self.clone()));
                                assert(views(result.warnings@) =~= seq![ProofOutlineWarningModel::ExcessQuantifiedVariables(self@)]);
                            } else {
                                assert(views(result.warnings@) =~= Seq::<ProofOutlineWarningModel>::empty());
                            }
                            Ok(result)
                        },
                        _ => Err(malformed),
                    },
                    _ => Err(malformed),
                }
            },
            _ => Err(malformed),
        }
    }
}

/// An accepted definition `forall V (p(V) <-> F)` defines a predicate that
/// was not taken; `F` speaks only of taken predicates and of the quantified
/// variables.
pub proof fn lemma_definition_accepted(f: FormulaModel, taken: Seq<PredicateModel>)
    requires
        definition_outcome(f, taken) is Ok,
    ensures
        f matches FormulaModel::QuantifiedFormula { quantification, formula }
            && *formula matches FormulaModel::BinaryFormula { lhs, rhs, .. }
            && *lhs matches FormulaModel::AtomicFormula(AtomicFormulaModel::Atom(a))
            && definition_outcome(f, taken)->Ok_0.0 == a.predicate()
            && !taken.contains(a.predicate())
            && (forall|q: PredicateModel| #[trigger] (*rhs).predicates().contains(q) ==> taken.contains(q))
            && (forall|v: VariableModel| #[trigger] (*rhs).free_variables().contains(v) ==> quantification.variables.contains(v)),
{
    match f {
        FormulaModel::QuantifiedFormula { quantification, formula } => match *formula {
            FormulaModel::BinaryFormula { lhs, rhs, .. } => {
                let uniques = set_from(quantification.variables);
                crate::convenience::sets::lemma_contained_of_empty_difference((*rhs).predicates(), taken);
                crate::convenience::sets::lemma_contained_of_empty_difference((*rhs).free_variables(), uniques);
                crate::convenience::sets::lemma_set_extend_contains(Seq::<VariableModel>::empty(), quantification.variables);
            },
            _ => {},
        },
        _ => {},
    }
}

// ================================================================ inductive lemmas

/// The base case and the inductive step of an inductive lemma
/// `forall V (N >= n -> F)` over an integer variable `N` and a numeral `n`:
/// `F` with `n` for `N`, and `N >= n and F -> F` with `N + 1` for `N` in the
/// consequent, both universally closed; an error for the first check that
/// fails: the form of the lemma, a single guard, the quantified variables being
/// the free variables of `F`, and `N` being an integer variable.
pub open spec fn inductive_outcome(f: FormulaModel) -> Result<(FormulaModel, FormulaModel), ProofOutlineErrorModel> {
    match f {
        FormulaModel::QuantifiedFormula { quantification, formula } => {
            if quantification.quantifier != Quantifier::Forall {
                Err(ProofOutlineErrorModel::MalformedInductiveLemma(f))
            } else {
                match *formula {
                    FormulaModel::BinaryFormula { connective: BinaryConnective::Implication, lhs, rhs } => match *lhs {
                        FormulaModel::AtomicFormula(AtomicFormulaModel::Comparison(c)) => {
                            if c.guards.len() != 1 {
                                Err(ProofOutlineErrorModel::MalformedInductiveAntecedent(f))
                            } else if !same_members(set_from(quantification.variables), (*rhs).free_variables()) {
                                Err(ProofOutlineErrorModel::MalformedInductiveVariables(f))
                            } else {
                                match c.term {
                                    GeneralTermModel::IntegerTerm(IntegerTermModel::Variable(v)) => {
                                        let x = VariableModel { name: v, sort: Sort::Integer };
                                        let g = c.guards[0];
                                        match g.term {
                                            GeneralTermModel::IntegerTerm(IntegerTermModel::Numeral(n)) =>
                                                if g.relation == Relation::GreaterEqual {
                                                    Ok((
                                                        (*rhs).substitute(x, GeneralTermModel::IntegerTerm(IntegerTermModel::Numeral(n))).universal_closure(),
                                                        FormulaModel::BinaryFormula {
                                                            connective: BinaryConnective::Implication,
                                                            lhs: Box::new(FormulaModel::BinaryFormula {
                                                                connective: BinaryConnective::Conjunction,
                                                                lhs,
                                                                rhs,
                                                            }),
                                                            rhs: Box::new((*rhs).substitute(x, successor(v))),
                                                        }.universal_closure(),
                                                    ))
                                                } else {
                                                    Err(ProofOutlineErrorModel::MalformedInductiveLemma(f))
                                                },
                                            _ => Err(ProofOutlineErrorModel::MalformedInductiveLemma(f)),
                                        }
                                    },
                                    _ => Err(ProofOutlineErrorModel::MalformedInductiveTerm(f)),
                                }
                            }
                        },
                        _ => Err(ProofOutlineErrorModel::MalformedInductiveLemma(f)),
                    },
                    _ => Err(ProofOutlineErrorModel::MalformedInductiveLemma(f)),
                }
            }
        },
        _ => Err(ProofOutlineErrorModel::MalformedInductiveLemma(f)),
    }
}

/// The base case and the inductive step of an accepted inductive lemma have
/// no free variables.
pub proof fn lemma_inductive_parts_closed(f: FormulaModel)
    requires
        inductive_outcome(f) is Ok,
    ensures
        inductive_outcome(f)->Ok_0.0.free_variables().len() == 0,
        inductive_outcome(f)->Ok_0.1.free_variables().len() == 0,
{
    match f {
        FormulaModel::QuantifiedFormula { formula, .. } => match *formula {
            FormulaModel::BinaryFormula { lhs, rhs, .. } => match *lhs {
                FormulaModel::AtomicFormula(AtomicFormulaModel::Comparison(c)) => match c.term {
                    GeneralTermModel::IntegerTerm(IntegerTermModel::Variable(v)) => {
                        let x = VariableModel { name: v, sort: Sort::Integer };
                        let g = c.guards[0];
                        match g.term {
                            GeneralTermModel::IntegerTerm(IntegerTermModel::Numeral(n)) => {
                                crate::syntax_tree::fol_ops::lemma_universal_closure_closed(
                                    (*rhs).substitute(x, GeneralTermModel::IntegerTerm(IntegerTermModel::Numeral(n))),
                                );
                                crate::syntax_tree::fol_ops::lemma_universal_closure_closed(FormulaModel::BinaryFormula {
                                    connective: BinaryConnective::Implication,
                                    lhs: Box::new(FormulaModel::BinaryFormula {
                                        connective: BinaryConnective::Conjunction,
                                        lhs,
                                        rhs,
                                    }),
                                    rhs: Box::new((*rhs).substitute(x, successor(v))),
                                });
                            },
                            _ => {},
                        }
                    },
                    _ => {},
                },
                _ => {},
            },
            _ => {},
        },
        _ => {},
    }
}

/// `N + 1` for the integer variable `N`.
pub open spec fn successor(v: Seq<char>) -> GeneralTermModel {
    GeneralTermModel::IntegerTerm(IntegerTermModel::BinaryOperation {
        op: BinaryOperator::Add,
        lhs: Box::new(IntegerTermModel::Variable(v)),
        rhs: Box::new(IntegerTermModel::Numeral(1)),
    })
}

fn successor_exec(v: String) -> (r: GeneralTerm)
    ensures
        r@ == successor(v@),
{
    let lhs = IntegerTerm::Variable(v);
    let rhs = IntegerTerm::Numeral(1);
    assert(lhs@ == IntegerTermModel::Variable(v@));
    assert(rhs@ == IntegerTermModel::Numeral(1));
    GeneralTerm::IntegerTerm(IntegerTerm::BinaryOperation { op: BinaryOperator::Add, lhs: Box::new(lhs), rhs: Box::new(rhs) })
}

/// The base case and the inductive step for the antecedent `lhs`, the
/// consequent `rhs`, the induction variable `v` and the least value `n`.
fn inductive_parts(lhs: Formula, rhs: Formula, v: String, n: isize) -> (r: (Formula, Formula))
    ensures
        r.0@ == rhs@.substitute(VariableModel { name: v@, sort: Sort::Integer }, GeneralTermModel::IntegerTerm(IntegerTermModel::Numeral(n))).universal_closure(),
        r.1@ == (FormulaModel::BinaryFormula {
            connective: BinaryConnective::Implication,
            lhs: Box::new(FormulaModel::BinaryFormula { connective: BinaryConnective::Conjunction, lhs: Box::new(lhs@), rhs: Box::new(rhs@) }),
            rhs: Box::new(rhs@.substitute(VariableModel { name: v@, sort: Sort::Integer }, successor(v@))),
        }).universal_closure(),
{
    let x = Variable { name: v.clone(), sort: Sort::Integer };
    let least = GeneralTerm::IntegerTerm(IntegerTerm::Numeral(n));
    let next = successor_exec(v);
    proof {
        crate::syntax_tree::fol_ops::lemma_integer_term_substitutable(rhs@, x@, least@);
        crate::syntax_tree::fol_ops::lemma_integer_term_substitutable(rhs@, x@, next@);
    }
    let base_case = rhs.clone().substitute(x.clone(), least).universal_closure();
    let consequent = rhs.clone().substitute(x, next);
    let ghost (lhs_model, rhs_model, consequent_model) = (lhs@, rhs@, consequent@);
    let antecedent = Formula::BinaryFormula { connective: BinaryConnective::Conjunction, lhs: Box::new(lhs), rhs: Box::new(rhs) };
    assert(antecedent@ == FormulaModel::BinaryFormula {
        connective: BinaryConnective::Conjunction,
        lhs: Box::new(lhs_model),
        rhs: Box::new(rhs_model),
    });
    let implication = Formula::BinaryFormula {
        connective: BinaryConnective::Implication,
        lhs: Box::new(antecedent),
        rhs: Box::new(consequent),
    };
    assert(implication@ == FormulaModel::BinaryFormula {
        connective: BinaryConnective::Implication,
        lhs: Box::new(antecedent@),
        rhs: Box::new(consequent_model),
    });
    let step = implication.universal_closure();
    (base_case, step)
}

impl Formula {
    /// The base case and the inductive step of an inductive lemma; an error for
    /// the first check that fails.
    pub fn inductive_lemma(self) -> (r: Result<WithWarnings<(Formula, Formula), ProofOutlineWarning>, ProofOutlineError>)
        ensures
            match inductive_outcome(self@) {
                Ok((base, step)) => r matches Ok(w) && w.data.0@ == base && w.data.1@ == step && w.warnings@.len() == 0,
                Err(e) => r matches Err(x) && x@ == e,
            },
    {
        proof {
            reveal_with_fuel(crate::syntax_tree::fol::formula_model, 3);
        }
        let original = self.clone();
        match self {
            Formula::QuantifiedFormula { quantification, formula } => {
                if quantification.quantifier != Quantifier::Forall {
                    return Err(ProofOutlineError::MalformedInductiveLemma(original));
                }
                match *formula {
                    Formula::BinaryFormula { connective: BinaryConnective::Implication, lhs, rhs } => {
                        let (term, guards) = match &*lhs {
                            Formula::AtomicFormula(AtomicFormula::Comparison(c)) => (&c.term, &c.guards),
                            _ => {
                                return Err(ProofOutlineError::MalformedInductiveLemma(original));
                            },
                        };
                        if guards.len() != 1 {
                            return Err(ProofOutlineError::MalformedInductiveAntecedent(original));
                        }
                        let mut varset: Vec<Variable> = Vec::new();
                        assert(views(varset@) =~= Seq::<VariableModel>::empty());
                        extend(&mut varset, crate::convenience::sets::duplicate_all(&quantification.variables));
                        let rhs_free = rhs.free_variables();
                        if !(all_in(&varset, &rhs_free) && all_in(&rhs_free, &varset)) {
                            return Err(ProofOutlineError::MalformedInductiveVariables(original));
                        }
                        let v = match term {
                            GeneralTerm::IntegerTerm(IntegerTerm::Variable(v)) => v.clone(),
                            _ => {
                                return Err(ProofOutlineError::MalformedInductiveTerm(original));
                            },
                        };
                        let n = match &guards[0] {
                            Guard { relation: Relation::GreaterEqual, term: GeneralTerm::IntegerTerm(IntegerTerm::Numeral(n)) } => *n,
                            _ => {
                                return Err(ProofOutlineError::MalformedInductiveLemma(original));
                            },
                        };
                        let (base_case, step) = inductive_parts(*lhs, *rhs, v, n);
                        Ok(WithWarnings::flawless((base_case, step)))
                    },
                    _ => Err(ProofOutlineError::MalformedInductiveLemma(original)),
                }
            },
            _ => Err(ProofOutlineError::MalformedInductiveLemma(original)),
        }
    }
}

// ================================================================ general lemmas

/// A lemma as the prover sees it: if all its conjectures are proven, its
/// consequences may be added as axioms in the next step of the proof.
#[derive(Debug, PartialEq, Eq)]
pub struct GeneralLemma {
    pub conjectures: Vec<problem::AnnotatedFormula>,
    pub consequences: Vec<problem::AnnotatedFormula>,
}

pub struct GeneralLemmaModel {
    pub conjectures: Seq<problem::AnnotatedFormulaModel>,
    pub consequences: Seq<problem::AnnotatedFormulaModel>,
}

impl View for GeneralLemma {
    type V = GeneralLemmaModel;
    open spec fn view(&self) -> GeneralLemmaModel {
        GeneralLemmaModel { conjectures: views(self.conjectures@), consequences: views(self.consequences@) }
    }
}

/// The formula of a problem with the name and formula of an annotated formula.
pub open spec fn problem_formula(name: Seq<char>, formula: FormulaModel, role: problem::Role) -> problem::AnnotatedFormulaModel {
    problem::AnnotatedFormulaModel { name, role, formula }
}

/// A lemma has itself as conjecture and as consequence; an inductive lemma
/// has its base case and its inductive step as conjectures and itself as
/// consequence; other roles are no lemmas.
pub open spec fn general_lemma_outcome(a: AnnotatedFormulaModel) -> Result<GeneralLemmaModel, ProofOutlineErrorModel> {
    match a.role {
        fol::Role::Lemma => Ok(GeneralLemmaModel {
            conjectures: seq![problem_formula(a.name, a.formula, problem::Role::Conjecture)],
            consequences: seq![problem_formula(a.name, a.formula, problem::Role::Axiom)],
        }),
        fol::Role::InductiveLemma => match inductive_outcome(a.formula) {
            Ok((base, step)) => Ok(GeneralLemmaModel {
                conjectures: seq![
                    problem_formula(a.name + "base_case"@, base, problem::Role::Conjecture),
                    problem_formula(a.name + "inductive_step"@, step, problem::Role::Conjecture),
                ],
                consequences: seq![problem_formula(a.name, a.formula, problem::Role::Axiom)],
            }),
            Err(e) => Err(e),
        },
        _ => Err(ProofOutlineErrorModel::InvalidRoleForGeneralLemma(a)),
    }
}

impl fol::AnnotatedFormula {
    /// The formula of a problem with this name and formula and the given role.
    pub fn into_problem_formula(self, role: problem::Role) -> (r: problem::AnnotatedFormula)
        ensures
            r@ == problem_formula(self@.name, self@.formula, role),
    {
        problem::AnnotatedFormula { name: self.name, role, formula: self.formula }
    }
}

impl GeneralLemma {
    /// The general lemma of a lemma or an inductive lemma.
    pub fn try_from(annotated_formula: fol::AnnotatedFormula) -> (r: Result<GeneralLemma, ProofOutlineError>)
        ensures
            match general_lemma_outcome(annotated_formula@) {
                Ok(g) => r matches Ok(x) && x@ == g,
                Err(e) => r matches Err(x) && x@ == e,
            },
    {
        match annotated_formula.role {
            fol::Role::Lemma => {
                let conjecture = annotated_formula.clone().into_problem_formula(problem::Role::Conjecture);
                let consequence = annotated_formula.into_problem_formula(problem::Role::Axiom);
                let r = GeneralLemma { conjectures: vec![conjecture], consequences: vec![consequence] };
                assert(r@.conjectures =~= general_lemma_outcome(annotated_formula@)->Ok_0.conjectures);
                assert(r@.consequences =~= general_lemma_outcome(annotated_formula@)->Ok_0.consequences);
                Ok(r)
            },
            fol::Role::InductiveLemma => {
                let parts = match annotated_formula.formula.clone().inductive_lemma() {
                    Ok(w) => w.data,
                    Err(e) => {
                        return Err(e);
                    },
                };
                let (base, step) = parts;
                let base_formula = problem::AnnotatedFormula {
                    name: concat(annotated_formula.name.as_str(), "base_case"),
                    role: problem::Role::Conjecture,
                    formula: base,
                };
                let step_formula = problem::AnnotatedFormula {
                    name: concat(annotated_formula.name.as_str(), "inductive_step"),
                    role: problem::Role::Conjecture,
                    formula: step,
                };
                let consequence = annotated_formula.into_problem_formula(problem::Role::Axiom);
                let r = GeneralLemma { conjectures: vec![base_formula, step_formula], consequences: vec![consequence] };
                assert(r@.conjectures =~= general_lemma_outcome(annotated_formula@)->Ok_0.conjectures);
                assert(r@.consequences =~= general_lemma_outcome(annotated_formula@)->Ok_0.consequences);
                Ok(r)
            },
            _ => Err(ProofOutlineError::InvalidRoleForGeneralLemma(annotated_formula)),
        }
    }
}

/// The lemmas and definitions of a proof outline, for each direction of a proof.
pub struct ProofOutline {
    pub forward_lemmas: Vec<GeneralLemma>,
    pub backward_lemmas: Vec<GeneralLemma>,
    pub forward_definitions: Vec<fol::AnnotatedFormula>,
    pub backward_definitions: Vec<fol::AnnotatedFormula>,
}

// ================================================================ the outline of a specification

/// The universal closure, where a formula already quantified universally
/// takes its free variables into that quantifier, after its own.
pub open spec fn joined_closure(f: FormulaModel) -> FormulaModel {
    match f {
        FormulaModel::QuantifiedFormula { quantification, formula } =>
            if quantification.quantifier == Quantifier::Forall && f.free_variables().len() > 0 {
                FormulaModel::QuantifiedFormula {
                    quantification: fol::QuantificationModel {
                        quantifier: Quantifier::Forall,
                        variables: quantification.variables + f.free_variables(),
                    },
                    formula,
                }
            } else {
                f.universal_closure()
            },
        _ => f.universal_closure(),
    }
}

impl Formula {
    /// The universal closure, joining the free variables into an outer
    /// universal quantifier where there is one.
    pub fn universal_closure_with_quantifier_joining(self) -> (r: Formula)
        ensures
            r@ == joined_closure(self@),
    {
        let free = self.free_variables();
        match self {
            Formula::QuantifiedFormula { quantification, formula } => {
                if matches!(quantification.quantifier, Quantifier::Forall) && free.len() > 0 {
                    let mut variables = quantification.variables;
                    let mut extra = free;
                    let ghost a = views(variables@);
                    let ghost b = views(extra@);
                    variables.append(&mut extra);
                    assert(views(variables@) =~= a + b);
                    Formula::QuantifiedFormula {
                        quantification: fol::Quantification { quantifier: Quantifier::Forall, variables },
                        formula,
                    }
                } else {
                    Formula::QuantifiedFormula { quantification, formula }.universal_closure()
                }
            },
            other => other.universal_closure(),
        }
    }
}

/// The proof outline gathered so far, with the taken predicates and the warnings.
pub struct OutlineState {
    pub forward_lemmas: Seq<GeneralLemmaModel>,
    pub backward_lemmas: Seq<GeneralLemmaModel>,
    pub forward_definitions: Seq<AnnotatedFormulaModel>,
    pub backward_definitions: Seq<AnnotatedFormulaModel>,
    pub taken: Seq<PredicateModel>,
    pub warnings: Seq<ProofOutlineWarningModel>,
}

/// Taking in one formula of a proof outline: a lemma becomes a general lemma
/// of its direction; a definition, checked against the taken predicates,
/// takes its predicate and joins the definitions of its direction; any other
/// role is an error.
pub open spec fn outline_step(s: OutlineState, a0: AnnotatedFormulaModel, ps: Seq<FunctionConstantModel>) -> Result<OutlineState, ProofOutlineErrorModel> {
    let a = placed_annotated(a0, ps);
    if a.role == fol::Role::Lemma || a.role == fol::Role::InductiveLemma {
        let c = placed_annotated(AnnotatedFormulaModel { formula: joined_closure(a.formula), ..a }, ps);
        match general_lemma_outcome(c) {
            Ok(g) => Ok(OutlineState {
                forward_lemmas: if a.direction != fol::Direction::Backward { s.forward_lemmas.push(g) } else { s.forward_lemmas },
                backward_lemmas: if a.direction != fol::Direction::Forward { s.backward_lemmas.push(g) } else { s.backward_lemmas },
                ..s
            }),
            Err(e) => Err(e),
        }
    } else if a.role == fol::Role::Definition {
        match definition_outcome(a.formula, s.taken) {
            Ok((p, ws)) => Ok(OutlineState {
                forward_definitions: if a.direction != fol::Direction::Backward { s.forward_definitions.push(a) } else { s.forward_definitions },
                backward_definitions: if a.direction != fol::Direction::Forward { s.backward_definitions.push(a) } else { s.backward_definitions },
                taken: set_insert(s.taken, p),
                warnings: s.warnings + ws,
                ..s
            }),
            Err(e) => Err(e),
        }
    } else {
        Err(ProofOutlineErrorModel::AnnotatedFormulaWithInvalidRole(a))
    }
}

/// Taking in the formulas in order, up to the first error.
pub open spec fn outline_run(s: OutlineState, fs: Seq<AnnotatedFormulaModel>, ps: Seq<FunctionConstantModel>) -> Result<OutlineState, ProofOutlineErrorModel>
    decreases fs.len(),
{
    if fs.len() == 0 {
        Ok(s)
    } else {
        match outline_step(s, fs[0], ps) {
            Ok(t) => outline_run(t, fs.drop_first(), ps),
            Err(e) => Err(e),
        }
    }
}

/// The outcome of building a proof outline from a specification.
pub open spec fn outline_outcome(fs: Seq<AnnotatedFormulaModel>, taken: Seq<PredicateModel>, ps: Seq<FunctionConstantModel>) -> Result<OutlineState, ProofOutlineErrorModel> {
    outline_run(OutlineState {
        forward_lemmas: seq![],
        backward_lemmas: seq![],
        forward_definitions: seq![],
        backward_definitions: seq![],
        taken,
        warnings: seq![],
    }, fs, ps)
}

fn duplicate_lemma(g: &GeneralLemma) -> (r: GeneralLemma)
    ensures
        r@ == g@,
{
    GeneralLemma { conjectures: duplicate_all(&g.conjectures), consequences: duplicate_all(&g.consequences) }
}

impl ProofOutline {
    /// The proof outline of a specification: its lemmas and definitions by
    /// direction, with the placeholders replaced.
    pub fn from_specification(
        specification: fol::Specification,
        taken_predicates: Vec<Predicate>,
        placeholders: &Vec<FunctionConstant>,
    ) -> (r: Result<WithWarnings<ProofOutline, ProofOutlineWarning>, ProofOutlineError>)
        ensures
            match outline_outcome(specification@.formulas, views(taken_predicates@), views(placeholders@)) {
                Ok(s) => r matches Ok(w)
                    && views(w.data.forward_lemmas@) == s.forward_lemmas
                    && views(w.data.backward_lemmas@) == s.backward_lemmas
                    && views(w.data.forward_definitions@) == s.forward_definitions
                    && views(w.data.backward_definitions@) == s.backward_definitions
                    && views(w.warnings@) == s.warnings,
                Err(e) => r matches Err(x) && x@ == e,
            },
    {
        let ghost ps = views(placeholders@);
        let ghost all = specification@.formulas;
        let mut taken = taken_predicates;
        let mut warnings: Vec<ProofOutlineWarning> = Vec::new();
        let mut forward_lemmas: Vec<GeneralLemma> = Vec::new();
        let mut backward_lemmas: Vec<GeneralLemma> = Vec::new();
        let mut forward_definitions: Vec<fol::AnnotatedFormula> = Vec::new();
        let mut backward_definitions: Vec<fol::AnnotatedFormula> = Vec::new();
        let mut rest = specification.formulas;
        let n = rest.len();
        let mut i: usize = 0;
        proof {
            assert(all.skip(0) =~= all);
            assert(views(forward_lemmas@) =~= Seq::<GeneralLemmaModel>::empty());
            assert(views(backward_lemmas@) =~= Seq::<GeneralLemmaModel>::empty());
            assert(views(forward_definitions@) =~= Seq::<AnnotatedFormulaModel>::empty());
            assert(views(backward_definitions@) =~= Seq::<AnnotatedFormulaModel>::empty());
            assert(views(warnings@) =~= Seq::<ProofOutlineWarningModel>::empty());
        }
        while i < n
            invariant
                n == all.len(),
                i <= n,
                rest.len() == n - i,
                ps == views(placeholders@),
                all == specification@.formulas,
                forall|k: int| 0 <= k < rest.len() ==> #[trigger] rest@[k]@ == all[k + i],
                outline_run(OutlineState {
                    forward_lemmas: views(forward_lemmas@),
                    backward_lemmas: views(backward_lemmas@),
                    forward_definitions: views(forward_definitions@),
                    backward_definitions: views(backward_definitions@),
                    taken: views(taken@),
                    warnings: views(warnings@),
                }, all.skip(i as int), ps) == outline_outcome(all, views(taken_predicates@), ps),
            decreases n - i,
        {
            let ghost state = OutlineState {
                forward_lemmas: views(forward_lemmas@),
                backward_lemmas: views(backward_lemmas@),
                forward_definitions: views(forward_definitions@),
                backward_definitions: views(backward_definitions@),
                taken: views(taken@),
                warnings: views(warnings@),
            };
            assert(all.skip(i as int)[0] == all[i as int]);
            assert(all.skip(i as int).drop_first() =~= all.skip(i as int + 1));
            let anf = rest.remove(0).replace_placeholders(placeholders);
            match anf.role {
                fol::Role::Lemma | fol::Role::InductiveLemma => {
                    let closed = fol::AnnotatedFormula {
                        role: anf.role,
                        direction: anf.direction,
                        name: anf.name.clone(),
                        formula: anf.formula.clone().universal_closure_with_quantifier_joining(),
                    }.replace_placeholders(placeholders);
                    let ghost cv = closed@;
                    assert(cv == placed_annotated(AnnotatedFormulaModel { formula: joined_closure(anf@.formula), ..anf@ }, ps));
                    let general_lemma = match GeneralLemma::try_from(closed) {
                        Ok(g) => g,
                        Err(e) => {
                            assert(outline_step(state, all[i as int], ps) == Err::<OutlineState, ProofOutlineErrorModel>(e@));
                            assert(outline_run(state, all.skip(i as int), ps) == Err::<OutlineState, ProofOutlineErrorModel>(e@));
                            return Err(e);
                        },
                    };
                    assert(general_lemma_outcome(cv) == Ok::<GeneralLemmaModel, ProofOutlineErrorModel>(general_lemma@));
                    match anf.direction {
                        fol::Direction::Universal => {
                            let ghost fl = views(forward_lemmas@);
                            let ghost bl = views(backward_lemmas@);
                            let ghost gv = general_lemma@;
                            forward_lemmas.push(duplicate_lemma(&general_lemma));
                            backward_lemmas.push(general_lemma);
                            assert(views(forward_lemmas@) =~= fl.push(gv));
                            assert(views(backward_lemmas@) =~= bl.push(gv));
                        },
                        fol::Direction::Forward => {
                            let ghost fl = views(forward_lemmas@);
                            let ghost gv = general_lemma@;
                            forward_lemmas.push(general_lemma);
                            assert(views(forward_lemmas@) =~= fl.push(gv));
                        },
                        fol::Direction::Backward => {
                            let ghost bl = views(backward_lemmas@);
                            let ghost gv = general_lemma@;
                            backward_lemmas.push(general_lemma);
                            assert(views(backward_lemmas@) =~= bl.push(gv));
                        },
                    }
                },
                fol::Role::Definition => {
                    let predicate = match anf.formula.definition(&taken) {
                        Ok(w) => w,
                        Err(e) => {
                            assert(outline_step(state, all[i as int], ps) == Err::<OutlineState, ProofOutlineErrorModel>(e@));
                            assert(outline_run(state, all.skip(i as int), ps) == Err::<OutlineState, ProofOutlineErrorModel>(e@));
                            return Err(e);
                        },
                    };
                    let ghost ws = views(warnings@);
                    let ghost pw = views(predicate.warnings@);
                    let mut more = predicate.warnings;
                    insert(&mut taken, predicate.data);
                    warnings.append(&mut more);
                    assert(views(warnings@) =~= ws + pw);
                    let ghost av = anf@;
                    match anf.direction {
                        fol::Direction::Forward => {
                            let ghost fd = views(forward_definitions@);
                            forward_definitions.push(anf);
                            assert(views(forward_definitions@) =~= fd.push(av));
                        },
                        fol::Direction::Backward => {
                            let ghost bd = views(backward_definitions@);
                            backward_definitions.push(anf);
                            assert(views(backward_definitions@) =~= bd.push(av));
                        },
                        fol::Direction::Universal => {
                            let ghost fd = views(forward_definitions@);
                            let ghost bd = views(backward_definitions@);
                            forward_definitions.push(anf.clone());
                            backward_definitions.push(anf);
                            assert(views(forward_definitions@) =~= fd.push(av));
                            assert(views(backward_definitions@) =~= bd.push(av));
                        },
                    }
                },
                _ => {
                    let ghost av = anf@;
                    assert(outline_step(state, all[i as int], ps) == Err::<OutlineState, ProofOutlineErrorModel>(
                        ProofOutlineErrorModel::AnnotatedFormulaWithInvalidRole(av)));
                    assert(outline_run(state, all.skip(i as int), ps) == Err::<OutlineState, ProofOutlineErrorModel>(
                        ProofOutlineErrorModel::AnnotatedFormulaWithInvalidRole(av)));
                    return Err(ProofOutlineError::AnnotatedFormulaWithInvalidRole(anf));
                },
            }
            assert(outline_step(state, all[i as int], ps) == Ok::<OutlineState, ProofOutlineErrorModel>(OutlineState {
                forward_lemmas: views(forward_lemmas@),
                backward_lemmas: views(backward_lemmas@),
                forward_definitions: views(forward_definitions@),
                backward_definitions: views(backward_definitions@),
                taken: views(taken@),
                warnings: views(warnings@),
            }));
            i += 1;
        }
        assert(all.skip(n as int) =~= Seq::<AnnotatedFormulaModel>::empty());
        Ok(WithWarnings {
            data: ProofOutline { forward_lemmas, backward_lemmas, forward_definitions, backward_definitions },
            warnings,
        })
    }
}

} // verus!
