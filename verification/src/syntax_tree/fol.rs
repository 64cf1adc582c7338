//! The syntax of many-sorted first-order theories.
//!
//! Every type has a view (its model) in which strings are character
//! sequences and vectors are sequences; the contracts speak of the models.

use crate::convenience::sets::{views, set_insert, set_extend, set_difference, ModelEq};
use crate::convenience::text::{decimal, numbered};
use vstd::prelude::*;

verus! {

#[derive(Copy, Clone, Debug, PartialEq, Eq, Hash, Structural)]
pub enum UnaryOperator {
    Negative,
}

#[derive(Copy, Clone, Debug, PartialEq, Eq, Hash, Structural)]
pub enum BinaryOperator {
    Add,
    Subtract,
    Multiply,
}

#[derive(Copy, Clone, Debug, PartialEq, Eq, Hash, Structural)]
pub enum Relation {
    Equal,
    NotEqual,
    Greater,
    Less,
    GreaterEqual,
    LessEqual,
}

#[derive(Copy, Clone, Debug, PartialEq, Eq, Hash, Structural)]
pub enum UnaryConnective {
    Negation,
}

#[derive(Copy, Clone, Debug, PartialEq, Eq, Hash, Structural)]
pub enum Quantifier {
    Forall,
    Exists,
}

#[derive(Copy, Clone, Debug, PartialEq, Eq, Hash, PartialOrd, Ord, Structural)]
pub enum Sort {
    General,
    Integer,
    Symbol,
}

#[derive(Copy, Clone, Debug, PartialEq, Eq, Hash, Structural)]
pub enum BinaryConnective {
    Conjunction,
    Disjunction,
    Implication,
    ReverseImplication,
    Equivalence,
}

#[derive(Copy, Clone, Debug, PartialEq, Eq, Hash, Structural)]
pub enum Role {
    Assumption,
    Spec,
    Lemma,
    Definition,
    InductiveLemma,
}

#[derive(Copy, Clone, Debug, Default, PartialEq, Eq, Hash, Structural)]
pub enum Direction {
    #[default]
    Universal,
    Forward,
    Backward,
}

impl View for UnaryOperator {
    type V = UnaryOperator;
    open spec fn view(&self) -> UnaryOperator { *self }
}

impl View for BinaryOperator {
    type V = BinaryOperator;
    open spec fn view(&self) -> BinaryOperator { *self }
}

impl View for Relation {
    type V = Relation;
    open spec fn view(&self) -> Relation { *self }
}

impl View for UnaryConnective {
    type V = UnaryConnective;
    open spec fn view(&self) -> UnaryConnective { *self }
}

impl View for Quantifier {
    type V = Quantifier;
    open spec fn view(&self) -> Quantifier { *self }
}

impl View for Sort {
    type V = Sort;
    open spec fn view(&self) -> Sort { *self }
}

impl View for BinaryConnective {
    type V = BinaryConnective;
    open spec fn view(&self) -> BinaryConnective { *self }
}

impl View for Role {
    type V = Role;
    open spec fn view(&self) -> Role { *self }
}

impl View for Direction {
    type V = Direction;
    open spec fn view(&self) -> Direction { *self }
}

// ---------------------------------------------------------------- terms

#[derive(Debug, PartialEq, Eq, Hash)]
pub enum IntegerTerm {
    Numeral(isize),
    FunctionConstant(String),
    Variable(String),
    UnaryOperation { op: UnaryOperator, arg: Box<IntegerTerm> },
    BinaryOperation { op: BinaryOperator, lhs: Box<IntegerTerm>, rhs: Box<IntegerTerm> },
}

pub enum IntegerTermModel {
    Numeral(isize),
    FunctionConstant(Seq<char>),
    Variable(Seq<char>),
    UnaryOperation { op: UnaryOperator, arg: Box<IntegerTermModel> },
    BinaryOperation { op: BinaryOperator, lhs: Box<IntegerTermModel>, rhs: Box<IntegerTermModel> },
}

pub open spec fn integer_term_model(t: &IntegerTerm) -> IntegerTermModel
    decreases t,
{
    match t {
        IntegerTerm::Numeral(n) => IntegerTermModel::Numeral(*n),
        IntegerTerm::FunctionConstant(c) => IntegerTermModel::FunctionConstant(c@),
        IntegerTerm::Variable(v) => IntegerTermModel::Variable(v@),
        IntegerTerm::UnaryOperation { op, arg } => IntegerTermModel::UnaryOperation {
            op: *op,
            arg: Box::new(integer_term_model(&**arg)),
        },
        IntegerTerm::BinaryOperation { op, lhs, rhs } => IntegerTermModel::BinaryOperation {
            op: *op,
            lhs: Box::new(integer_term_model(&**lhs)),
            rhs: Box::new(integer_term_model(&**rhs)),
        },
    }
}

impl View for IntegerTerm {
    type V = IntegerTermModel;
    open spec fn view(&self) -> IntegerTermModel { integer_term_model(self) }
}

#[derive(Debug, PartialEq, Eq, Hash)]
pub enum SymbolicTerm {
    Symbol(String),
    FunctionConstant(String),
    Variable(String),
}

pub enum SymbolicTermModel {
    Symbol(Seq<char>),
    FunctionConstant(Seq<char>),
    Variable(Seq<char>),
}

impl View for SymbolicTerm {
    type V = SymbolicTermModel;
    open spec fn view(&self) -> SymbolicTermModel {
        match self {
            SymbolicTerm::Symbol(s) => SymbolicTermModel::Symbol(s@),
            SymbolicTerm::FunctionConstant(c) => SymbolicTermModel::FunctionConstant(c@),
            SymbolicTerm::Variable(v) => SymbolicTermModel::Variable(v@),
        }
    }
}

#[derive(Debug, PartialEq, Eq, Hash)]
pub enum GeneralTerm {
    Infimum,
    Supremum,
    FunctionConstant(String),
    Variable(String),
    IntegerTerm(IntegerTerm),
    SymbolicTerm(SymbolicTerm),
}

pub enum GeneralTermModel {
    Infimum,
    Supremum,
    FunctionConstant(Seq<char>),
    Variable(Seq<char>),
    IntegerTerm(IntegerTermModel),
    SymbolicTerm(SymbolicTermModel),
}

impl View for GeneralTerm {
    type V = GeneralTermModel;
    open spec fn view(&self) -> GeneralTermModel {
        match self {
            GeneralTerm::Infimum => GeneralTermModel::Infimum,
            GeneralTerm::Supremum => GeneralTermModel::Supremum,
            GeneralTerm::FunctionConstant(c) => GeneralTermModel::FunctionConstant(c@),
            GeneralTerm::Variable(v) => GeneralTermModel::Variable(v@),
            GeneralTerm::IntegerTerm(t) => GeneralTermModel::IntegerTerm(t@),
            GeneralTerm::SymbolicTerm(t) => GeneralTermModel::SymbolicTerm(t@),
        }
    }
}

// ---------------------------------------------------------------- names

#[derive(Debug, PartialEq, Eq, Hash)]
pub struct Predicate {
    pub symbol: String,
    pub arity: usize,
}

pub struct PredicateModel {
    pub symbol: Seq<char>,
    pub arity: usize,
}

impl View for Predicate {
    type V = PredicateModel;
    open spec fn view(&self) -> PredicateModel {
        PredicateModel { symbol: self.symbol@, arity: self.arity }
    }
}

#[derive(Debug, PartialEq, Eq, Hash, PartialOrd, Ord)]
pub struct FunctionConstant {
    pub name: String,
    pub sort: Sort,
}

pub struct FunctionConstantModel {
    pub name: Seq<char>,
    pub sort: Sort,
}

impl View for FunctionConstant {
    type V = FunctionConstantModel;
    open spec fn view(&self) -> FunctionConstantModel {
        FunctionConstantModel { name: self.name@, sort: self.sort }
    }
}

#[derive(Debug, PartialEq, Eq, Hash, PartialOrd, Ord)]
pub struct Variable {
    pub name: String,
    pub sort: Sort,
}

pub struct VariableModel {
    pub name: Seq<char>,
    pub sort: Sort,
}

impl View for Variable {
    type V = VariableModel;
    open spec fn view(&self) -> VariableModel {
        VariableModel { name: self.name@, sort: self.sort }
    }
}

// ---------------------------------------------------------------- atomic formulas

#[derive(Debug, PartialEq, Eq, Hash)]
pub struct Atom {
    pub predicate_symbol: String,
    pub terms: Vec<GeneralTerm>,
}

pub struct AtomModel {
    pub predicate_symbol: Seq<char>,
    pub terms: Seq<GeneralTermModel>,
}

impl View for Atom {
    type V = AtomModel;
    open spec fn view(&self) -> AtomModel {
        AtomModel { predicate_symbol: self.predicate_symbol@, terms: views(self.terms@) }
    }
}

#[derive(Debug, PartialEq, Eq, Hash)]
pub struct Guard {
    pub relation: Relation,
    pub term: GeneralTerm,
}

pub struct GuardModel {
    pub relation: Relation,
    pub term: GeneralTermModel,
}

impl View for Guard {
    type V = GuardModel;
    open spec fn view(&self) -> GuardModel {
        GuardModel { relation: self.relation, term: self.term@ }
    }
}

#[derive(Debug, PartialEq, Eq, Hash)]
pub struct Comparison {
    pub term: GeneralTerm,
    pub guards: Vec<Guard>,
}

pub struct ComparisonModel {
    pub term: GeneralTermModel,
    pub guards: Seq<GuardModel>,
}

impl View for Comparison {
    type V = ComparisonModel;
    open spec fn view(&self) -> ComparisonModel {
        ComparisonModel { term: self.term@, guards: views(self.guards@) }
    }
}

#[derive(Debug, PartialEq, Eq, Hash)]
pub enum AtomicFormula {
    Truth,
    Falsity,
    Atom(Atom),
    Comparison(Comparison),
}

pub enum AtomicFormulaModel {
    Truth,
    Falsity,
    Atom(AtomModel),
    Comparison(ComparisonModel),
}

impl View for AtomicFormula {
    type V = AtomicFormulaModel;
    open spec fn view(&self) -> AtomicFormulaModel {
        match self {
            AtomicFormula::Truth => AtomicFormulaModel::Truth,
            AtomicFormula::Falsity => AtomicFormulaModel::Falsity,
            AtomicFormula::Atom(a) => AtomicFormulaModel::Atom(a@),
            AtomicFormula::Comparison(c) => AtomicFormulaModel::Comparison(c@),
        }
    }
}

// ---------------------------------------------------------------- formulas

#[derive(Debug, PartialEq, Eq, Hash)]
pub struct Quantification {
    pub quantifier: Quantifier,
    pub variables: Vec<Variable>,
}

pub struct QuantificationModel {
    pub quantifier: Quantifier,
    pub variables: Seq<VariableModel>,
}

impl View for Quantification {
    type V = QuantificationModel;
    open spec fn view(&self) -> QuantificationModel {
        QuantificationModel { quantifier: self.quantifier, variables: views(self.variables@) }
    }
}

#[derive(Debug, PartialEq, Eq, Hash)]
pub enum Formula {
    AtomicFormula(AtomicFormula),
    UnaryFormula { connective: UnaryConnective, formula: Box<Formula> },
    BinaryFormula { connective: BinaryConnective, lhs: Box<Formula>, rhs: Box<Formula> },
    QuantifiedFormula { quantification: Quantification, formula: Box<Formula> },
}

pub enum FormulaModel {
    AtomicFormula(AtomicFormulaModel),
    UnaryFormula { connective: UnaryConnective, formula: Box<FormulaModel> },
    BinaryFormula { connective: BinaryConnective, lhs: Box<FormulaModel>, rhs: Box<FormulaModel> },
    QuantifiedFormula { quantification: QuantificationModel, formula: Box<FormulaModel> },
}

pub open spec fn formula_model(f: &Formula) -> FormulaModel
    decreases f,
{
    match f {
        Formula::AtomicFormula(a) => FormulaModel::AtomicFormula(a@),
        Formula::UnaryFormula { connective, formula } => FormulaModel::UnaryFormula {
            connective: *connective,
            formula: Box::new(formula_model(&**formula)),
        },
        Formula::BinaryFormula { connective, lhs, rhs } => FormulaModel::BinaryFormula {
            connective: *connective,
            lhs: Box::new(formula_model(&**lhs)),
            rhs: Box::new(formula_model(&**rhs)),
        },
        Formula::QuantifiedFormula { quantification, formula } => FormulaModel::QuantifiedFormula {
            quantification: quantification@,
            formula: Box::new(formula_model(&**formula)),
        },
    }
}

impl View for Formula {
    type V = FormulaModel;
    open spec fn view(&self) -> FormulaModel { formula_model(self) }
}

#[derive(Debug, PartialEq, Eq, Hash)]
pub struct Theory {
    pub formulas: Vec<Formula>,
}

pub struct TheoryModel {
    pub formulas: Seq<FormulaModel>,
}

impl View for Theory {
    type V = TheoryModel;
    open spec fn view(&self) -> TheoryModel {
        TheoryModel { formulas: views(self.formulas@) }
    }
}

#[derive(Debug, PartialEq, Eq, Hash)]
pub struct AnnotatedFormula {
    pub role: Role,
    pub direction: Direction,
    pub name: String,
    pub formula: Formula,
}

pub struct AnnotatedFormulaModel {
    pub role: Role,
    pub direction: Direction,
    pub name: Seq<char>,
    pub formula: FormulaModel,
}

impl View for AnnotatedFormula {
    type V = AnnotatedFormulaModel;
    open spec fn view(&self) -> AnnotatedFormulaModel {
        AnnotatedFormulaModel {
            role: self.role,
            direction: self.direction,
            name: self.name@,
            formula: self.formula@,
        }
    }
}

#[derive(Debug, PartialEq, Eq, Hash)]
pub struct Specification {
    pub formulas: Vec<AnnotatedFormula>,
}

pub struct SpecificationModel {
    pub formulas: Seq<AnnotatedFormulaModel>,
}

impl View for Specification {
    type V = SpecificationModel;
    open spec fn view(&self) -> SpecificationModel {
        SpecificationModel { formulas: views(self.formulas@) }
    }
}

#[derive(Debug, PartialEq, Eq, Hash)]
pub enum UserGuideEntry {
    InputPredicate(Predicate),
    OutputPredicate(Predicate),
    PlaceholderDeclaration(FunctionConstant),
    AnnotatedFormula(AnnotatedFormula),
}

pub enum UserGuideEntryModel {
    InputPredicate(PredicateModel),
    OutputPredicate(PredicateModel),
    PlaceholderDeclaration(FunctionConstantModel),
    AnnotatedFormula(AnnotatedFormulaModel),
}

impl View for UserGuideEntry {
    type V = UserGuideEntryModel;
    open spec fn view(&self) -> UserGuideEntryModel {
        match self {
            UserGuideEntry::InputPredicate(p) => UserGuideEntryModel::InputPredicate(p@),
            UserGuideEntry::OutputPredicate(p) => UserGuideEntryModel::OutputPredicate(p@),
            UserGuideEntry::PlaceholderDeclaration(c) => UserGuideEntryModel::PlaceholderDeclaration(c@),
            UserGuideEntry::AnnotatedFormula(f) => UserGuideEntryModel::AnnotatedFormula(f@),
        }
    }
}

#[derive(Debug, PartialEq, Eq, Hash)]
pub struct UserGuide {
    pub entries: Vec<UserGuideEntry>,
}

pub struct UserGuideModel {
    pub entries: Seq<UserGuideEntryModel>,
}

impl View for UserGuide {
    type V = UserGuideModel;
    open spec fn view(&self) -> UserGuideModel {
        UserGuideModel { entries: views(self.entries@) }
    }
}

// ---------------------------------------------------------------- copies and comparisons

impl Clone for IntegerTerm {
    fn clone(&self) -> (r: Self)
        ensures
            r@ == self@,
        decreases self,
    {
        match self {
            IntegerTerm::Numeral(n) => IntegerTerm::Numeral(*n),
            IntegerTerm::FunctionConstant(c) => IntegerTerm::FunctionConstant(c.clone()),
            IntegerTerm::Variable(v) => IntegerTerm::Variable(v.clone()),
            IntegerTerm::UnaryOperation { op, arg } => IntegerTerm::UnaryOperation {
                op: *op,
                arg: Box::new((**arg).clone()),
            },
            IntegerTerm::BinaryOperation { op, lhs, rhs } => IntegerTerm::BinaryOperation {
                op: *op,
                lhs: Box::new((**lhs).clone()),
                rhs: Box::new((**rhs).clone()),
            },
        }
    }
}

impl ModelEq for IntegerTerm {
    fn same(&self, other: &Self) -> (r: bool)
        decreases self,
    {
        match (self, other) {
            (IntegerTerm::Numeral(a), IntegerTerm::Numeral(b)) => *a == *b,
            (IntegerTerm::FunctionConstant(a), IntegerTerm::FunctionConstant(b)) => *a == *b,
            (IntegerTerm::Variable(a), IntegerTerm::Variable(b)) => *a == *b,
            (
                IntegerTerm::UnaryOperation { op: o1, arg: a1 },
                IntegerTerm::UnaryOperation { op: o2, arg: a2 },
            ) => *o1 == *o2 && (**a1).same(&**a2),
            (
                IntegerTerm::BinaryOperation { op: o1, lhs: l1, rhs: r1 },
                IntegerTerm::BinaryOperation { op: o2, lhs: l2, rhs: r2 },
            ) => *o1 == *o2 && (**l1).same(&**l2) && (**r1).same(&**r2),
            _ => false,
        }
    }

    fn duplicate(&self) -> (r: Self) {
        self.clone()
    }
}

impl Clone for SymbolicTerm {
    fn clone(&self) -> (r: Self)
        ensures
            r@ == self@,
    {
        match self {
            SymbolicTerm::Symbol(s) => SymbolicTerm::Symbol(s.clone()),
            SymbolicTerm::FunctionConstant(c) => SymbolicTerm::FunctionConstant(c.clone()),
            SymbolicTerm::Variable(v) => SymbolicTerm::Variable(v.clone()),
        }
    }
}

impl ModelEq for SymbolicTerm {
    fn same(&self, other: &Self) -> (r: bool) {
        match (self, other) {
            (SymbolicTerm::Symbol(a), SymbolicTerm::Symbol(b)) => *a == *b,
            (SymbolicTerm::FunctionConstant(a), SymbolicTerm::FunctionConstant(b)) => *a == *b,
            (SymbolicTerm::Variable(a), SymbolicTerm::Variable(b)) => *a == *b,
            _ => false,
        }
    }

    fn duplicate(&self) -> (r: Self) {
        self.clone()
    }
}

impl Clone for GeneralTerm {
    fn clone(&self) -> (r: Self)
        ensures
            r@ == self@,
    {
        match self {
            GeneralTerm::Infimum => GeneralTerm::Infimum,
            GeneralTerm::Supremum => GeneralTerm::Supremum,
            GeneralTerm::FunctionConstant(c) => GeneralTerm::FunctionConstant(c.clone()),
            GeneralTerm::Variable(v) => GeneralTerm::Variable(v.clone()),
            GeneralTerm::IntegerTerm(t) => GeneralTerm::IntegerTerm(t.clone()),
            GeneralTerm::SymbolicTerm(t) => GeneralTerm::SymbolicTerm(t.clone()),
        }
    }
}

impl ModelEq for GeneralTerm {
    fn same(&self, other: &Self) -> (r: bool) {
        match (self, other) {
            (GeneralTerm::Infimum, GeneralTerm::Infimum) => true,
            (GeneralTerm::Supremum, GeneralTerm::Supremum) => true,
            (GeneralTerm::FunctionConstant(a), GeneralTerm::FunctionConstant(b)) => *a == *b,
            (GeneralTerm::Variable(a), GeneralTerm::Variable(b)) => *a == *b,
            (GeneralTerm::IntegerTerm(a), GeneralTerm::IntegerTerm(b)) => a.same(b),
            (GeneralTerm::SymbolicTerm(a), GeneralTerm::SymbolicTerm(b)) => a.same(b),
            _ => false,
        }
    }

    fn duplicate(&self) -> (r: Self) {
        self.clone()
    }
}

impl Clone for Predicate {
    fn clone(&self) -> (r: Self)
        ensures
            r@ == self@,
    {
        Predicate { symbol: self.symbol.clone(), arity: self.arity }
    }
}

impl ModelEq for Predicate {
    fn same(&self, other: &Self) -> (r: bool) {
        self.symbol == other.symbol && self.arity == other.arity
    }

    fn duplicate(&self) -> (r: Self) {
        self.clone()
    }
}

impl Clone for FunctionConstant {
    fn clone(&self) -> (r: Self)
        ensures
            r@ == self@,
    {
        FunctionConstant { name: self.name.clone(), sort: self.sort }
    }
}

impl ModelEq for FunctionConstant {
    fn same(&self, other: &Self) -> (r: bool) {
        self.name == other.name && self.sort == other.sort
    }

    fn duplicate(&self) -> (r: Self) {
        self.clone()
    }
}

impl Clone for Variable {
    fn clone(&self) -> (r: Self)
        ensures
            r@ == self@,
    {
        Variable { name: self.name.clone(), sort: self.sort }
    }
}

impl ModelEq for Variable {
    fn same(&self, other: &Self) -> (r: bool) {
        self.name == other.name && self.sort == other.sort
    }

    fn duplicate(&self) -> (r: Self) {
        self.clone()
    }
}

/// Whether two vectors hold elements with the same views, in the same order.
pub fn same_elements<T: ModelEq>(a: &Vec<T>, b: &Vec<T>) -> (r: bool)
    ensures
        r == (views(a@) == views(b@)),
{
    if a.len() != b.len() {
        proof {
            if views(a@) == views(b@) {
                assert(views(a@).len() == views(b@).len());
            }
        }
        return false;
    }
    let mut i: usize = 0;
    while i < a.len()
        invariant
            a.len() == b.len(),
            i <= a.len(),
            forall|j: int| 0 <= j < i ==> a@[j]@ == b@[j]@,
        decreases a.len() - i,
    {
        if !a[i].same(&b[i]) {
            proof {
                if views(a@) == views(b@) {
                    assert(views(a@)[i as int] == views(b@)[i as int]);
                }
            }
            return false;
        }
        i += 1;
    }
    assert(views(a@) =~= views(b@));
    true
}

impl Clone for Atom {
    fn clone(&self) -> (r: Self)
        ensures
            r@ == self@,
    {
        Atom {
            predicate_symbol: self.predicate_symbol.clone(),
            terms: crate::convenience::sets::duplicate_all(&self.terms),
        }
    }
}

impl ModelEq for Atom {
    fn same(&self, other: &Self) -> (r: bool) {
        self.predicate_symbol == other.predicate_symbol && same_elements(&self.terms, &other.terms)
    }

    fn duplicate(&self) -> (r: Self) {
        self.clone()
    }
}

impl Clone for Guard {
    fn clone(&self) -> (r: Self)
        ensures
            r@ == self@,
    {
        Guard { relation: self.relation, term: self.term.clone() }
    }
}

impl ModelEq for Guard {
    fn same(&self, other: &Self) -> (r: bool) {
        self.relation == other.relation && self.term.same(&other.term)
    }

    fn duplicate(&self) -> (r: Self) {
        self.clone()
    }
}

impl Clone for Comparison {
    fn clone(&self) -> (r: Self)
        ensures
            r@ == self@,
    {
        Comparison {
            term: self.term.clone(),
            guards: crate::convenience::sets::duplicate_all(&self.guards),
        }
    }
}

impl ModelEq for Comparison {
    fn same(&self, other: &Self) -> (r: bool) {
        self.term.same(&other.term) && same_elements(&self.guards, &other.guards)
    }

    fn duplicate(&self) -> (r: Self) {
        self.clone()
    }
}

impl Clone for AtomicFormula {
    fn clone(&self) -> (r: Self)
        ensures
            r@ == self@,
    {
        match self {
            AtomicFormula::Truth => AtomicFormula::Truth,
            AtomicFormula::Falsity => AtomicFormula::Falsity,
            AtomicFormula::Atom(a) => AtomicFormula::Atom(a.clone()),
            AtomicFormula::Comparison(c) => AtomicFormula::Comparison(c.clone()),
        }
    }
}

impl ModelEq for AtomicFormula {
    fn same(&self, other: &Self) -> (r: bool) {
        match (self, other) {
            (AtomicFormula::Truth, AtomicFormula::Truth) => true,
            (AtomicFormula::Falsity, AtomicFormula::Falsity) => true,
            (AtomicFormula::Atom(a), AtomicFormula::Atom(b)) => a.same(b),
            (AtomicFormula::Comparison(a), AtomicFormula::Comparison(b)) => a.same(b),
            _ => false,
        }
    }

    fn duplicate(&self) -> (r: Self) {
        self.clone()
    }
}

impl Clone for Quantification {
    fn clone(&self) -> (r: Self)
        ensures
            r@ == self@,
    {
        Quantification {
            quantifier: self.quantifier,
            variables: crate::convenience::sets::duplicate_all(&self.variables),
        }
    }
}

impl ModelEq for Quantification {
    fn same(&self, other: &Self) -> (r: bool) {
        self.quantifier == other.quantifier && same_elements(&self.variables, &other.variables)
    }

    fn duplicate(&self) -> (r: Self) {
        self.clone()
    }
}

impl Clone for Formula {
    fn clone(&self) -> (r: Self)
        ensures
            r@ == self@,
        decreases self,
    {
        match self {
            Formula::AtomicFormula(a) => Formula::AtomicFormula(a.clone()),
            Formula::UnaryFormula { connective, formula } => Formula::UnaryFormula {
                connective: *connective,
                formula: Box::new((**formula).clone()),
            },
            Formula::BinaryFormula { connective, lhs, rhs } => Formula::BinaryFormula {
                connective: *connective,
                lhs: Box::new((**lhs).clone()),
                rhs: Box::new((**rhs).clone()),
            },
            Formula::QuantifiedFormula { quantification, formula } => Formula::QuantifiedFormula {
                quantification: quantification.clone(),
                formula: Box::new((**formula).clone()),
            },
        }
    }
}

impl ModelEq for Formula {
    fn same(&self, other: &Self) -> (r: bool)
        decreases self,
    {
        match (self, other) {
            (Formula::AtomicFormula(a), Formula::AtomicFormula(b)) => a.same(b),
            (
                Formula::UnaryFormula { connective: c1, formula: f1 },
                Formula::UnaryFormula { connective: c2, formula: f2 },
            ) => *c1 == *c2 && (**f1).same(&**f2),
            (
                Formula::BinaryFormula { connective: c1, lhs: l1, rhs: r1 },
                Formula::BinaryFormula { connective: c2, lhs: l2, rhs: r2 },
            ) => *c1 == *c2 && (**l1).same(&**l2) && (**r1).same(&**r2),
            (
                Formula::QuantifiedFormula { quantification: q1, formula: f1 },
                Formula::QuantifiedFormula { quantification: q2, formula: f2 },
            ) => q1.same(q2) && (**f1).same(&**f2),
            _ => false,
        }
    }

    fn duplicate(&self) -> (r: Self) {
        self.clone()
    }
}

impl Clone for Theory {
    fn clone(&self) -> (r: Self)
        ensures
            r@ == self@,
    {
        Theory { formulas: crate::convenience::sets::duplicate_all(&self.formulas) }
    }
}

impl Clone for AnnotatedFormula {
    fn clone(&self) -> (r: Self)
        ensures
            r@ == self@,
    {
        AnnotatedFormula {
            role: self.role,
            direction: self.direction,
            name: self.name.clone(),
            formula: self.formula.clone(),
        }
    }
}

impl ModelEq for AnnotatedFormula {
    fn same(&self, other: &Self) -> (r: bool) {
        self.role == other.role && self.direction == other.direction && self.name == other.name
            && self.formula.same(&other.formula)
    }

    fn duplicate(&self) -> (r: Self) {
        self.clone()
    }
}

impl Clone for Specification {
    fn clone(&self) -> (r: Self)
        ensures
            r@ == self@,
    {
        Specification { formulas: crate::convenience::sets::duplicate_all(&self.formulas) }
    }
}

impl Clone for UserGuideEntry {
    fn clone(&self) -> (r: Self)
        ensures
            r@ == self@,
    {
        match self {
            UserGuideEntry::InputPredicate(p) => UserGuideEntry::InputPredicate(p.clone()),
            UserGuideEntry::OutputPredicate(p) => UserGuideEntry::OutputPredicate(p.clone()),
            UserGuideEntry::PlaceholderDeclaration(c) => UserGuideEntry::PlaceholderDeclaration(c.clone()),
            UserGuideEntry::AnnotatedFormula(f) => UserGuideEntry::AnnotatedFormula(f.clone()),
        }
    }
}

impl ModelEq for UserGuideEntry {
    fn same(&self, other: &Self) -> (r: bool) {
        match (self, other) {
            (UserGuideEntry::InputPredicate(a), UserGuideEntry::InputPredicate(b)) => a.same(b),
            (UserGuideEntry::OutputPredicate(a), UserGuideEntry::OutputPredicate(b)) => a.same(b),
            (UserGuideEntry::PlaceholderDeclaration(a), UserGuideEntry::PlaceholderDeclaration(b)) => a.same(b),
            (UserGuideEntry::AnnotatedFormula(a), UserGuideEntry::AnnotatedFormula(b)) => a.same(b),
            _ => false,
        }
    }

    fn duplicate(&self) -> (r: Self) {
        self.clone()
    }
}

impl Clone for UserGuide {
    fn clone(&self) -> (r: Self)
        ensures
            r@ == self@,
    {
        UserGuide { entries: crate::convenience::sets::duplicate_all(&self.entries) }
    }
}

} // verus!
