//! The syntax of answer set programs in the mini-gringo dialect.
//!
//! Every type has a view (its model) in which strings are character
//! sequences and vectors are sequences; the contracts speak of the models.

use crate::convenience::sets::{duplicate_all, views, ModelEq};
use vstd::prelude::*;

verus! {

#[derive(Copy, Clone, Debug, PartialEq, Eq, Hash, Structural)]
pub enum UnaryOperator {
    Negative,
}

#[derive(Copy, Clone, Debug, PartialEq, Eq, Hash, Structural)]
pub enum BinaryOperator {
    Add,
    Subtract,
    Multiply,
    Divide,
    Modulo,
    Interval,
}

#[derive(Copy, Clone, Debug, PartialEq, Eq, Hash, Structural)]
pub enum Sign {
    NoSign,
    Negation,
    DoubleNegation,
}

#[derive(Copy, Clone, Debug, PartialEq, Eq, Hash, Structural)]
pub enum Relation {
    Equal,
    NotEqual,
    Less,
    LessEqual,
    Greater,
    GreaterEqual,
}

impl View for UnaryOperator {
    type V = UnaryOperator;
    open spec fn view(&self) -> UnaryOperator { *self }
}

impl View for BinaryOperator {
    type V = BinaryOperator;
    open spec fn view(&self) -> BinaryOperator { *self }
}

impl View for Sign {
    type V = Sign;
    open spec fn view(&self) -> Sign { *self }
}

impl View for Relation {
    type V = Relation;
    open spec fn view(&self) -> Relation { *self }
}

#[derive(Debug, PartialEq, Eq, Hash)]
pub enum PrecomputedTerm {
    Infimum,
    Numeral(isize),
    Symbol(String),
    Supremum,
}

pub enum PrecomputedTermModel {
    Infimum,
    Numeral(isize),
    Symbol(Seq<char>),
    Supremum,
}

impl View for PrecomputedTerm {
    type V = PrecomputedTermModel;
    open spec fn view(&self) -> PrecomputedTermModel {
        match self {
            PrecomputedTerm::Infimum => PrecomputedTermModel::Infimum,
            PrecomputedTerm::Numeral(n) => PrecomputedTermModel::Numeral(*n),
            PrecomputedTerm::Symbol(s) => PrecomputedTermModel::Symbol(s@),
            PrecomputedTerm::Supremum => PrecomputedTermModel::Supremum,
        }
    }
}

#[derive(Debug, PartialEq, Eq, Hash)]
pub struct Variable(pub String);

pub struct VariableModel(pub Seq<char>);

impl View for Variable {
    type V = VariableModel;
    open spec fn view(&self) -> VariableModel { VariableModel(self.0@) }
}

#[derive(Debug, PartialEq, Eq, Hash)]
pub enum Term {
    PrecomputedTerm(PrecomputedTerm),
    Variable(Variable),
    UnaryOperation { op: UnaryOperator, arg: Box<Term> },
    BinaryOperation { op: BinaryOperator, lhs: Box<Term>, rhs: Box<Term> },
}

pub enum TermModel {
    PrecomputedTerm(PrecomputedTermModel),
    Variable(VariableModel),
    UnaryOperation { op: UnaryOperator, arg: Box<TermModel> },
    BinaryOperation { op: BinaryOperator, lhs: Box<TermModel>, rhs: Box<TermModel> },
}

pub open spec fn term_model(t: &Term) -> TermModel
    decreases t,
{
    match t {
        Term::PrecomputedTerm(c) => TermModel::PrecomputedTerm(c@),
        Term::Variable(v) => TermModel::Variable(v@),
        Term::UnaryOperation { op, arg } => TermModel::UnaryOperation {
            op: *op,
            arg: Box::new(term_model(&**arg)),
        },
        Term::BinaryOperation { op, lhs, rhs } => TermModel::BinaryOperation {
            op: *op,
            lhs: Box::new(term_model(&**lhs)),
            rhs: Box::new(term_model(&**rhs)),
        },
    }
}

impl View for Term {
    type V = TermModel;
    open spec fn view(&self) -> TermModel { term_model(self) }
}

#[derive(Debug, PartialEq, Eq, Hash)]
pub struct Predicate {
    pub symbol: String,
    pub arity: usize,
}

pub struct PredicateModel {
    pub symbol: Seq<char>,
    pub arity: usize,
}

impl View for Predicate {
    type V = PredicateModel;
    open spec fn view(&self) -> PredicateModel {
        PredicateModel { symbol: self.symbol@, arity: self.arity }
    }
}

#[derive(Debug, PartialEq, Eq, Hash)]
pub struct Atom {
    pub predicate_symbol: String,
    pub terms: Vec<Term>,
}

pub struct AtomModel {
    pub predicate_symbol: Seq<char>,
    pub terms: Seq<TermModel>,
}

impl View for Atom {
    type V = AtomModel;
    open spec fn view(&self) -> AtomModel {
        AtomModel { predicate_symbol: self.predicate_symbol@, terms: views(self.terms@) }
    }
}

#[derive(Debug, PartialEq, Eq, Hash)]
pub struct Literal {
    pub sign: Sign,
    pub atom: Atom,
}

pub struct LiteralModel {
    pub sign: Sign,
    pub atom: AtomModel,
}

impl View for Literal {
    type V = LiteralModel;
    open spec fn view(&self) -> LiteralModel { LiteralModel { sign: self.sign, atom: self.atom@ } }
}

#[derive(Debug, PartialEq, Eq, Hash)]
pub struct Comparison {
    pub relation: Relation,
    pub lhs: Term,
    pub rhs: Term,
}

pub struct ComparisonModel {
    pub relation: Relation,
    pub lhs: TermModel,
    pub rhs: TermModel,
}

impl View for Comparison {
    type V = ComparisonModel;
    open spec fn view(&self) -> ComparisonModel {
        ComparisonModel { relation: self.relation, lhs: self.lhs@, rhs: self.rhs@ }
    }
}

#[derive(Debug, PartialEq, Eq, Hash)]
pub enum AtomicFormula {
    Literal(Literal),
    Comparison(Comparison),
}

pub enum AtomicFormulaModel {
    Literal(LiteralModel),
    Comparison(ComparisonModel),
}

impl View for AtomicFormula {
    type V = AtomicFormulaModel;
    open spec fn view(&self) -> AtomicFormulaModel {
        match self {
            AtomicFormula::Literal(l) => AtomicFormulaModel::Literal(l@),
            AtomicFormula::Comparison(c) => AtomicFormulaModel::Comparison(c@),
        }
    }
}

#[derive(Debug, PartialEq, Eq, Hash)]
pub enum Head {
    Basic(Atom),
    Choice(Atom),
    Falsity,
}

pub enum HeadModel {
    Basic(AtomModel),
    Choice(AtomModel),
    Falsity,
}

impl View for Head {
    type V = HeadModel;
    open spec fn view(&self) -> HeadModel {
        match self {
            Head::Basic(a) => HeadModel::Basic(a@),
            Head::Choice(a) => HeadModel::Choice(a@),
            Head::Falsity => HeadModel::Falsity,
        }
    }
}

#[derive(Debug, PartialEq, Eq, Hash)]
pub struct Body {
    pub formulas: Vec<AtomicFormula>,
}

pub struct BodyModel {
    pub formulas: Seq<AtomicFormulaModel>,
}

impl View for Body {
    type V = BodyModel;
    open spec fn view(&self) -> BodyModel { BodyModel { formulas: views(self.formulas@) } }
}

#[derive(Debug, PartialEq, Eq, Hash)]
pub struct Rule {
    pub head: Head,
    pub body: Body,
}

pub struct RuleModel {
    pub head: HeadModel,
    pub body: BodyModel,
}

impl View for Rule {
    type V = RuleModel;
    open spec fn view(&self) -> RuleModel { RuleModel { head: self.head@, body: self.body@ } }
}

#[derive(Debug, PartialEq, Eq, Hash)]
pub struct Program {
    pub rules: Vec<Rule>,
}

pub struct ProgramModel {
    pub rules: Seq<RuleModel>,
}

impl View for Program {
    type V = ProgramModel;
    open spec fn view(&self) -> ProgramModel { ProgramModel { rules: views(self.rules@) } }
}

// ---------------------------------------------------------------- copies and comparisons

impl Clone for PrecomputedTerm {
    fn clone(&self) -> (r: Self)
        ensures
            r@ == self@,
    {
        match self {
            PrecomputedTerm::Infimum => PrecomputedTerm::Infimum,
            PrecomputedTerm::Numeral(n) => PrecomputedTerm::Numeral(*n),
            PrecomputedTerm::Symbol(s) => PrecomputedTerm::Symbol(s.clone()),
            PrecomputedTerm::Supremum => PrecomputedTerm::Supremum,
        }
    }
}

impl Clone for Variable {
    fn clone(&self) -> (r: Self)
        ensures
            r@ == self@,
    {
        Variable(self.0.clone())
    }
}

impl ModelEq for Variable {
    fn same(&self, other: &Self) -> (r: bool) {
        self.0 == other.0
    }

    fn duplicate(&self) -> (r: Self) {
        self.clone()
    }
}

impl Clone for Term {
    fn clone(&self) -> (r: Self)
        ensures
            r@ == self@,
        decreases self,
    {
        match self {
            Term::PrecomputedTerm(c) => Term::PrecomputedTerm(c.clone()),
            Term::Variable(v) => Term::Variable(v.clone()),
            Term::UnaryOperation { op, arg } => Term::UnaryOperation {
                op: *op,
                arg: Box::new((**arg).clone()),
            },
            Term::BinaryOperation { op, lhs, rhs } => Term::BinaryOperation {
                op: *op,
                lhs: Box::new((**lhs).clone()),
                rhs: Box::new((**rhs).clone()),
            },
        }
    }
}

impl ModelEq for Term {
    fn same(&self, other: &Self) -> (r: bool)
        decreases self,
    {
        match (self, other) {
            (Term::PrecomputedTerm(a), Term::PrecomputedTerm(b)) => match (a, b) {
                (PrecomputedTerm::Infimum, PrecomputedTerm::Infimum) => true,
                (PrecomputedTerm::Supremum, PrecomputedTerm::Supremum) => true,
                (PrecomputedTerm::Numeral(x), PrecomputedTerm::Numeral(y)) => *x == *y,
                (PrecomputedTerm::Symbol(x), PrecomputedTerm::Symbol(y)) => *x == *y,
                _ => false,
            },
            (Term::Variable(a), Term::Variable(b)) => a.same(b),
            (Term::UnaryOperation { op: o1, arg: a1 }, Term::UnaryOperation { op: o2, arg: a2 }) =>
                *o1 == *o2 && (**a1).same(&**a2),
            (
                Term::BinaryOperation { op: o1, lhs: l1, rhs: r1 },
                Term::BinaryOperation { op: o2, lhs: l2, rhs: r2 },
            ) => *o1 == *o2 && (**l1).same(&**l2) && (**r1).same(&**r2),
            _ => false,
        }
    }

    fn duplicate(&self) -> (r: Self) {
        self.clone()
    }
}

impl Clone for Predicate {
    fn clone(&self) -> (r: Self)
        ensures
            r@ == self@,
    {
        Predicate { symbol: self.symbol.clone(), arity: self.arity }
    }
}

impl ModelEq for Predicate {
    fn same(&self, other: &Self) -> (r: bool) {
        self.symbol == other.symbol && self.arity == other.arity
    }

    fn duplicate(&self) -> (r: Self) {
        self.clone()
    }
}

impl Clone for Atom {
    fn clone(&self) -> (r: Self)
        ensures
            r@ == self@,
    {
        Atom { predicate_symbol: self.predicate_symbol.clone(), terms: duplicate_all(&self.terms) }
    }
}

impl Clone for Literal {
    fn clone(&self) -> (r: Self)
        ensures
            r@ == self@,
    {
        Literal { sign: self.sign, atom: self.atom.clone() }
    }
}

impl Clone for Comparison {
    fn clone(&self) -> (r: Self)
        ensures
            r@ == self@,
    {
        Comparison { relation: self.relation, lhs: self.lhs.clone(), rhs: self.rhs.clone() }
    }
}

impl Clone for AtomicFormula {
    fn clone(&self) -> (r: Self)
        ensures
            r@ == self@,
    {
        match self {
            AtomicFormula::Literal(l) => AtomicFormula::Literal(l.clone()),
            AtomicFormula::Comparison(c) => AtomicFormula::Comparison(c.clone()),
        }
    }
}

impl ModelEq for AtomicFormula {
    fn same(&self, other: &Self) -> (r: bool) {
        match (self, other) {
            (AtomicFormula::Literal(a), AtomicFormula::Literal(b)) =>
                a.sign == b.sign && a.atom.predicate_symbol == b.atom.predicate_symbol
                    && crate::syntax_tree::fol::same_elements(&a.atom.terms, &b.atom.terms),
            (AtomicFormula::Comparison(a), AtomicFormula::Comparison(b)) =>
                a.relation == b.relation && a.lhs.same(&b.lhs) && a.rhs.same(&b.rhs),
            _ => false,
        }
    }

    fn duplicate(&self) -> (r: Self) {
        self.clone()
    }
}

impl Clone for Head {
    fn clone(&self) -> (r: Self)
        ensures
            r@ == self@,
    {
        match self {
            Head::Basic(a) => Head::Basic(a.clone()),
            Head::Choice(a) => Head::Choice(a.clone()),
            Head::Falsity => Head::Falsity,
        }
    }
}

impl Clone for Body {
    fn clone(&self) -> (r: Self)
        ensures
            r@ == self@,
    {
        Body { formulas: duplicate_all(&self.formulas) }
    }
}

impl Clone for Rule {
    fn clone(&self) -> (r: Self)
        ensures
            r@ == self@,
    {
        Rule { head: self.head.clone(), body: self.body.clone() }
    }
}

impl ModelEq for Rule {
    fn same(&self, other: &Self) -> (r: bool) {
        let heads = match (&self.head, &other.head) {
            (Head::Basic(a), Head::Basic(b)) | (Head::Choice(a), Head::Choice(b)) =>
                a.predicate_symbol == b.predicate_symbol
                    && crate::syntax_tree::fol::same_elements(&a.terms, &b.terms),
            (Head::Falsity, Head::Falsity) => true,
            _ => false,
        };
        heads && crate::syntax_tree::fol::same_elements(&self.body.formulas, &other.body.formulas)
    }

    fn duplicate(&self) -> (r: Self) {
        self.clone()
    }
}

impl Clone for Program {
    fn clone(&self) -> (r: Self)
        ensures
            r@ == self@,
    {
        Program { rules: duplicate_all(&self.rules) }
    }
}

} // verus!
