//! Queries on answer set programs.

use crate::convenience::sets::{duplicate_all, extend, set_extend, views};
use crate::syntax_tree::asp::{
    Atom, AtomModel, AtomicFormula, AtomicFormulaModel, Body, BodyModel, Comparison,
    ComparisonModel, Head, HeadModel, Literal, LiteralModel, Predicate, PredicateModel, Program,
    ProgramModel, Rule, RuleModel, Sign, Term, TermModel, Variable, VariableModel,
};
use vstd::prelude::*;

verus! {

// ================================================================ models

impl TermModel {
    /// The variables of the term, in order of first occurrence.
    pub open spec fn variables(self) -> Seq<VariableModel>
        decreases self,
    {
        match self {
            TermModel::PrecomputedTerm(_) => seq![],
            TermModel::Variable(v) => seq![v],
            TermModel::UnaryOperation { arg, .. } => (*arg).variables(),
            TermModel::BinaryOperation { lhs, rhs, .. } => set_extend((*lhs).variables(), (*rhs).variables()),
        }
    }
}

/// The names of a sequence of variables.
pub open spec fn names(vs: Seq<VariableModel>) -> Seq<Seq<char>> {
    vs.map_values(|v: VariableModel| v.0)
}

pub open spec fn terms_variables(ts: Seq<TermModel>) -> Seq<VariableModel>
    decreases ts.len(),
{
    if ts.len() == 0 {
        seq![]
    } else {
        set_extend(terms_variables(ts.drop_last()), ts.last().variables())
    }
}

impl AtomModel {
    pub open spec fn predicate(self) -> PredicateModel {
        PredicateModel { symbol: self.predicate_symbol, arity: self.terms.len() as usize }
    }

    pub open spec fn variables(self) -> Seq<VariableModel> {
        terms_variables(self.terms)
    }
}

impl LiteralModel {
    pub open spec fn variables(self) -> Seq<VariableModel> {
        self.atom.variables()
    }

    pub open spec fn predicates(self) -> Seq<PredicateModel> {
        seq![self.atom.predicate()]
    }
}

impl ComparisonModel {
    pub open spec fn variables(self) -> Seq<VariableModel> {
        set_extend(self.lhs.variables(), self.rhs.variables())
    }
}

impl AtomicFormulaModel {
    pub open spec fn variables(self) -> Seq<VariableModel> {
        match self {
            AtomicFormulaModel::Literal(l) => l.variables(),
            AtomicFormulaModel::Comparison(c) => c.variables(),
        }
    }

    pub open spec fn predicates(self) -> Seq<PredicateModel> {
        match self {
            AtomicFormulaModel::Literal(l) => l.predicates(),
            AtomicFormulaModel::Comparison(_) => seq![],
        }
    }

    /// The predicate of a positive literal.
    pub open spec fn positive_predicates(self) -> Seq<PredicateModel> {
        match self {
            AtomicFormulaModel::Literal(l) => if l.sign == Sign::NoSign { l.predicates() } else { seq![] },
            AtomicFormulaModel::Comparison(_) => seq![],
        }
    }
}

impl HeadModel {
    pub open spec fn predicate(self) -> Option<PredicateModel> {
        match self {
            HeadModel::Basic(a) => Some(a.predicate()),
            HeadModel::Choice(a) => Some(a.predicate()),
            HeadModel::Falsity => None,
        }
    }

    pub open spec fn predicates(self) -> Seq<PredicateModel> {
        match self {
            HeadModel::Basic(a) => seq![a.predicate()],
            HeadModel::Choice(a) => seq![a.predicate()],
            HeadModel::Falsity => seq![],
        }
    }

    pub open spec fn terms(self) -> Option<Seq<TermModel>> {
        match self {
            HeadModel::Basic(a) => Some(a.terms),
            HeadModel::Choice(a) => Some(a.terms),
            HeadModel::Falsity => None,
        }
    }

    pub open spec fn arity(self) -> nat {
        match self {
            HeadModel::Basic(a) => a.terms.len(),
            HeadModel::Choice(a) => a.terms.len(),
            HeadModel::Falsity => 0,
        }
    }

    pub open spec fn variables(self) -> Seq<VariableModel> {
        match self {
            HeadModel::Basic(a) => a.variables(),
            HeadModel::Choice(a) => a.variables(),
            HeadModel::Falsity => seq![],
        }
    }
}

pub open spec fn formulas_variables(fs: Seq<AtomicFormulaModel>) -> Seq<VariableModel>
    decreases fs.len(),
{
    if fs.len() == 0 {
        seq![]
    } else {
        set_extend(formulas_variables(fs.drop_last()), fs.last().variables())
    }
}

pub open spec fn formulas_predicates(fs: Seq<AtomicFormulaModel>) -> Seq<PredicateModel>
    decreases fs.len(),
{
    if fs.len() == 0 {
        seq![]
    } else {
        set_extend(formulas_predicates(fs.drop_last()), fs.last().predicates())
    }
}

pub open spec fn formulas_positive_predicates(fs: Seq<AtomicFormulaModel>) -> Seq<PredicateModel>
    decreases fs.len(),
{
    if fs.len() == 0 {
        seq![]
    } else {
        set_extend(formulas_positive_predicates(fs.drop_last()), fs.last().positive_predicates())
    }
}

impl BodyModel {
    pub open spec fn predicates(self) -> Seq<PredicateModel> {
        formulas_predicates(self.formulas)
    }

    pub open spec fn positive_predicates(self) -> Seq<PredicateModel> {
        formulas_positive_predicates(self.formulas)
    }

    pub open spec fn variables(self) -> Seq<VariableModel> {
        formulas_variables(self.formulas)
    }
}

impl RuleModel {
    pub open spec fn variables(self) -> Seq<VariableModel> {
        set_extend(self.head.variables(), self.body.variables())
    }

    pub open spec fn predicates(self) -> Seq<PredicateModel> {
        set_extend(self.body.predicates(), self.head.predicates())
    }

    /// The variables of the body followed by the new ones of the head.
    pub open spec fn variables_body_first(self) -> Seq<VariableModel> {
        set_extend(self.body.variables(), self.head.variables())
    }
}

pub open spec fn rules_variables(rs: Seq<RuleModel>) -> Seq<VariableModel>
    decreases rs.len(),
{
    if rs.len() == 0 {
        seq![]
    } else {
        set_extend(rules_variables(rs.drop_last()), rs.last().variables())
    }
}

pub open spec fn rules_variables_body_first(rs: Seq<RuleModel>) -> Seq<VariableModel>
    decreases rs.len(),
{
    if rs.len() == 0 {
        seq![]
    } else {
        set_extend(rules_variables_body_first(rs.drop_last()), rs.last().variables_body_first())
    }
}

pub open spec fn rules_predicates(rs: Seq<RuleModel>) -> Seq<PredicateModel>
    decreases rs.len(),
{
    if rs.len() == 0 {
        seq![]
    } else {
        set_extend(rules_predicates(rs.drop_last()), rs.last().predicates())
    }
}

pub open spec fn rules_head_predicates(rs: Seq<RuleModel>) -> Seq<PredicateModel>
    decreases rs.len(),
{
    if rs.len() == 0 {
        seq![]
    } else {
        set_extend(rules_head_predicates(rs.drop_last()), rs.last().head.predicates())
    }
}

impl ProgramModel {
    pub open spec fn variables(self) -> Seq<VariableModel> {
        rules_variables(self.rules)
    }

    pub open spec fn predicates(self) -> Seq<PredicateModel> {
        rules_predicates(self.rules)
    }

    pub open spec fn head_predicates(self) -> Seq<PredicateModel> {
        rules_head_predicates(self.rules)
    }
}

// ================================================================ executable queries

fn singleton<T: View>(x: T) -> (r: Vec<T>)
    ensures
        views(r@) == seq![x@],
{
    let mut r = Vec::new();
    r.push(x);
    assert(views(r@) =~= seq![x@]);
    r
}

/// The names of the variables, in the same order.
fn variable_names(vs: Vec<Variable>) -> (r: Vec<String>)
    ensures
        views(r@) == names(views(vs@)),
{
    let ghost all = views(vs@);
    let mut source = vs;
    let mut r: Vec<String> = Vec::new();
    let n = source.len();
    let mut i: usize = 0;
    while i < n
        invariant
            n == all.len(),
            i <= n,
            source.len() == n - i,
            forall|k: int| 0 <= k < source.len() ==> source@[k]@ == all[k + i],
            views(r@) =~= names(all.take(i as int)),
        decreases n - i,
    {
        let v = source.remove(0);
        assert(v@ == all[i as int]);
        let ghost before = views(r@);
        r.push(v.0);
        assert(views(r@) =~= before.push(all[i as int].0));
        assert(names(all.take(i as int + 1)) =~= names(all.take(i as int)).push(all[i as int].0));
        i += 1;
    }
    assert(all.take(n as int) =~= all);
    r
}

impl Term {
    pub fn variables(&self) -> (r: Vec<Variable>)
        ensures
            views(r@) == self@.variables(),
        decreases self,
    {
        match self {
            Term::PrecomputedTerm(_) => Vec::new(),
            Term::Variable(v) => singleton(v.clone()),
            Term::UnaryOperation { arg, .. } => (**arg).variables(),
            Term::BinaryOperation { lhs, rhs, .. } => {
                let mut vars = (**lhs).variables();
                extend(&mut vars, (**rhs).variables());
                vars
            },
        }
    }

    /// The names of the variables of the term.
    pub fn get_variables(&self) -> (r: Vec<String>)
        ensures
            views(r@) == names(self@.variables()),
    {
        variable_names(self.variables())
    }
}

impl Atom {
    pub fn predicate(&self) -> (r: Predicate)
        ensures
            r@ == self@.predicate(),
    {
        Predicate { symbol: self.predicate_symbol.clone(), arity: self.terms.len() }
    }

    pub fn get_predicate_symbol(&self) -> (r: String)
        ensures
            r@ == self@.predicate_symbol,
    {
        self.predicate_symbol.clone()
    }

    pub fn variables(&self) -> (r: Vec<Variable>)
        ensures
            views(r@) == self@.variables(),
    {
        let mut vars: Vec<Variable> = Vec::new();
        let mut i: usize = 0;
        while i < self.terms.len()
            invariant
                i <= self.terms.len(),
                views(vars@) == terms_variables(views(self.terms@).take(i as int)),
            decreases self.terms.len() - i,
        {
            extend(&mut vars, self.terms[i].variables());
            assert(views(self.terms@).take(i as int + 1).drop_last() =~= views(self.terms@).take(i as int));
            i += 1;
        }
        assert(views(self.terms@).take(self.terms.len() as int) =~= views(self.terms@));
        vars
    }

    pub fn get_variables(&self) -> (r: Vec<String>)
        ensures
            views(r@) == names(self@.variables()),
    {
        variable_names(self.variables())
    }
}

impl Literal {
    pub fn variables(&self) -> (r: Vec<Variable>)
        ensures
            views(r@) == self@.variables(),
    {
        self.atom.variables()
    }

    pub fn get_variables(&self) -> (r: Vec<String>)
        ensures
            views(r@) == names(self@.variables()),
    {
        self.atom.get_variables()
    }

    pub fn predicates(&self) -> (r: Vec<Predicate>)
        ensures
            views(r@) == self@.predicates(),
    {
        singleton(self.atom.predicate())
    }
}

impl Comparison {
    pub fn variables(&self) -> (r: Vec<Variable>)
        ensures
            views(r@) == self@.variables(),
    {
        let mut vars = self.lhs.variables();
        extend(&mut vars, self.rhs.variables());
        vars
    }

    pub fn get_variables(&self) -> (r: Vec<String>)
        ensures
            views(r@) == names(self@.variables()),
    {
        variable_names(self.variables())
    }
}

impl AtomicFormula {
    pub fn variables(&self) -> (r: Vec<Variable>)
        ensures
            views(r@) == self@.variables(),
    {
        match self {
            AtomicFormula::Literal(l) => l.variables(),
            AtomicFormula::Comparison(c) => c.variables(),
        }
    }

    pub fn get_variables(&self) -> (r: Vec<String>)
        ensures
            views(r@) == names(self@.variables()),
    {
        variable_names(self.variables())
    }

    pub fn predicates(&self) -> (r: Vec<Predicate>)
        ensures
            views(r@) == self@.predicates(),
    {
        match self {
            AtomicFormula::Literal(l) => l.predicates(),
            AtomicFormula::Comparison(_) => Vec::new(),
        }
    }

    pub fn positive_predicates(&self) -> (r: Vec<Predicate>)
        ensures
            views(r@) == self@.positive_predicates(),
    {
        match self {
            AtomicFormula::Literal(l) => if l.sign == Sign::NoSign { l.predicates() } else { Vec::new() },
            AtomicFormula::Comparison(_) => Vec::new(),
        }
    }
}

impl Head {
    pub fn predicate(&self) -> (r: Option<Predicate>)
        ensures
            r is Some <==> self@.predicate() is Some,
            r matches Some(p) ==> self@.predicate() == Some(p@),
    {
        match self {
            Head::Basic(a) | Head::Choice(a) => Some(a.predicate()),
            Head::Falsity => None,
        }
    }

    pub fn predicates(&self) -> (r: Vec<Predicate>)
        ensures
            views(r@) == self@.predicates(),
    {
        match self {
            Head::Basic(a) | Head::Choice(a) => singleton(a.predicate()),
            Head::Falsity => Vec::new(),
        }
    }

    pub fn terms(&self) -> (r: Option<&Vec<Term>>)
        ensures
            r is Some <==> self@.terms() is Some,
            r matches Some(ts) ==> self@.terms() == Some(views(ts@)),
    {
        match self {
            Head::Basic(a) | Head::Choice(a) => Some(&a.terms),
            Head::Falsity => None,
        }
    }

    pub fn arity(&self) -> (r: usize)
        ensures
            r == self@.arity(),
    {
        match self {
            Head::Basic(a) | Head::Choice(a) => a.terms.len(),
            Head::Falsity => 0,
        }
    }

    /// The predicate symbol of the head atom, if there is one.
    pub fn get_predicate(&self) -> (r: Option<String>)
        ensures
            r is Some <==> self@.predicate() is Some,
            r matches Some(s) ==> s@ == self@.predicate()->0.symbol,
    {
        match self {
            Head::Basic(a) | Head::Choice(a) => Some(a.predicate_symbol.clone()),
            Head::Falsity => None,
        }
    }

    /// A copy of the terms of the head atom, if there is one.
    pub fn get_terms(&self) -> (r: Option<Vec<Term>>)
        ensures
            r is Some <==> self@.terms() is Some,
            r matches Some(ts) ==> self@.terms() == Some(views(ts@)),
    {
        match self {
            Head::Basic(a) | Head::Choice(a) => Some(duplicate_all(&a.terms)),
            Head::Falsity => None,
        }
    }

    pub fn get_arity(&self) -> (r: usize)
        ensures
            r == self@.arity(),
    {
        self.arity()
    }

    pub fn variables(&self) -> (r: Vec<Variable>)
        ensures
            views(r@) == self@.variables(),
    {
        match self {
            Head::Basic(a) | Head::Choice(a) => a.variables(),
            Head::Falsity => Vec::new(),
        }
    }
}

impl Body {
    pub fn predicates(&self) -> (r: Vec<Predicate>)
        ensures
            views(r@) == self@.predicates(),
    {
        let mut preds: Vec<Predicate> = Vec::new();
        let mut i: usize = 0;
        while i < self.formulas.len()
            invariant
                i <= self.formulas.len(),
                views(preds@) == formulas_predicates(views(self.formulas@).take(i as int)),
            decreases self.formulas.len() - i,
        {
            extend(&mut preds, self.formulas[i].predicates());
            assert(views(self.formulas@).take(i as int + 1).drop_last() =~= views(self.formulas@).take(i as int));
            i += 1;
        }
        assert(views(self.formulas@).take(self.formulas.len() as int) =~= views(self.formulas@));
        preds
    }

    /// The predicates of the positive literals.
    pub fn positive_predicates(&self) -> (r: Vec<Predicate>)
        ensures
            views(r@) == self@.positive_predicates(),
    {
        let mut preds: Vec<Predicate> = Vec::new();
        let mut i: usize = 0;
        while i < self.formulas.len()
            invariant
                i <= self.formulas.len(),
                views(preds@) == formulas_positive_predicates(views(self.formulas@).take(i as int)),
            decreases self.formulas.len() - i,
        {
            extend(&mut preds, self.formulas[i].positive_predicates());
            assert(views(self.formulas@).take(i as int + 1).drop_last() =~= views(self.formulas@).take(i as int));
            i += 1;
        }
        assert(views(self.formulas@).take(self.formulas.len() as int) =~= views(self.formulas@));
        preds
    }

    pub fn variables(&self) -> (r: Vec<Variable>)
        ensures
            views(r@) == self@.variables(),
    {
        let mut vars: Vec<Variable> = Vec::new();
        let mut i: usize = 0;
        while i < self.formulas.len()
            invariant
                i <= self.formulas.len(),
                views(vars@) == formulas_variables(views(self.formulas@).take(i as int)),
            decreases self.formulas.len() - i,
        {
            extend(&mut vars, self.formulas[i].variables());
            assert(views(self.formulas@).take(i as int + 1).drop_last() =~= views(self.formulas@).take(i as int));
            i += 1;
        }
        assert(views(self.formulas@).take(self.formulas.len() as int) =~= views(self.formulas@));
        vars
    }
}

impl Rule {
    /// Whether the rule is a fact about a propositional atom.
    pub fn is_propositional_fact(&self) -> (r: bool)
        requires
            !(self@.body.formulas.len() == 0 && self@.head is Falsity),
        ensures
            r == (self@.body.formulas.len() == 0 && self@.head.arity() == 0),
    {
        if self.body.formulas.len() == 0 {
            match &self.head {
                Head::Basic(a) | Head::Choice(a) => a.terms.len() == 0,
                Head::Falsity => false,
            }
        } else {
            false
        }
    }

    pub fn is_constraint(&self) -> (r: bool)
        ensures
            r == (self@.head is Falsity),
    {
        match &self.head {
            Head::Basic(_) | Head::Choice(_) => false,
            Head::Falsity => true,
        }
    }

    pub fn head_symbol(&self) -> (r: Option<Predicate>)
        ensures
            r is Some <==> self@.head.predicate() is Some,
            r matches Some(p) ==> self@.head.predicate() == Some(p@),
    {
        self.head.predicate()
    }

    pub fn get_head_symbol(&self) -> (r: Option<String>)
        ensures
            r is Some <==> self@.head.predicate() is Some,
            r matches Some(s) ==> s@ == self@.head.predicate()->0.symbol,
    {
        self.head.get_predicate()
    }

    pub fn head_variables(&self) -> (r: Vec<Variable>)
        ensures
            views(r@) == self@.head.variables(),
    {
        self.head.variables()
    }

    pub fn body_variables(&self) -> (r: Vec<Variable>)
        ensures
            views(r@) == self@.body.variables(),
    {
        self.body.variables()
    }

    pub fn variables(&self) -> (r: Vec<Variable>)
        ensures
            views(r@) == self@.variables(),
    {
        let mut vars = self.head_variables();
        extend(&mut vars, self.body_variables());
        vars
    }

    pub fn predicates(&self) -> (r: Vec<Predicate>)
        ensures
            views(r@) == self@.predicates(),
    {
        let mut preds = self.body.predicates();
        extend(&mut preds, self.head.predicates());
        preds
    }

    pub fn get_head_variables(&self) -> (r: Vec<String>)
        ensures
            views(r@) == names(self@.head.variables()),
    {
        variable_names(self.head_variables())
    }

    pub fn get_body_variables(&self) -> (r: Vec<String>)
        ensures
            views(r@) == names(self@.body.variables()),
    {
        variable_names(self.body_variables())
    }

    /// The names of the variables of the body, then those of the head.
    pub fn get_variables(&self) -> (r: Vec<String>)
        ensures
            views(r@) == names(self@.variables_body_first()),
    {
        let mut vars = self.body_variables();
        extend(&mut vars, self.head_variables());
        variable_names(vars)
    }
}

impl Program {
    pub fn variables(&self) -> (r: Vec<Variable>)
        ensures
            views(r@) == self@.variables(),
    {
        let mut vars: Vec<Variable> = Vec::new();
        let mut i: usize = 0;
        while i < self.rules.len()
            invariant
                i <= self.rules.len(),
                views(vars@) == rules_variables(views(self.rules@).take(i as int)),
            decreases self.rules.len() - i,
        {
            extend(&mut vars, self.rules[i].variables());
            assert(views(self.rules@).take(i as int + 1).drop_last() =~= views(self.rules@).take(i as int));
            i += 1;
        }
        assert(views(self.rules@).take(self.rules.len() as int) =~= views(self.rules@));
        vars
    }

    /// The names of the variables, rule by rule (body before head).
    pub fn get_variables(&self) -> (r: Vec<String>)
        ensures
            views(r@) == names(rules_variables_body_first(self@.rules)),
    {
        let mut vars: Vec<Variable> = Vec::new();
        let mut i: usize = 0;
        while i < self.rules.len()
            invariant
                i <= self.rules.len(),
                views(vars@) == rules_variables_body_first(views(self.rules@).take(i as int)),
            decreases self.rules.len() - i,
        {
            let mut rule_vars = self.rules[i].body_variables();
            extend(&mut rule_vars, self.rules[i].head_variables());
            extend(&mut vars, rule_vars);
            assert(views(self.rules@).take(i as int + 1).drop_last() =~= views(self.rules@).take(i as int));
            i += 1;
        }
        assert(views(self.rules@).take(self.rules.len() as int) =~= views(self.rules@));
        variable_names(vars)
    }

    pub fn predicates(&self) -> (r: Vec<Predicate>)
        ensures
            views(r@) == self@.predicates(),
    {
        let mut preds: Vec<Predicate> = Vec::new();
        let mut i: usize = 0;
        while i < self.rules.len()
            invariant
                i <= self.rules.len(),
                views(preds@) == rules_predicates(views(self.rules@).take(i as int)),
            decreases self.rules.len() - i,
        {
            extend(&mut preds, self.rules[i].predicates());
            assert(views(self.rules@).take(i as int + 1).drop_last() =~= views(self.rules@).take(i as int));
            i += 1;
        }
        assert(views(self.rules@).take(self.rules.len() as int) =~= views(self.rules@));
        preds
    }

    /// The predicates that occur in rule heads.
    pub fn head_predicates(&self) -> (r: Vec<Predicate>)
        ensures
            views(r@) == self@.head_predicates(),
    {
        let mut preds: Vec<Predicate> = Vec::new();
        let mut i: usize = 0;
        while i < self.rules.len()
            invariant
                i <= self.rules.len(),
                views(preds@) == rules_head_predicates(views(self.rules@).take(i as int)),
            decreases self.rules.len() - i,
        {
            extend(&mut preds, self.rules[i].head.predicates());
            assert(views(self.rules@).take(i as int + 1).drop_last() =~= views(self.rules@).take(i as int));
            i += 1;
        }
        assert(views(self.rules@).take(self.rules.len() as int) =~= views(self.rules@));
        preds
    }
}

} // verus!
