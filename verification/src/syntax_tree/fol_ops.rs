//! Queries on and transformations of first-order syntax trees.

use crate::convenience::sets::{
    contains, difference, extend, insert, set_difference, set_extend, set_insert, views,
    ModelEq,
};
use crate::convenience::text::{decimal, numbered};
use crate::syntax_tree::fol::{
    AnnotatedFormula, AnnotatedFormulaModel, Atom, AtomModel, AtomicFormula, AtomicFormulaModel,
    BinaryConnective, Comparison, ComparisonModel, Formula, FormulaModel, FunctionConstant,
    FunctionConstantModel, GeneralTerm, GeneralTermModel, Guard, GuardModel, IntegerTerm,
    IntegerTermModel, Predicate, PredicateModel, Quantification, QuantificationModel, Quantifier,
    Sort, Specification, SymbolicTerm, SymbolicTermModel, UserGuide, UserGuideEntry,
    UserGuideEntryModel, UserGuideModel, Variable, VariableModel,
};
use vstd::prelude::*;

verus! {

// ================================================================ models

impl IntegerTermModel {
    /// The integer variables that occur in the term, in order of first occurrence.
    pub open spec fn variables(self) -> Seq<VariableModel>
        decreases self,
    {
        match self {
            IntegerTermModel::Numeral(_) => seq![],
            IntegerTermModel::FunctionConstant(_) => seq![],
            IntegerTermModel::Variable(v) => seq![VariableModel { name: v, sort: Sort::Integer }],
            IntegerTermModel::UnaryOperation { arg, .. } => (*arg).variables(),
            IntegerTermModel::BinaryOperation { lhs, rhs, .. } =>
                set_extend((*lhs).variables(), (*rhs).variables()),
        }
    }

    /// The integer function constants that occur in the term.
    pub open spec fn function_constants(self) -> Seq<FunctionConstantModel>
        decreases self,
    {
        match self {
            IntegerTermModel::FunctionConstant(c) =>
                seq![FunctionConstantModel { name: c, sort: Sort::Integer }],
            IntegerTermModel::Numeral(_) => seq![],
            IntegerTermModel::Variable(_) => seq![],
            IntegerTermModel::UnaryOperation { arg, .. } => (*arg).function_constants(),
            IntegerTermModel::BinaryOperation { lhs, rhs, .. } =>
                set_extend((*lhs).function_constants(), (*rhs).function_constants()),
        }
    }

    /// Replaces every occurrence of the integer variable `var` by `term`.
    pub open spec fn substitute(self, var: VariableModel, term: IntegerTermModel) -> IntegerTermModel
        decreases self,
    {
        match self {
            IntegerTermModel::Variable(s) => if var.name == s && var.sort == Sort::Integer {
                term
            } else {
                self
            },
            IntegerTermModel::Numeral(_) => self,
            IntegerTermModel::FunctionConstant(_) => self,
            IntegerTermModel::UnaryOperation { op, arg } => IntegerTermModel::UnaryOperation {
                op,
                arg: Box::new((*arg).substitute(var, term)),
            },
            IntegerTermModel::BinaryOperation { op, lhs, rhs } => IntegerTermModel::BinaryOperation {
                op,
                lhs: Box::new((*lhs).substitute(var, term)),
                rhs: Box::new((*rhs).substitute(var, term)),
            },
        }
    }
}

impl SymbolicTermModel {
    pub open spec fn variables(self) -> Seq<VariableModel> {
        match self {
            SymbolicTermModel::Variable(v) => seq![VariableModel { name: v, sort: Sort::Symbol }],
            _ => seq![],
        }
    }

    pub open spec fn symbols(self) -> Seq<Seq<char>> {
        match self {
            SymbolicTermModel::Symbol(s) => seq![s],
            _ => seq![],
        }
    }

    pub open spec fn function_constants(self) -> Seq<FunctionConstantModel> {
        match self {
            SymbolicTermModel::FunctionConstant(c) =>
                seq![FunctionConstantModel { name: c, sort: Sort::Symbol }],
            _ => seq![],
        }
    }
}

impl GeneralTermModel {
    pub open spec fn variables(self) -> Seq<VariableModel> {
        match self {
            GeneralTermModel::Variable(v) => seq![VariableModel { name: v, sort: Sort::General }],
            GeneralTermModel::IntegerTerm(t) => t.variables(),
            GeneralTermModel::SymbolicTerm(t) => t.variables(),
            _ => seq![],
        }
    }

    pub open spec fn symbols(self) -> Seq<Seq<char>> {
        match self {
            GeneralTermModel::SymbolicTerm(t) => t.symbols(),
            _ => seq![],
        }
    }

    pub open spec fn function_constants(self) -> Seq<FunctionConstantModel> {
        match self {
            GeneralTermModel::FunctionConstant(c) =>
                seq![FunctionConstantModel { name: c, sort: Sort::General }],
            GeneralTermModel::IntegerTerm(t) => t.function_constants(),
            GeneralTermModel::SymbolicTerm(t) => t.function_constants(),
            _ => seq![],
        }
    }

    /// Whether substituting `term` for `var` is defined here: an integer variable
    /// can only be replaced by an integer term.
    pub open spec fn substitutable(self, var: VariableModel, term: GeneralTermModel) -> bool {
        !(self is IntegerTerm && var.sort == Sort::Integer && !(term is IntegerTerm))
    }

    pub open spec fn substitute(self, var: VariableModel, term: GeneralTermModel) -> GeneralTermModel {
        match self {
            GeneralTermModel::Variable(s) => if var.name == s && var.sort == Sort::General {
                term
            } else {
                self
            },
            GeneralTermModel::IntegerTerm(t) => if var.sort == Sort::Integer {
                match term {
                    GeneralTermModel::IntegerTerm(it) => GeneralTermModel::IntegerTerm(t.substitute(var, it)),
                    _ => self,
                }
            } else {
                self
            },
            _ => self,
        }
    }
}

/// The variables of a sequence of terms, collected from left to right.
pub open spec fn terms_variables(ts: Seq<GeneralTermModel>) -> Seq<VariableModel>
    decreases ts.len(),
{
    if ts.len() == 0 {
        seq![]
    } else {
        set_extend(terms_variables(ts.drop_last()), ts.last().variables())
    }
}

pub open spec fn terms_symbols(ts: Seq<GeneralTermModel>) -> Seq<Seq<char>>
    decreases ts.len(),
{
    if ts.len() == 0 {
        seq![]
    } else {
        set_extend(terms_symbols(ts.drop_last()), ts.last().symbols())
    }
}

pub open spec fn terms_function_constants(ts: Seq<GeneralTermModel>) -> Seq<FunctionConstantModel>
    decreases ts.len(),
{
    if ts.len() == 0 {
        seq![]
    } else {
        set_extend(terms_function_constants(ts.drop_last()), ts.last().function_constants())
    }
}

/// Starting from `acc`, the variables of the guards' terms, from left to right.
pub open spec fn guards_variables(acc: Seq<VariableModel>, gs: Seq<GuardModel>) -> Seq<VariableModel>
    decreases gs.len(),
{
    if gs.len() == 0 {
        acc
    } else {
        set_extend(guards_variables(acc, gs.drop_last()), gs.last().term.variables())
    }
}

pub open spec fn guards_symbols(acc: Seq<Seq<char>>, gs: Seq<GuardModel>) -> Seq<Seq<char>>
    decreases gs.len(),
{
    if gs.len() == 0 {
        acc
    } else {
        set_extend(guards_symbols(acc, gs.drop_last()), gs.last().term.symbols())
    }
}

pub open spec fn guards_function_constants(
    acc: Seq<FunctionConstantModel>,
    gs: Seq<GuardModel>,
) -> Seq<FunctionConstantModel>
    decreases gs.len(),
{
    if gs.len() == 0 {
        acc
    } else {
        set_extend(guards_function_constants(acc, gs.drop_last()), gs.last().term.function_constants())
    }
}

/// Substitution applied to each term.
pub open spec fn substitute_terms(ts: Seq<GeneralTermModel>, var: VariableModel, term: GeneralTermModel) -> Seq<GeneralTermModel> {
    ts.map_values(|t: GeneralTermModel| t.substitute(var, term))
}

/// Substitution applied to the term of each guard.
pub open spec fn substitute_guards(gs: Seq<GuardModel>, var: VariableModel, term: GeneralTermModel) -> Seq<GuardModel> {
    gs.map_values(|g: GuardModel| GuardModel { relation: g.relation, term: g.term.substitute(var, term) })
}

impl AtomModel {
    pub open spec fn predicate(self) -> PredicateModel {
        PredicateModel { symbol: self.predicate_symbol, arity: self.terms.len() as usize }
    }

    pub open spec fn substitute(self, var: VariableModel, term: GeneralTermModel) -> AtomModel {
        AtomModel {
            predicate_symbol: self.predicate_symbol,
            terms: substitute_terms(self.terms, var, term),
        }
    }

    pub open spec fn substitutable(self, var: VariableModel, term: GeneralTermModel) -> bool {
        forall|i: int| 0 <= i < self.terms.len() ==> #[trigger] self.terms[i].substitutable(var, term)
    }
}

impl ComparisonModel {
    pub open spec fn substitute(self, var: VariableModel, term: GeneralTermModel) -> ComparisonModel {
        ComparisonModel {
            term: self.term.substitute(var, term),
            guards: substitute_guards(self.guards, var, term),
        }
    }

    pub open spec fn substitutable(self, var: VariableModel, term: GeneralTermModel) -> bool {
        &&& self.term.substitutable(var, term)
        &&& forall|i: int| 0 <= i < self.guards.len() ==> #[trigger] self.guards[i].term.substitutable(var, term)
    }
}

impl AtomicFormulaModel {
    pub open spec fn variables(self) -> Seq<VariableModel> {
        match self {
            AtomicFormulaModel::Atom(a) => terms_variables(a.terms),
            AtomicFormulaModel::Comparison(c) => guards_variables(c.term.variables(), c.guards),
            _ => seq![],
        }
    }

    pub open spec fn predicates(self) -> Seq<PredicateModel> {
        match self {
            AtomicFormulaModel::Atom(a) => seq![a.predicate()],
            _ => seq![],
        }
    }

    pub open spec fn symbols(self) -> Seq<Seq<char>> {
        match self {
            AtomicFormulaModel::Atom(a) => terms_symbols(a.terms),
            AtomicFormulaModel::Comparison(c) => guards_symbols(c.term.symbols(), c.guards),
            _ => seq![],
        }
    }

    pub open spec fn function_constants(self) -> Seq<FunctionConstantModel> {
        match self {
            AtomicFormulaModel::Atom(a) => terms_function_constants(a.terms),
            AtomicFormulaModel::Comparison(c) =>
                guards_function_constants(c.term.function_constants(), c.guards),
            _ => seq![],
        }
    }

    pub open spec fn substitute(self, var: VariableModel, term: GeneralTermModel) -> AtomicFormulaModel {
        match self {
            AtomicFormulaModel::Atom(a) => AtomicFormulaModel::Atom(a.substitute(var, term)),
            AtomicFormulaModel::Comparison(c) => AtomicFormulaModel::Comparison(c.substitute(var, term)),
            _ => self,
        }
    }

    pub open spec fn substitutable(self, var: VariableModel, term: GeneralTermModel) -> bool {
        match self {
            AtomicFormulaModel::Atom(a) => a.substitutable(var, term),
            AtomicFormulaModel::Comparison(c) => c.substitutable(var, term),
            _ => true,
        }
    }
}

/// The left-nested conjunction of the formulas; the truth for none.
pub open spec fn conjunction_of(fs: Seq<FormulaModel>) -> FormulaModel
    decreases fs.len(),
{
    if fs.len() == 0 {
        FormulaModel::AtomicFormula(AtomicFormulaModel::Truth)
    } else if fs.len() == 1 {
        fs[0]
    } else {
        FormulaModel::BinaryFormula {
            connective: BinaryConnective::Conjunction,
            lhs: Box::new(conjunction_of(fs.drop_last())),
            rhs: Box::new(fs.last()),
        }
    }
}

/// The left-nested disjunction of the formulas; the falsity for none.
pub open spec fn disjunction_of(fs: Seq<FormulaModel>) -> FormulaModel
    decreases fs.len(),
{
    if fs.len() == 0 {
        FormulaModel::AtomicFormula(AtomicFormulaModel::Falsity)
    } else if fs.len() == 1 {
        fs[0]
    } else {
        FormulaModel::BinaryFormula {
            connective: BinaryConnective::Disjunction,
            lhs: Box::new(disjunction_of(fs.drop_last())),
            rhs: Box::new(fs.last()),
        }
    }
}

impl FormulaModel {
    /// All variables that occur in an atomic formula, bound or not.
    pub open spec fn variables(self) -> Seq<VariableModel>
        decreases self,
    {
        match self {
            FormulaModel::AtomicFormula(f) => f.variables(),
            FormulaModel::UnaryFormula { formula, .. } => (*formula).variables(),
            FormulaModel::BinaryFormula { lhs, rhs, .. } =>
                set_extend((*lhs).variables(), (*rhs).variables()),
            FormulaModel::QuantifiedFormula { formula, .. } => (*formula).variables(),
        }
    }

    /// The variables with an occurrence outside the scope of a quantifier that binds them.
    pub open spec fn free_variables(self) -> Seq<VariableModel>
        decreases self,
    {
        match self {
            FormulaModel::AtomicFormula(f) => f.variables(),
            FormulaModel::UnaryFormula { formula, .. } => (*formula).free_variables(),
            FormulaModel::BinaryFormula { lhs, rhs, .. } =>
                set_extend((*lhs).free_variables(), (*rhs).free_variables()),
            FormulaModel::QuantifiedFormula { quantification, formula } =>
                set_difference((*formula).free_variables(), quantification.variables),
        }
    }

    pub open spec fn predicates(self) -> Seq<PredicateModel>
        decreases self,
    {
        match self {
            FormulaModel::AtomicFormula(f) => f.predicates(),
            FormulaModel::UnaryFormula { formula, .. } => (*formula).predicates(),
            FormulaModel::BinaryFormula { lhs, rhs, .. } =>
                set_extend((*lhs).predicates(), (*rhs).predicates()),
            FormulaModel::QuantifiedFormula { formula, .. } => (*formula).predicates(),
        }
    }

    pub open spec fn symbols(self) -> Seq<Seq<char>>
        decreases self,
    {
        match self {
            FormulaModel::AtomicFormula(f) => f.symbols(),
            FormulaModel::UnaryFormula { formula, .. } => (*formula).symbols(),
            FormulaModel::BinaryFormula { lhs, rhs, .. } =>
                set_extend((*lhs).symbols(), (*rhs).symbols()),
            FormulaModel::QuantifiedFormula { formula, .. } => (*formula).symbols(),
        }
    }

    pub open spec fn function_constants(self) -> Seq<FunctionConstantModel>
        decreases self,
    {
        match self {
            FormulaModel::AtomicFormula(f) => f.function_constants(),
            FormulaModel::UnaryFormula { formula, .. } => (*formula).function_constants(),
            FormulaModel::BinaryFormula { lhs, rhs, .. } =>
                set_extend((*lhs).function_constants(), (*rhs).function_constants()),
            FormulaModel::QuantifiedFormula { formula, .. } => (*formula).function_constants(),
        }
    }

    /// Replaces the free occurrences of `var` by `term`.
    pub open spec fn substitute(self, var: VariableModel, term: GeneralTermModel) -> FormulaModel
        decreases self,
    {
        match self {
            FormulaModel::AtomicFormula(f) => FormulaModel::AtomicFormula(f.substitute(var, term)),
            FormulaModel::UnaryFormula { connective, formula } => FormulaModel::UnaryFormula {
                connective,
                formula: Box::new((*formula).substitute(var, term)),
            },
            FormulaModel::BinaryFormula { connective, lhs, rhs } => FormulaModel::BinaryFormula {
                connective,
                lhs: Box::new((*lhs).substitute(var, term)),
                rhs: Box::new((*rhs).substitute(var, term)),
            },
            FormulaModel::QuantifiedFormula { quantification, formula } =>
                if quantification.variables.contains(var) {
                    self
                } else {
                    FormulaModel::QuantifiedFormula {
                        quantification,
                        formula: Box::new((*formula).substitute(var, term)),
                    }
                },
        }
    }

    /// Whether the substitution of `term` for `var` reaches no integer term
    /// while `term` is not an integer term and `var` an integer variable.
    pub open spec fn substitutable(self, var: VariableModel, term: GeneralTermModel) -> bool
        decreases self,
    {
        match self {
            FormulaModel::AtomicFormula(f) => f.substitutable(var, term),
            FormulaModel::UnaryFormula { formula, .. } => (*formula).substitutable(var, term),
            FormulaModel::BinaryFormula { lhs, rhs, .. } =>
                (*lhs).substitutable(var, term) && (*rhs).substitutable(var, term),
            FormulaModel::QuantifiedFormula { quantification, formula } =>
                quantification.variables.contains(var) || (*formula).substitutable(var, term),
        }
    }

    /// Quantifies over `variables`, unless there are none.
    pub open spec fn quantify(self, quantifier: Quantifier, variables: Seq<VariableModel>) -> FormulaModel {
        if variables.len() == 0 {
            self
        } else {
            FormulaModel::QuantifiedFormula {
                quantification: QuantificationModel { quantifier, variables },
                formula: Box::new(self),
            }
        }
    }

    /// The formula universally quantified over its free variables.
    pub open spec fn universal_closure(self) -> FormulaModel {
        self.quantify(Quantifier::Forall, self.free_variables())
    }
}

/// The universal closure of a formula has no free variables.
pub proof fn lemma_universal_closure_closed(f: FormulaModel)
    ensures
        f.universal_closure().free_variables().len() == 0,
{
    if f.free_variables().len() > 0 {
        crate::convenience::sets::lemma_difference_of_contained(f.free_variables(), f.free_variables());
    }
}

/// An integer term can be substituted for any variable anywhere.
pub proof fn lemma_integer_term_substitutable(f: FormulaModel, var: VariableModel, term: GeneralTermModel)
    requires
        term is IntegerTerm,
    ensures
        f.substitutable(var, term),
    decreases f,
{
    match f {
        FormulaModel::UnaryFormula { formula, .. } => lemma_integer_term_substitutable(*formula, var, term),
        FormulaModel::BinaryFormula { lhs, rhs, .. } => {
            lemma_integer_term_substitutable(*lhs, var, term);
            lemma_integer_term_substitutable(*rhs, var, term);
        },
        FormulaModel::QuantifiedFormula { formula, .. } => lemma_integer_term_substitutable(*formula, var, term),
        _ => {},
    }
}

impl PredicateModel {
    /// The atom of this predicate over the general variables `X1`, ..., `Xn`.
    pub open spec fn to_formula(self) -> FormulaModel {
        FormulaModel::AtomicFormula(AtomicFormulaModel::Atom(AtomModel {
            predicate_symbol: self.symbol,
            terms: Seq::new(
                self.arity as nat,
                |i: int| GeneralTermModel::Variable("X"@ + decimal((i + 1) as nat)),
            ),
        }))
    }
}

// ================================================================ terms

impl IntegerTerm {
    pub fn variables(&self) -> (r: Vec<Variable>)
        ensures
            views(r@) == self@.variables(),
        decreases self,
    {
        match self {
            IntegerTerm::Numeral(_) | IntegerTerm::FunctionConstant(_) => Vec::new(),
            IntegerTerm::Variable(v) => {
                let mut r = Vec::new();
                r.push(Variable { name: v.clone(), sort: Sort::Integer });
                assert(views(r@) =~= self@.variables());
                r
            },
            IntegerTerm::UnaryOperation { arg, .. } => (**arg).variables(),
            IntegerTerm::BinaryOperation { lhs, rhs, .. } => {
                let mut vars = (**lhs).variables();
                extend(&mut vars, (**rhs).variables());
                vars
            },
        }
    }

    pub fn function_constants(&self) -> (r: Vec<FunctionConstant>)
        ensures
            views(r@) == self@.function_constants(),
        decreases self,
    {
        match self {
            IntegerTerm::FunctionConstant(c) => {
                let mut r = Vec::new();
                r.push(FunctionConstant { name: c.clone(), sort: Sort::Integer });
                assert(views(r@) =~= self@.function_constants());
                r
            },
            IntegerTerm::Numeral(_) | IntegerTerm::Variable(_) => Vec::new(),
            IntegerTerm::UnaryOperation { arg, .. } => (**arg).function_constants(),
            IntegerTerm::BinaryOperation { lhs, rhs, .. } => {
                let mut constants = (**lhs).function_constants();
                extend(&mut constants, (**rhs).function_constants());
                constants
            },
        }
    }

    /// Replaces every occurrence of the integer variable `var` by `term`.
    pub fn substitute(self, var: Variable, term: IntegerTerm) -> (r: IntegerTerm)
        ensures
            r@ == self@.substitute(var@, term@),
        decreases self,
    {
        match self {
            IntegerTerm::Variable(s) => {
                if var.name == s && var.sort == Sort::Integer {
                    term
                } else {
                    IntegerTerm::Variable(s)
                }
            },
            IntegerTerm::Numeral(n) => IntegerTerm::Numeral(n),
            IntegerTerm::FunctionConstant(c) => IntegerTerm::FunctionConstant(c),
            IntegerTerm::UnaryOperation { op, arg } => IntegerTerm::UnaryOperation {
                op,
                arg: Box::new((*arg).substitute(var, term)),
            },
            IntegerTerm::BinaryOperation { op, lhs, rhs } => IntegerTerm::BinaryOperation {
                op,
                lhs: Box::new((*lhs).substitute(var.clone(), term.clone())),
                rhs: Box::new((*rhs).substitute(var, term)),
            },
        }
    }
}

fn singleton<T: View>(x: T) -> (r: Vec<T>)
    ensures
        views(r@) == seq![x@],
{
    let mut r = Vec::new();
    r.push(x);
    assert(views(r@) =~= seq![x@]);
    r
}

impl SymbolicTerm {
    pub fn variables(&self) -> (r: Vec<Variable>)
        ensures
            views(r@) == self@.variables(),
    {
        match self {
            SymbolicTerm::Variable(v) => singleton(Variable { name: v.clone(), sort: Sort::Symbol }),
            _ => Vec::new(),
        }
    }

    pub fn symbols(&self) -> (r: Vec<String>)
        ensures
            views(r@) == self@.symbols(),
    {
        match self {
            SymbolicTerm::Symbol(s) => singleton(s.clone()),
            _ => Vec::new(),
        }
    }

    pub fn function_constants(&self) -> (r: Vec<FunctionConstant>)
        ensures
            views(r@) == self@.function_constants(),
    {
        match self {
            SymbolicTerm::FunctionConstant(c) => singleton(FunctionConstant { name: c.clone(), sort: Sort::Symbol }),
            _ => Vec::new(),
        }
    }
}

impl GeneralTerm {
    pub fn variables(&self) -> (r: Vec<Variable>)
        ensures
            views(r@) == self@.variables(),
    {
        match self {
            GeneralTerm::Variable(v) => singleton(Variable { name: v.clone(), sort: Sort::General }),
            GeneralTerm::IntegerTerm(t) => t.variables(),
            GeneralTerm::SymbolicTerm(t) => t.variables(),
            _ => Vec::new(),
        }
    }

    pub fn symbols(&self) -> (r: Vec<String>)
        ensures
            views(r@) == self@.symbols(),
    {
        match self {
            GeneralTerm::SymbolicTerm(t) => t.symbols(),
            _ => Vec::new(),
        }
    }

    pub fn function_constants(&self) -> (r: Vec<FunctionConstant>)
        ensures
            views(r@) == self@.function_constants(),
    {
        match self {
            GeneralTerm::FunctionConstant(c) => singleton(FunctionConstant { name: c.clone(), sort: Sort::General }),
            GeneralTerm::IntegerTerm(t) => t.function_constants(),
            GeneralTerm::SymbolicTerm(t) => t.function_constants(),
            _ => Vec::new(),
        }
    }

    /// Replaces the general variable `var` by `term`, or substitutes inside an
    /// integer term when `var` is an integer variable.
    pub fn substitute(self, var: Variable, term: GeneralTerm) -> (r: GeneralTerm)
        requires
            self@.substitutable(var@, term@),
        ensures
            r@ == self@.substitute(var@, term@),
    {
        match self {
            GeneralTerm::Variable(s) => {
                if var.name == s && var.sort == Sort::General {
                    term
                } else {
                    GeneralTerm::Variable(s)
                }
            },
            GeneralTerm::IntegerTerm(t) => {
                if var.sort == Sort::Integer {
                    match term {
                        GeneralTerm::IntegerTerm(it) => GeneralTerm::IntegerTerm(t.substitute(var, it)),
                        _ => GeneralTerm::IntegerTerm(t),
                    }
                } else {
                    GeneralTerm::IntegerTerm(t)
                }
            },
            t => t,
        }
    }
}

// ================================================================ atomic formulas

impl Predicate {
    /// The atom of this predicate over fresh general variables `X1`, ..., `Xn`.
    pub fn to_formula(self) -> (r: Formula)
        ensures
            r@ == self@.to_formula(),
    {
        let mut terms: Vec<GeneralTerm> = Vec::new();
        let mut i: usize = 0;
        while i < self.arity
            invariant
                i <= self.arity,
                views(terms@) =~= Seq::new(
                    i as nat,
                    |k: int| GeneralTermModel::Variable("X"@ + decimal((k + 1) as nat)),
                ),
            decreases self.arity - i,
        {
            let name = numbered("X", i + 1);
            let ghost before = views(terms@);
            terms.push(GeneralTerm::Variable(name));
            assert(views(terms@) =~= before.push(GeneralTermModel::Variable("X"@ + decimal((i + 1) as nat))));
            i += 1;
        }
        Formula::AtomicFormula(AtomicFormula::Atom(Atom { predicate_symbol: self.symbol, terms }))
    }
}

impl Atom {
    pub fn predicate(&self) -> (r: Predicate)
        ensures
            r@ == self@.predicate(),
    {
        Predicate { symbol: self.predicate_symbol.clone(), arity: self.terms.len() }
    }

    pub fn substitute(self, var: Variable, term: GeneralTerm) -> (r: Atom)
        requires
            self@.substitutable(var@, term@),
        ensures
            r@ == self@.substitute(var@, term@),
    {
        let ghost old_terms = views(self.terms@);
        let predicate_symbol = self.predicate_symbol;
        assert forall|k: int| 0 <= k < old_terms.len() implies #[trigger] old_terms[k].substitutable(var@, term@) by {
            assert(self@.terms[k] == old_terms[k]);
        }
        let mut source = self.terms;
        let mut terms: Vec<GeneralTerm> = Vec::new();
        let mut i: usize = 0;
        let n = source.len();
        while i < n
            invariant
                n == old_terms.len(),
                i <= n,
                source.len() == n - i,
                forall|k: int| 0 <= k < source.len() ==> source@[k]@ == old_terms[k + i],
                forall|k: int| 0 <= k < n ==> #[trigger] old_terms[k].substitutable(var@, term@),
                views(terms@) =~= substitute_terms(old_terms.take(i as int), var@, term@),
            decreases n - i,
        {
            let t = source.remove(0);
            assert(t@ == old_terms[i as int]);
            let ghost before = views(terms@);
            terms.push(t.substitute(var.clone(), term.clone()));
            assert(views(terms@) =~= before.push(old_terms[i as int].substitute(var@, term@)));
            assert(substitute_terms(old_terms.take(i as int + 1), var@, term@) =~= substitute_terms(old_terms.take(i as int), var@, term@).push(old_terms[i as int].substitute(var@, term@)));
            i += 1;
        }
        assert(old_terms.take(n as int) =~= old_terms);
        Atom { predicate_symbol, terms }
    }
}

fn guard_symbols(g: &Guard) -> (r: Vec<String>)
    ensures
        views(r@) == g@.term.symbols(),
{
    g.term.symbols()
}

impl Guard {
    pub fn variables(&self) -> (r: Vec<Variable>)
        ensures
            views(r@) == self@.term.variables(),
    {
        self.term.variables()
    }

    pub fn symbols(&self) -> (r: Vec<String>)
        ensures
            views(r@) == self@.term.symbols(),
    {
        guard_symbols(self)
    }

    pub fn function_constants(&self) -> (r: Vec<FunctionConstant>)
        ensures
            views(r@) == self@.term.function_constants(),
    {
        self.term.function_constants()
    }
}

impl Comparison {
    pub fn substitute(self, var: Variable, term: GeneralTerm) -> (r: Comparison)
        requires
            self@.substitutable(var@, term@),
        ensures
            r@ == self@.substitute(var@, term@),
    {
        let ghost old_guards = views(self.guards@);
        let lhs = self.term.substitute(var.clone(), term.clone());
        assert forall|k: int| 0 <= k < old_guards.len() implies #[trigger] old_guards[k].term.substitutable(var@, term@) by {
            assert(self@.guards[k] == old_guards[k]);
        }
        let mut source = self.guards;
        let mut guards: Vec<Guard> = Vec::new();
        let mut i: usize = 0;
        let n = source.len();
        while i < n
            invariant
                n == old_guards.len(),
                i <= n,
                source.len() == n - i,
                forall|k: int| 0 <= k < source.len() ==> source@[k]@ == old_guards[k + i],
                forall|k: int| 0 <= k < n ==> #[trigger] old_guards[k].term.substitutable(var@, term@),
                views(guards@) =~= substitute_guards(old_guards.take(i as int), var@, term@),
            decreases n - i,
        {
            let ghost before = views(guards@);
            let old_guard = source.remove(0);
            assert(old_guard@ == old_guards[i as int]);
            assert(old_guards[i as int].term.substitutable(var@, term@));
            assert(old_guard.term@ == old_guards[i as int].term);
            let new_guard = Guard {
                relation: old_guard.relation,
                term: old_guard.term.substitute(var.clone(), term.clone()),
            };
            guards.push(new_guard);
            let ghost g = old_guards[i as int];
            assert(views(guards@) =~= before.push(GuardModel { relation: g.relation, term: g.term.substitute(var@, term@) }));
            assert(substitute_guards(old_guards.take(i as int + 1), var@, term@) =~= substitute_guards(old_guards.take(i as int), var@, term@).push(GuardModel { relation: g.relation, term: g.term.substitute(var@, term@) }));
            i += 1;
        }
        assert(old_guards.take(n as int) =~= old_guards);
        Comparison { term: lhs, guards }
    }
}

impl AtomicFormula {
    pub fn variables(&self) -> (r: Vec<Variable>)
        ensures
            views(r@) == self@.variables(),
    {
        match self {
            AtomicFormula::Falsity | AtomicFormula::Truth => Vec::new(),
            AtomicFormula::Atom(a) => {
                let mut vars: Vec<Variable> = Vec::new();
                let mut i: usize = 0;
                while i < a.terms.len()
                    invariant
                        i <= a.terms.len(),
                        views(vars@) == terms_variables(views(a.terms@).take(i as int)),
                    decreases a.terms.len() - i,
                {
                    extend(&mut vars, a.terms[i].variables());
                    assert(views(a.terms@).take(i as int + 1).drop_last() =~= views(a.terms@).take(i as int));
                    i += 1;
                }
                assert(views(a.terms@).take(a.terms.len() as int) =~= views(a.terms@));
                vars
            },
            AtomicFormula::Comparison(c) => {
                let mut vars = c.term.variables();
                let mut i: usize = 0;
                while i < c.guards.len()
                    invariant
                        i <= c.guards.len(),
                        views(vars@) == guards_variables(c.term@.variables(), views(c.guards@).take(i as int)),
                    decreases c.guards.len() - i,
                {
                    extend(&mut vars, c.guards[i].variables());
                    assert(views(c.guards@).take(i as int + 1).drop_last() =~= views(c.guards@).take(i as int));
                    i += 1;
                }
                assert(views(c.guards@).take(c.guards.len() as int) =~= views(c.guards@));
                vars
            },
        }
    }

    pub fn predicates(&self) -> (r: Vec<Predicate>)
        ensures
            views(r@) == self@.predicates(),
    {
        match self {
            AtomicFormula::Atom(a) => singleton(a.predicate()),
            _ => Vec::new(),
        }
    }

    pub fn symbols(&self) -> (r: Vec<String>)
        ensures
            views(r@) == self@.symbols(),
    {
        match self {
            AtomicFormula::Falsity | AtomicFormula::Truth => Vec::new(),
            AtomicFormula::Atom(a) => {
                let mut symbols: Vec<String> = Vec::new();
                let mut i: usize = 0;
                while i < a.terms.len()
                    invariant
                        i <= a.terms.len(),
                        views(symbols@) == terms_symbols(views(a.terms@).take(i as int)),
                    decreases a.terms.len() - i,
                {
                    extend(&mut symbols, a.terms[i].symbols());
                    assert(views(a.terms@).take(i as int + 1).drop_last() =~= views(a.terms@).take(i as int));
                    i += 1;
                }
                assert(views(a.terms@).take(a.terms.len() as int) =~= views(a.terms@));
                symbols
            },
            AtomicFormula::Comparison(c) => {
                let mut symbols = c.term.symbols();
                let mut i: usize = 0;
                while i < c.guards.len()
                    invariant
                        i <= c.guards.len(),
                        views(symbols@) == guards_symbols(c.term@.symbols(), views(c.guards@).take(i as int)),
                    decreases c.guards.len() - i,
                {
                    extend(&mut symbols, c.guards[i].symbols());
                    assert(views(c.guards@).take(i as int + 1).drop_last() =~= views(c.guards@).take(i as int));
                    i += 1;
                }
                assert(views(c.guards@).take(c.guards.len() as int) =~= views(c.guards@));
                symbols
            },
        }
    }

    pub fn function_constants(&self) -> (r: Vec<FunctionConstant>)
        ensures
            views(r@) == self@.function_constants(),
    {
        match self {
            AtomicFormula::Falsity | AtomicFormula::Truth => Vec::new(),
            AtomicFormula::Atom(a) => {
                let mut constants: Vec<FunctionConstant> = Vec::new();
                let mut i: usize = 0;
                while i < a.terms.len()
                    invariant
                        i <= a.terms.len(),
                        views(constants@) == terms_function_constants(views(a.terms@).take(i as int)),
                    decreases a.terms.len() - i,
                {
                    extend(&mut constants, a.terms[i].function_constants());
                    assert(views(a.terms@).take(i as int + 1).drop_last() =~= views(a.terms@).take(i as int));
                    i += 1;
                }
                assert(views(a.terms@).take(a.terms.len() as int) =~= views(a.terms@));
                constants
            },
            AtomicFormula::Comparison(c) => {
                let mut constants = c.term.function_constants();
                let mut i: usize = 0;
                while i < c.guards.len()
                    invariant
                        i <= c.guards.len(),
                        views(constants@) == guards_function_constants(
                            c.term@.function_constants(),
                            views(c.guards@).take(i as int),
                        ),
                    decreases c.guards.len() - i,
                {
                    extend(&mut constants, c.guards[i].function_constants());
                    assert(views(c.guards@).take(i as int + 1).drop_last() =~= views(c.guards@).take(i as int));
                    i += 1;
                }
                assert(views(c.guards@).take(c.guards.len() as int) =~= views(c.guards@));
                constants
            },
        }
    }

    pub fn substitute(self, var: Variable, term: GeneralTerm) -> (r: AtomicFormula)
        requires
            self@.substitutable(var@, term@),
        ensures
            r@ == self@.substitute(var@, term@),
    {
        match self {
            AtomicFormula::Atom(a) => AtomicFormula::Atom(a.substitute(var, term)),
            AtomicFormula::Comparison(c) => AtomicFormula::Comparison(c.substitute(var, term)),
            f => f,
        }
    }
}

// ================================================================ formulas

impl Formula {
    /// The left-nested conjunction of `formulas`; the truth for none.
    pub fn conjoin(formulas: Vec<Formula>) -> (r: Formula)
        ensures
            r@ == conjunction_of(views(formulas@)),
    {
        Formula::combine(formulas, BinaryConnective::Conjunction)
    }

    /// The left-nested disjunction of `formulas`; the falsity for none.
    pub fn disjoin(formulas: Vec<Formula>) -> (r: Formula)
        ensures
            r@ == disjunction_of(views(formulas@)),
    {
        Formula::combine(formulas, BinaryConnective::Disjunction)
    }

    fn combine(formulas: Vec<Formula>, connective: BinaryConnective) -> (r: Formula)
        requires
            connective == BinaryConnective::Conjunction || connective == BinaryConnective::Disjunction,
        ensures
            connective == BinaryConnective::Conjunction ==> r@ == conjunction_of(views(formulas@)),
            connective == BinaryConnective::Disjunction ==> r@ == disjunction_of(views(formulas@)),
    {
        let ghost all = views(formulas@);
        let mut rest = formulas;
        let mut acc: Option<Formula> = None;
        let mut i: usize = 0;
        let n = rest.len();
        while i < n
            invariant
                n == all.len(),
                i <= n,
                rest.len() == n - i,
                forall|k: int| 0 <= k < rest.len() ==> rest@[k]@ == all[k + i],
                acc is None <==> i == 0,
                acc matches Some(a) ==> {
                    &&& connective == BinaryConnective::Conjunction ==> a@ == conjunction_of(all.take(i as int))
                    &&& connective == BinaryConnective::Disjunction ==> a@ == disjunction_of(all.take(i as int))
                },
            decreases n - i,
        {
            let f = rest.remove(0);
            assert(f@ == all[i as int]);
            assert(all.take(i as int + 1).drop_last() =~= all.take(i as int));
            acc = match acc {
                None => {
                    assert(all.take(1) =~= seq![all[0]]);
                    Some(f)
                },
                Some(a) => Some(Formula::BinaryFormula { connective, lhs: Box::new(a), rhs: Box::new(f) }),
            };
            i += 1;
        }
        assert(all.take(n as int) =~= all);
        match acc {
            Some(a) => a,
            None => if connective == BinaryConnective::Conjunction {
                Formula::AtomicFormula(AtomicFormula::Truth)
            } else {
                Formula::AtomicFormula(AtomicFormula::Falsity)
            },
        }
    }

    pub fn variables(&self) -> (r: Vec<Variable>)
        ensures
            views(r@) == self@.variables(),
        decreases self,
    {
        match self {
            Formula::AtomicFormula(f) => f.variables(),
            Formula::UnaryFormula { formula, .. } => (**formula).variables(),
            Formula::BinaryFormula { lhs, rhs, .. } => {
                let mut vars = (**lhs).variables();
                extend(&mut vars, (**rhs).variables());
                vars
            },
            Formula::QuantifiedFormula { formula, .. } => (**formula).variables(),
        }
    }

    pub fn free_variables(&self) -> (r: Vec<Variable>)
        ensures
            views(r@) == self@.free_variables(),
        decreases self,
    {
        match self {
            Formula::AtomicFormula(f) => f.variables(),
            Formula::UnaryFormula { formula, .. } => (**formula).free_variables(),
            Formula::BinaryFormula { lhs, rhs, .. } => {
                let mut vars = (**lhs).free_variables();
                extend(&mut vars, (**rhs).free_variables());
                vars
            },
            Formula::QuantifiedFormula { quantification, formula } => {
                let vars = (**formula).free_variables();
                difference(&vars, &quantification.variables)
            },
        }
    }

    pub fn predicates(&self) -> (r: Vec<Predicate>)
        ensures
            views(r@) == self@.predicates(),
        decreases self,
    {
        match self {
            Formula::AtomicFormula(f) => f.predicates(),
            Formula::UnaryFormula { formula, .. } => (**formula).predicates(),
            Formula::BinaryFormula { lhs, rhs, .. } => {
                let mut preds = (**lhs).predicates();
                extend(&mut preds, (**rhs).predicates());
                preds
            },
            Formula::QuantifiedFormula { formula, .. } => (**formula).predicates(),
        }
    }

    pub fn symbols(&self) -> (r: Vec<String>)
        ensures
            views(r@) == self@.symbols(),
        decreases self,
    {
        match self {
            Formula::AtomicFormula(f) => f.symbols(),
            Formula::UnaryFormula { formula, .. } => (**formula).symbols(),
            Formula::BinaryFormula { lhs, rhs, .. } => {
                let mut symbols = (**lhs).symbols();
                extend(&mut symbols, (**rhs).symbols());
                symbols
            },
            Formula::QuantifiedFormula { formula, .. } => (**formula).symbols(),
        }
    }

    pub fn function_constants(&self) -> (r: Vec<FunctionConstant>)
        ensures
            views(r@) == self@.function_constants(),
        decreases self,
    {
        match self {
            Formula::AtomicFormula(f) => f.function_constants(),
            Formula::UnaryFormula { formula, .. } => (**formula).function_constants(),
            Formula::BinaryFormula { lhs, rhs, .. } => {
                let mut constants = (**lhs).function_constants();
                extend(&mut constants, (**rhs).function_constants());
                constants
            },
            Formula::QuantifiedFormula { formula, .. } => (**formula).function_constants(),
        }
    }

    /// Replaces all free occurrences of `var` with `term`.
    pub fn substitute(self, var: Variable, term: GeneralTerm) -> (r: Formula)
        requires
            self@.substitutable(var@, term@),
        ensures
            r@ == self@.substitute(var@, term@),
        decreases self,
    {
        match self {
            Formula::AtomicFormula(f) => Formula::AtomicFormula(f.substitute(var, term)),
            Formula::UnaryFormula { connective, formula } => Formula::UnaryFormula {
                connective,
                formula: Box::new((*formula).substitute(var, term)),
            },
            Formula::BinaryFormula { connective, lhs, rhs } => Formula::BinaryFormula {
                connective,
                lhs: Box::new((*lhs).substitute(var.clone(), term.clone())),
                rhs: Box::new((*rhs).substitute(var, term)),
            },
            Formula::QuantifiedFormula { quantification, formula } => {
                if contains(&quantification.variables, &var) {
                    Formula::QuantifiedFormula { quantification, formula }
                } else {
                    Formula::QuantifiedFormula {
                        quantification,
                        formula: Box::new((*formula).substitute(var, term)),
                    }
                }
            },
        }
    }

    /// Quantifies over `variables`, or returns the formula itself if there are none.
    pub fn quantify(self, quantifier: Quantifier, variables: Vec<Variable>) -> (r: Formula)
        ensures
            r@ == self@.quantify(quantifier, views(variables@)),
    {
        if variables.len() == 0 {
            self
        } else {
            Formula::QuantifiedFormula {
                quantification: Quantification { quantifier, variables },
                formula: Box::new(self),
            }
        }
    }

    /// Universally quantifies over the free variables.
    pub fn universal_closure(self) -> (r: Formula)
        ensures
            r@ == self@.universal_closure(),
    {
        let variables = self.free_variables();
        self.quantify(Quantifier::Forall, variables)
    }
}

impl Specification {
    pub fn empty() -> (r: Self)
        ensures
            r@.formulas.len() == 0,
    {
        Specification { formulas: Vec::new() }
    }
}

impl UserGuideModel {
    /// The declared input predicates, without repetition.
    pub open spec fn input_predicates(self) -> Seq<PredicateModel>
        decreases self.entries.len(),
    {
        if self.entries.len() == 0 {
            seq![]
        } else {
            let before = UserGuideModel { entries: self.entries.drop_last() }.input_predicates();
            match self.entries.last() {
                UserGuideEntryModel::InputPredicate(p) => set_insert(before, p),
                _ => before,
            }
        }
    }

    /// The declared output predicates, without repetition.
    pub open spec fn output_predicates(self) -> Seq<PredicateModel>
        decreases self.entries.len(),
    {
        if self.entries.len() == 0 {
            seq![]
        } else {
            let before = UserGuideModel { entries: self.entries.drop_last() }.output_predicates();
            match self.entries.last() {
                UserGuideEntryModel::OutputPredicate(p) => set_insert(before, p),
                _ => before,
            }
        }
    }

    /// The declared placeholders, without repetition.
    pub open spec fn placeholders(self) -> Seq<FunctionConstantModel>
        decreases self.entries.len(),
    {
        if self.entries.len() == 0 {
            seq![]
        } else {
            let before = UserGuideModel { entries: self.entries.drop_last() }.placeholders();
            match self.entries.last() {
                UserGuideEntryModel::PlaceholderDeclaration(c) => set_insert(before, c),
                _ => before,
            }
        }
    }

    /// The annotated formulas, in order.
    pub open spec fn formulas(self) -> Seq<AnnotatedFormulaModel>
        decreases self.entries.len(),
    {
        if self.entries.len() == 0 {
            seq![]
        } else {
            let before = UserGuideModel { entries: self.entries.drop_last() }.formulas();
            match self.entries.last() {
                UserGuideEntryModel::AnnotatedFormula(f) => before.push(f),
                _ => before,
            }
        }
    }
}

impl UserGuide {
    pub fn input_predicates(&self) -> (r: Vec<Predicate>)
        ensures
            views(r@) == self@.input_predicates(),
    {
        let mut result: Vec<Predicate> = Vec::new();
        let mut i: usize = 0;
        while i < self.entries.len()
            invariant
                i <= self.entries.len(),
                views(result@) == (UserGuideModel { entries: views(self.entries@).take(i as int) }).input_predicates(),
            decreases self.entries.len() - i,
        {
            assert(views(self.entries@).take(i as int + 1).drop_last() =~= views(self.entries@).take(i as int));
            if let UserGuideEntry::InputPredicate(p) = &self.entries[i] {
                insert(&mut result, p.clone());
            }
            i += 1;
        }
        assert(views(self.entries@).take(self.entries.len() as int) =~= views(self.entries@));
        result
    }

    pub fn output_predicates(&self) -> (r: Vec<Predicate>)
        ensures
            views(r@) == self@.output_predicates(),
    {
        let mut result: Vec<Predicate> = Vec::new();
        let mut i: usize = 0;
        while i < self.entries.len()
            invariant
                i <= self.entries.len(),
                views(result@) == (UserGuideModel { entries: views(self.entries@).take(i as int) }).output_predicates(),
            decreases self.entries.len() - i,
        {
            assert(views(self.entries@).take(i as int + 1).drop_last() =~= views(self.entries@).take(i as int));
            if let UserGuideEntry::OutputPredicate(p) = &self.entries[i] {
                insert(&mut result, p.clone());
            }
            i += 1;
        }
        assert(views(self.entries@).take(self.entries.len() as int) =~= views(self.entries@));
        result
    }

    pub fn placeholders(&self) -> (r: Vec<FunctionConstant>)
        ensures
            views(r@) == self@.placeholders(),
    {
        let mut result: Vec<FunctionConstant> = Vec::new();
        let mut i: usize = 0;
        while i < self.entries.len()
            invariant
                i <= self.entries.len(),
                views(result@) == (UserGuideModel { entries: views(self.entries@).take(i as int) }).placeholders(),
            decreases self.entries.len() - i,
        {
            assert(views(self.entries@).take(i as int + 1).drop_last() =~= views(self.entries@).take(i as int));
            if let UserGuideEntry::PlaceholderDeclaration(p) = &self.entries[i] {
                insert(&mut result, p.clone());
            }
            i += 1;
        }
        assert(views(self.entries@).take(self.entries.len() as int) =~= views(self.entries@));
        result
    }

    pub fn formulas(&self) -> (r: Vec<AnnotatedFormula>)
        ensures
            views(r@) == self@.formulas(),
    {
        let mut result: Vec<AnnotatedFormula> = Vec::new();
        let mut i: usize = 0;
        while i < self.entries.len()
            invariant
                i <= self.entries.len(),
                views(result@) == (UserGuideModel { entries: views(self.entries@).take(i as int) }).formulas(),
            decreases self.entries.len() - i,
        {
            assert(views(self.entries@).take(i as int + 1).drop_last() =~= views(self.entries@).take(i as int));
            if let UserGuideEntry::AnnotatedFormula(p) = &self.entries[i] {
                let ghost before = views(result@);
                result.push(p.clone());
                assert(views(result@) =~= before.push(p@));
            }
            i += 1;
        }
        assert(views(self.entries@).take(self.entries.len() as int) =~= views(self.entries@));
        result
    }
}

} // verus!
