//! Problems for an automated theorem prover: named axioms and conjectures.

use crate::command_line::arguments::Decomposition;
use crate::convenience::sets::{extend, views, set_extend};
use crate::convenience::text::{
    compare_strings, concat, decimal, integer_text, lemma_decimal_digits, lemma_decimal_injective, lemma_lex_less_asymmetric,
    lemma_lex_less_total, lemma_lex_less_transitive, lex_less, numbered,
    push_decimal,
};
use crate::formatting::tptp;
use crate::syntax_tree::fol::{
    Formula, FormulaModel, FunctionConstant, FunctionConstantModel, Predicate, PredicateModel,
    Theory,
};
use vstd::prelude::*;

verus! {

/// A problem name in the style of TPTP: a domain and three digits.
#[derive(Debug, PartialEq, Eq, Hash)]
pub struct ProblemNameTPTP {
    pub domain: String,
    pub number: Vec<i16>,
}

pub struct ProblemNameModel {
    pub domain: Seq<char>,
    pub number: Seq<i16>,
}

impl View for ProblemNameTPTP {
    type V = ProblemNameModel;
    open spec fn view(&self) -> ProblemNameModel {
        ProblemNameModel { domain: self.domain@, number: self.number@ }
    }
}

impl Clone for ProblemNameTPTP {
    fn clone(&self) -> (r: Self)
        ensures
            r@ == self@,
    {
        ProblemNameTPTP { domain: self.domain.clone(), number: self.number.clone() }
    }
}

#[derive(Copy, Clone, Debug, PartialEq, Eq, Hash, Structural)]
pub enum Interpretation {
    Standard,
}

#[derive(Copy, Clone, Debug, PartialEq, Eq, Hash, Structural)]
pub enum Role {
    Axiom,
    Conjecture,
}

/// A formula of a problem with its name and role.
#[derive(Debug, PartialEq, Eq, Hash)]
pub struct AnnotatedFormula {
    pub name: String,
    pub role: Role,
    pub formula: Formula,
}

pub struct AnnotatedFormulaModel {
    pub name: Seq<char>,
    pub role: Role,
    pub formula: FormulaModel,
}

impl View for AnnotatedFormula {
    type V = AnnotatedFormulaModel;
    open spec fn view(&self) -> AnnotatedFormulaModel {
        AnnotatedFormulaModel { name: self.name@, role: self.role, formula: self.formula@ }
    }
}

impl Clone for AnnotatedFormula {
    fn clone(&self) -> (r: Self)
        ensures
            r@ == self@,
    {
        AnnotatedFormula { name: self.name.clone(), role: self.role, formula: self.formula.clone() }
    }
}

#[derive(Debug, PartialEq, Eq, Hash)]
pub struct Problem {
    pub name: ProblemNameTPTP,
    pub interpretation: Interpretation,
    pub formulas: Vec<AnnotatedFormula>,
}

pub struct ProblemModel {
    pub name: ProblemNameModel,
    pub interpretation: Interpretation,
    pub formulas: Seq<AnnotatedFormulaModel>,
}

impl View for Problem {
    type V = ProblemModel;
    open spec fn view(&self) -> ProblemModel {
        ProblemModel { name: self.name@, interpretation: self.interpretation, formulas: views(self.formulas@) }
    }
}

impl Clone for Problem {
    fn clone(&self) -> (r: Self)
        ensures
            r@ == self@,
    {
        Problem {
            name: self.name.clone(),
            interpretation: self.interpretation,
            formulas: crate::convenience::sets::duplicate_all(&self.formulas),
        }
    }
}

impl crate::convenience::sets::ModelEq for AnnotatedFormula {
    fn same(&self, other: &Self) -> (r: bool) {
        self.name == other.name && self.role == other.role && self.formula.same(&other.formula)
    }

    fn duplicate(&self) -> (r: Self) {
        self.clone()
    }
}

// ================================================================ names

/// The name of the `k`-th formula of a problem after its names were made unique.
pub open spec fn unique_formula_name(k: nat, name: Seq<char>) -> Seq<char> {
    "formula_"@ + decimal(k) + "_"@ + name
}

/// The names of two different positions differ, whatever names the formulas had.
pub proof fn lemma_unique_formula_names_differ(k1: nat, name1: Seq<char>, k2: nat, name2: Seq<char>)
    requires
        k1 != k2,
    ensures
        unique_formula_name(k1, name1) != unique_formula_name(k2, name2),
{
    reveal_strlit("formula_");
    reveal_strlit("_");
    let (d1, d2) = (decimal(k1), decimal(k2));
    let (a, b) = (unique_formula_name(k1, name1), unique_formula_name(k2, name2));
    lemma_decimal_digits(k1);
    lemma_decimal_digits(k2);
    if a == b {
        if d1.len() < d2.len() {
            assert(a[8 + d1.len() as int] == '_');
            assert(b[8 + d1.len() as int] == d2[d1.len() as int]);
        } else if d2.len() < d1.len() {
            assert(b[8 + d2.len() as int] == '_');
            assert(a[8 + d2.len() as int] == d1[d2.len() as int]);
        } else {
            assert forall|i: int| 0 <= i < d1.len() implies d1[i] == d2[i] by {
                assert(a[8 + i] == d1[i]);
                assert(b[8 + i] == d2[i]);
            }
            assert(d1 =~= d2);
            lemma_decimal_injective(k1, k2);
        }
    }
}


/// Integer division that rounds towards zero, as machine division does.
pub open spec fn truncated_div(a: int, b: int) -> int {
    if a >= 0 { a / b } else { -((-a) / b) }
}

/// The remainder of the division that rounds towards zero.
pub open spec fn truncated_rem(a: int, b: int) -> int {
    a - b * truncated_div(a, b)
}

/// The number of a name: its three digits read in base ten.
pub open spec fn name_value(name: ProblemNameModel) -> int {
    100 * name.number[0] + 10 * name.number[1] + name.number[2]
}

/// Whether the number of a name can be increased by `counter` within 16-bit arithmetic.
pub open spec fn incrementable(name: ProblemNameModel, counter: nat) -> bool {
    &&& name.number.len() >= 3
    &&& counter <= i16::MAX
    &&& i16::MIN <= 100 * name.number[0] <= i16::MAX
    &&& i16::MIN <= 10 * name.number[1] <= i16::MAX
    &&& i16::MIN <= 100 * name.number[0] + 10 * name.number[1] <= i16::MAX
    &&& i16::MIN <= name_value(name) <= i16::MAX
    &&& i16::MIN <= name_value(name) + counter <= i16::MAX
}

/// The name whose number is the number of `name` increased by `counter`.
pub open spec fn incremented(name: ProblemNameModel, counter: nat) -> ProblemNameModel {
    let n = name_value(name) + counter;
    let r1 = truncated_rem(n, 100);
    ProblemNameModel {
        domain: name.domain,
        number: seq![truncated_div(n, 100) as i16, truncated_div(r1, 10) as i16, truncated_rem(r1, 10) as i16],
    }
}

/// Increasing a name by `counter` increases its number by `counter`.
pub proof fn lemma_incremented_value(name: ProblemNameModel, counter: nat)
    requires
        incrementable(name, counter),
    ensures
        incremented(name, counter).number.len() == 3,
        incremented(name, counter).domain == name.domain,
        name_value(incremented(name, counter)) == name_value(name) + counter,
{
    let n = name_value(name) + counter;
    let d1 = truncated_div(n, 100);
    let r1 = truncated_rem(n, 100);
    let d2 = truncated_div(r1, 10);
    let d3 = truncated_rem(r1, 10);
    if n >= 0 {
        assert(0 <= d1 <= 328);
        assert(0 <= r1 < 100);
        assert(0 <= d2 < 10);
        assert(0 <= d3 < 10);
    } else {
        assert(-328 <= d1 <= 0);
        assert(-100 < r1 <= 0);
        assert(-10 < d2 <= 0);
        assert(-10 < d3 <= 0);
    }
    let m = incremented(name, counter);
    assert(m.number[0] == d1);
    assert(m.number[1] == d2);
    assert(m.number[2] == d3);
    assert(r1 == 10 * d2 + d3);
    assert(n == 100 * d1 + r1);
}

/// Increases the number of a problem name by `counter`.
pub fn increment_problem_name(name: &ProblemNameTPTP, counter: usize) -> (r: ProblemNameTPTP)
    requires
        incrementable(name@, counter as nat),
    ensures
        r@ == incremented(name@, counter as nat),
{
    let counter: i16 = counter as i16;
    let n: i16 = (100 * name.number[0]) + (10 * name.number[1]) + (name.number[2]) + counter;
    let d1: i16 = n / 100;
    let r1: i16 = n % 100;
    let d2: i16 = r1 / 10;
    let d3: i16 = r1 % 10;
    let mut number: Vec<i16> = Vec::new();
    number.push(d1);
    number.push(d2);
    number.push(d3);
    let r = ProblemNameTPTP { domain: name.domain.clone(), number };
    assert(r@.number =~= incremented(name@, counter as nat).number);
    r
}

impl ProblemNameTPTP {
    /// The domain followed by the three digits.
    pub fn to_text(&self) -> (r: String)
        requires
            self@.number.len() >= 3,
        ensures
            r@ == self@.domain + integer_text(self@.number[0] as int) + integer_text(self@.number[1] as int)
                + integer_text(self@.number[2] as int),
    {
        let mut s = self.domain.clone();
        crate::convenience::text::push_integer(&mut s, self.number[0] as isize);
        crate::convenience::text::push_integer(&mut s, self.number[1] as isize);
        crate::convenience::text::push_integer(&mut s, self.number[2] as isize);
        s
    }
}

// ================================================================ problems

/// The name under which a formula enters a problem: `unnamed_formula` for an
/// empty name, the name behind an `f` if it begins with an underscore.
pub open spec fn problem_name_of(name: Seq<char>) -> Seq<char> {
    if name.len() == 0 {
        "unnamed_formula"@
    } else if name[0] == '_' {
        "f"@ + name
    } else {
        name
    }
}

pub open spec fn entered(f: AnnotatedFormulaModel) -> AnnotatedFormulaModel {
    AnnotatedFormulaModel { name: problem_name_of(f.name), ..f }
}

/// The formulas with the given role, in order.
pub open spec fn with_role(fs: Seq<AnnotatedFormulaModel>, role: Role) -> Seq<AnnotatedFormulaModel> {
    fs.filter(|f: AnnotatedFormulaModel| f.role == role)
}

pub open spec fn as_axiom(f: AnnotatedFormulaModel) -> AnnotatedFormulaModel {
    AnnotatedFormulaModel { role: Role::Axiom, ..f }
}

/// The formulas of the `i`-th problem of the independent decomposition.
pub open spec fn independent_formulas(p: ProblemModel, i: int) -> Seq<AnnotatedFormulaModel> {
    with_role(p.formulas, Role::Axiom).push(with_role(p.formulas, Role::Conjecture)[i])
}

/// The formulas of the `i`-th problem of the sequential decomposition: the
/// axioms, the conjectures before the `i`-th as axioms, and the `i`-th.
pub open spec fn sequential_formulas(p: ProblemModel, i: int) -> Seq<AnnotatedFormulaModel> {
    let conjectures = with_role(p.formulas, Role::Conjecture);
    with_role(p.formulas, Role::Axiom)
        + conjectures.take(i).map_values(|f: AnnotatedFormulaModel| as_axiom(f))
        + seq![conjectures[i]]
}

/// A sequence of which no element has the role keeps none of them.
pub(crate) proof fn lemma_none_with_role(fs: Seq<AnnotatedFormulaModel>, role: Role)
    requires
        forall|k: int| 0 <= k < fs.len() ==> (#[trigger] fs[k]).role != role,
    ensures
        with_role(fs, role).len() == 0,
{
    let pred = |f: AnnotatedFormulaModel| f.role == role;
    assert(fs.all(|f: AnnotatedFormulaModel| !pred(f)));
    fs.lemma_all_neg_filter_empty(pred);
}

/// The formulas that `with_role` keeps have the role.
proof fn lemma_with_role_has_role(fs: Seq<AnnotatedFormulaModel>, role: Role)
    ensures
        forall|k: int| 0 <= k < with_role(fs, role).len() ==> (#[trigger] with_role(fs, role)[k]).role == role,
{
    let pred = |f: AnnotatedFormulaModel| f.role == role;
    assert forall|k: int| 0 <= k < with_role(fs, role).len() implies (#[trigger] with_role(fs, role)[k]).role == role by {
        fs.lemma_filter_pred(pred, k);
    }
}

/// Each problem of a decomposition, independent or sequential, has exactly
/// one conjecture: the conjecture of the original problem at its position.
/// Its other formulas are axioms.
pub proof fn lemma_decomposition_conjecture(p: ProblemModel, i: int)
    requires
        0 <= i < with_role(p.formulas, Role::Conjecture).len(),
    ensures
        with_role(independent_formulas(p, i), Role::Conjecture) == seq![with_role(p.formulas, Role::Conjecture)[i]],
        with_role(sequential_formulas(p, i), Role::Conjecture) == seq![with_role(p.formulas, Role::Conjecture)[i]],
{
    let axioms = with_role(p.formulas, Role::Axiom);
    let conjectures = with_role(p.formulas, Role::Conjecture);
    let c = conjectures[i];
    let earlier = conjectures.take(i).map_values(|f: AnnotatedFormulaModel| as_axiom(f));
    let pred = |f: AnnotatedFormulaModel| f.role == Role::Conjecture;
    lemma_with_role_has_role(p.formulas, Role::Axiom);
    lemma_with_role_has_role(p.formulas, Role::Conjecture);
    lemma_none_with_role(axioms, Role::Conjecture);
    assert forall|k: int| 0 <= k < earlier.len() implies (#[trigger] earlier[k]).role != Role::Conjecture by {}
    lemma_none_with_role(earlier, Role::Conjecture);
    assert(c.role == Role::Conjecture);
    reveal(Seq::filter);
    assert(axioms.push(c).drop_last() =~= axioms);
    assert(with_role(axioms, Role::Conjecture) =~= Seq::<AnnotatedFormulaModel>::empty());
    assert(with_role(independent_formulas(p, i), Role::Conjecture) =~= seq![c]);
    let front = axioms + earlier;
    Seq::filter_distributes_over_add(axioms, earlier, pred);
    assert(with_role(earlier, Role::Conjecture) =~= Seq::<AnnotatedFormulaModel>::empty());
    assert(with_role(front, Role::Conjecture) =~= Seq::<AnnotatedFormulaModel>::empty());
    assert(sequential_formulas(p, i) =~= front.push(c));
    assert(front.push(c).drop_last() =~= front);
    assert(with_role(sequential_formulas(p, i), Role::Conjecture) =~= seq![c]);
}

/// The problems into which a problem decomposes, one for each conjecture.
pub open spec fn decomposition(p: ProblemModel, strategy: Decomposition) -> Seq<ProblemModel> {
    Seq::new(with_role(p.formulas, Role::Conjecture).len(), |i: int| ProblemModel {
        name: incremented(p.name, i as nat),
        interpretation: p.interpretation,
        formulas: match strategy {
            Decomposition::Independent => independent_formulas(p, i),
            Decomposition::Sequential => sequential_formulas(p, i),
        },
    })
}

/// Whether the names of all the problems of a decomposition can be formed.
pub open spec fn decomposable(p: ProblemModel) -> bool {
    forall|i: nat| i < with_role(p.formulas, Role::Conjecture).len() ==> incrementable(p.name, i)
}

pub open spec fn formulas_predicates(fs: Seq<AnnotatedFormulaModel>) -> Seq<PredicateModel>
    decreases fs.len(),
{
    if fs.len() == 0 { seq![] } else { set_extend(formulas_predicates(fs.drop_last()), fs.last().formula.predicates()) }
}

pub open spec fn formulas_symbols(fs: Seq<AnnotatedFormulaModel>) -> Seq<Seq<char>>
    decreases fs.len(),
{
    if fs.len() == 0 { seq![] } else { set_extend(formulas_symbols(fs.drop_last()), fs.last().formula.symbols()) }
}

pub open spec fn formulas_function_constants(fs: Seq<AnnotatedFormulaModel>) -> Seq<FunctionConstantModel>
    decreases fs.len(),
{
    if fs.len() == 0 {
        seq![]
    } else {
        set_extend(formulas_function_constants(fs.drop_last()), fs.last().formula.function_constants())
    }
}

fn problem_name(name: String) -> (r: String)
    ensures
        r@ == problem_name_of(name@),
{
    if name.unicode_len() == 0 {
        String::from_str("unnamed_formula")
    } else if name.get_char(0) == '_' {
        concat("f", name.as_str())
    } else {
        name
    }
}

impl AnnotatedFormula {
    pub fn predicates(&self) -> (r: Vec<Predicate>)
        ensures
            views(r@) == self@.formula.predicates(),
    {
        self.formula.predicates()
    }

    pub fn symbols(&self) -> (r: Vec<String>)
        ensures
            views(r@) == self@.formula.symbols(),
    {
        self.formula.symbols()
    }

    pub fn function_constants(&self) -> (r: Vec<FunctionConstant>)
        ensures
            views(r@) == self@.formula.function_constants(),
    {
        self.formula.function_constants()
    }
}

impl Problem {
    /// A problem with the given name and no formulas.
    pub fn with_name(name: ProblemNameTPTP) -> (r: Problem)
        ensures
            r@ == (ProblemModel { name: name@, interpretation: Interpretation::Standard, formulas: seq![] }),
    {
        let r = Problem { name, interpretation: Interpretation::Standard, formulas: Vec::new() };
        assert(views(r.formulas@) =~= Seq::<AnnotatedFormulaModel>::empty());
        r
    }

    /// Adds the formulas in order, naming the unnamed ones `unnamed_formula` and
    /// putting `f` before names that begin with an underscore.
    pub fn add_annotated_formulas(self, annotated_formulas: Vec<AnnotatedFormula>) -> (r: Problem)
        ensures
            r@ == (ProblemModel {
                formulas: self@.formulas + views(annotated_formulas@).map_values(|f: AnnotatedFormulaModel| entered(f)),
                ..self@
            }),
    {
        let mut this = self;
        let ghost start = views(this.formulas@);
        let ghost all = views(annotated_formulas@);
        let mut rest = annotated_formulas;
        let n = rest.len();
        let mut i: usize = 0;
        while i < n
            invariant
                n == all.len(),
                i <= n,
                rest.len() == n - i,
                forall|k: int| 0 <= k < rest.len() ==> #[trigger] rest@[k]@ == all[k + i],
                this.name@ == self@.name,
                this.interpretation == self@.interpretation,
                views(this.formulas@) =~= start + all.take(i as int).map_values(|f: AnnotatedFormulaModel| entered(f)),
            decreases n - i,
        {
            let anf = rest.remove(0);
            assert(anf@ == all[i as int]);
            let ghost before = views(this.formulas@);
            let name = problem_name(anf.name);
            this.formulas.push(AnnotatedFormula { name, role: anf.role, formula: anf.formula });
            assert(views(this.formulas@) =~= before.push(entered(all[i as int])));
            assert(all.take(i as int + 1).map_values(|f: AnnotatedFormulaModel| entered(f))
                =~= all.take(i as int).map_values(|f: AnnotatedFormulaModel| entered(f)).push(entered(all[i as int])));
            i += 1;
        }
        assert(all.take(n as int) =~= all);
        this
    }

    /// Adds the formulas of a theory, each annotated by `annotate` with its position.
    pub fn add_theory<F: Fn(usize, Formula) -> AnnotatedFormula>(self, theory: Theory, annotate: F) -> (r: Problem)
        requires
            forall|i: usize, f: Formula| annotate.requires((i, f)),
        ensures
            r@.name == self@.name,
            r@.interpretation == self@.interpretation,
            r.formulas.len() == self.formulas.len() + theory.formulas.len(),
            forall|k: int| 0 <= k < self.formulas.len() ==> #[trigger] r.formulas@[k] == self.formulas@[k],
            forall|k: int| 0 <= k < theory.formulas.len() ==>
                call_ensures(annotate, (k as usize, theory.formulas@[k]), #[trigger] r.formulas@[self.formulas.len() + k]),
    {
        let mut this = self;
        let ghost fs = theory.formulas@;
        let mut rest = theory.formulas;
        let n = rest.len();
        let m = this.formulas.len();
        let mut i: usize = 0;
        while i < n
            invariant
                n == fs.len(),
                i <= n,
                m == self.formulas.len(),
                rest.len() == n - i,
                forall|k: int| 0 <= k < rest.len() ==> #[trigger] rest@[k] == fs[k + i],
                forall|i: usize, f: Formula| annotate.requires((i, f)),
                this.name@ == self@.name,
                this.interpretation == self@.interpretation,
                this.formulas.len() == m + i,
                forall|k: int| 0 <= k < m ==> #[trigger] this.formulas@[k] == self.formulas@[k],
                forall|k: int| 0 <= k < i ==> call_ensures(annotate, (k as usize, fs[k]), #[trigger] this.formulas@[m + k]),
            decreases n - i,
        {
            let f = rest.remove(0);
            let a = annotate(i, f);
            this.formulas.push(a);
            i += 1;
        }
        this
    }

    /// Gives each formula the name `formula_i_name`, where `i` is its position.
    pub fn create_unique_formula_names(self) -> (r: Problem)
        ensures
            r@.name == self@.name,
            r@.interpretation == self@.interpretation,
            r@.formulas.len() == self@.formulas.len(),
            forall|k: int| 0 <= k < self@.formulas.len() ==> #[trigger] r@.formulas[k] == (AnnotatedFormulaModel {
                name: unique_formula_name(k as nat, self@.formulas[k].name),
                ..self@.formulas[k]
            }),
    {
        let mut this = self;
        let ghost all = views(this.formulas@);
        let mut rest = Vec::new();
        std::mem::swap(&mut rest, &mut this.formulas);
        let n = rest.len();
        let mut i: usize = 0;
        while i < n
            invariant
                n == all.len(),
                i <= n,
                rest.len() == n - i,
                forall|k: int| 0 <= k < rest.len() ==> #[trigger] rest@[k]@ == all[k + i],
                this.name@ == self@.name,
                this.interpretation == self@.interpretation,
                this.formulas.len() == i,
                forall|k: int| 0 <= k < i ==> #[trigger] this.formulas@[k]@ == (AnnotatedFormulaModel {
                    name: "formula_"@ + decimal(k as nat) + "_"@ + all[k].name,
                    ..all[k]
                }),
            decreases n - i,
        {
            let f = rest.remove(0);
            assert(f@ == all[i as int]);
            let prefix = numbered("formula_", i);
            let name = concat(concat(prefix.as_str(), "_").as_str(), f.name.as_str());
            this.formulas.push(AnnotatedFormula { name, role: f.role, formula: f.formula });
            i += 1;
        }
        this
    }

    fn with_role_exec(&self, role: Role) -> (r: Vec<AnnotatedFormula>)
        ensures
            views(r@) == with_role(self@.formulas, role),
    {
        let ghost all = self@.formulas;
        let mut r: Vec<AnnotatedFormula> = Vec::new();
        let mut i: usize = 0;
        assert(all.take(0) =~= Seq::<AnnotatedFormulaModel>::empty());
        while i < self.formulas.len()
            invariant
                i <= self.formulas.len(),
                all == self@.formulas,
                views(r@) =~= with_role(all.take(i as int), role),
            decreases self.formulas.len() - i,
        {
            let ghost before = views(r@);
            assert(all.take(i as int + 1).drop_last() =~= all.take(i as int));
            assert(all[i as int] == self.formulas@[i as int]@);
            reveal_with_fuel(Seq::<_>::filter, 1);
            if self.formulas[i].role == role {
                r.push(self.formulas[i].clone());
                assert(views(r@) =~= before.push(all[i as int]));
            }
            i += 1;
        }
        assert(all.take(self.formulas.len() as int) =~= all);
        r
    }

    /// The axioms, in order.
    pub fn axioms(&self) -> (r: Vec<AnnotatedFormula>)
        ensures
            views(r@) == with_role(self@.formulas, Role::Axiom),
    {
        self.with_role_exec(Role::Axiom)
    }

    /// The conjectures, in order.
    pub fn conjectures(&self) -> (r: Vec<AnnotatedFormula>)
        ensures
            views(r@) == with_role(self@.formulas, Role::Conjecture),
    {
        self.with_role_exec(Role::Conjecture)
    }

    pub fn predicates(&self) -> (r: Vec<Predicate>)
        ensures
            views(r@) == formulas_predicates(self@.formulas),
    {
        let mut r: Vec<Predicate> = Vec::new();
        let mut i: usize = 0;
        assert(views(r@) =~= Seq::<PredicateModel>::empty());
        while i < self.formulas.len()
            invariant
                i <= self.formulas.len(),
                views(r@) == formulas_predicates(self@.formulas.take(i as int)),
            decreases self.formulas.len() - i,
        {
            assert(self@.formulas.take(i as int + 1).drop_last() =~= self@.formulas.take(i as int));
            extend(&mut r, self.formulas[i].predicates());
            i += 1;
        }
        assert(self@.formulas.take(self.formulas.len() as int) =~= self@.formulas);
        r
    }

    pub fn symbols(&self) -> (r: Vec<String>)
        ensures
            views(r@) == formulas_symbols(self@.formulas),
    {
        let mut r: Vec<String> = Vec::new();
        let mut i: usize = 0;
        assert(views(r@) =~= Seq::<Seq<char>>::empty());
        while i < self.formulas.len()
            invariant
                i <= self.formulas.len(),
                views(r@) == formulas_symbols(self@.formulas.take(i as int)),
            decreases self.formulas.len() - i,
        {
            assert(self@.formulas.take(i as int + 1).drop_last() =~= self@.formulas.take(i as int));
            extend(&mut r, self.formulas[i].symbols());
            i += 1;
        }
        assert(self@.formulas.take(self.formulas.len() as int) =~= self@.formulas);
        r
    }

    pub fn function_constants(&self) -> (r: Vec<FunctionConstant>)
        ensures
            views(r@) == formulas_function_constants(self@.formulas),
    {
        let mut r: Vec<FunctionConstant> = Vec::new();
        let mut i: usize = 0;
        assert(views(r@) =~= Seq::<FunctionConstantModel>::empty());
        while i < self.formulas.len()
            invariant
                i <= self.formulas.len(),
                views(r@) == formulas_function_constants(self@.formulas.take(i as int)),
            decreases self.formulas.len() - i,
        {
            assert(self@.formulas.take(i as int + 1).drop_last() =~= self@.formulas.take(i as int));
            extend(&mut r, self.formulas[i].function_constants());
            i += 1;
        }
        assert(self@.formulas.take(self.formulas.len() as int) =~= self@.formulas);
        r
    }

    /// One problem for each conjecture, with all the axioms.
    pub fn decompose_independent(&self) -> (r: Vec<Problem>)
        requires
            decomposable(self@),
        ensures
            r.len() == with_role(self@.formulas, Role::Conjecture).len(),
            forall|i: int| 0 <= i < r.len() ==> #[trigger] r@[i]@ == (ProblemModel {
                name: incremented(self@.name, i as nat),
                interpretation: self@.interpretation,
                formulas: independent_formulas(self@, i),
            }),
    {
        let axioms = self.axioms();
        let conjectures = self.conjectures();
        let ghost cs = views(conjectures@);
        let mut r: Vec<Problem> = Vec::new();
        let mut i: usize = 0;
        while i < conjectures.len()
            invariant
                i <= conjectures.len(),
                cs == views(conjectures@),
                cs == with_role(self@.formulas, Role::Conjecture),
                views(axioms@) == with_role(self@.formulas, Role::Axiom),
                decomposable(self@),
                r.len() == i,
                forall|k: int| 0 <= k < i ==> #[trigger] r@[k]@ == (ProblemModel {
                    name: incremented(self@.name, k as nat),
                    interpretation: self@.interpretation,
                    formulas: independent_formulas(self@, k),
                }),
            decreases conjectures.len() - i,
        {
            let mut formulas = crate::convenience::sets::duplicate_all(&axioms);
            let ghost before = views(formulas@);
            formulas.push(conjectures[i].clone());
            assert(views(formulas@) =~= before.push(cs[i as int]));
            assert(incrementable(self@.name, i as nat));
            r.push(Problem {
                name: increment_problem_name(&self.name, i),
                interpretation: self.interpretation,
                formulas,
            });
            i += 1;
        }
        r
    }

    /// One problem for each conjecture, in which the conjectures before it are axioms.
    pub fn decompose_sequential(&self) -> (r: Vec<Problem>)
        requires
            decomposable(self@),
        ensures
            r.len() == with_role(self@.formulas, Role::Conjecture).len(),
            forall|i: int| 0 <= i < r.len() ==> #[trigger] r@[i]@ == (ProblemModel {
                name: incremented(self@.name, i as nat),
                interpretation: self@.interpretation,
                formulas: sequential_formulas(self@, i),
            }),
    {
        let mut formulas = self.axioms();
        let conjectures = self.conjectures();
        let ghost cs = views(conjectures@);
        let ghost ax = views(formulas@);
        let mut r: Vec<Problem> = Vec::new();
        let mut i: usize = 0;
        while i < conjectures.len()
            invariant
                i <= conjectures.len(),
                cs == views(conjectures@),
                cs == with_role(self@.formulas, Role::Conjecture),
                ax == with_role(self@.formulas, Role::Axiom),
                decomposable(self@),
                i == 0 ==> views(formulas@) == ax,
                i > 0 ==> views(formulas@) == sequential_formulas(self@, i - 1),
                r.len() == i,
                forall|k: int| 0 <= k < i ==> #[trigger] r@[k]@ == (ProblemModel {
                    name: incremented(self@.name, k as nat),
                    interpretation: self@.interpretation,
                    formulas: sequential_formulas(self@, k),
                }),
            decreases conjectures.len() - i,
        {
            let ghost before = views(formulas@);
            let len = formulas.len();
            if len > 0 {
                let mut last = formulas.pop().unwrap();
                last.role = Role::Axiom;
                formulas.push(last);
                assert(views(formulas@) =~= before.update(len - 1, as_axiom(before[len - 1])));
            }
            let ghost middle = views(formulas@);
            formulas.push(conjectures[i].clone());
            assert(views(formulas@) =~= middle.push(cs[i as int]));
            proof {
                let target = sequential_formulas(self@, i as int);
                if i == 0 {
                    assert(cs.take(0).map_values(|f: AnnotatedFormulaModel| as_axiom(f)) =~= Seq::<AnnotatedFormulaModel>::empty());
                    assert(forall|k: int| 0 <= k < ax.len() ==> #[trigger] ax[k].role == Role::Axiom) by {
                        assert forall|k: int| 0 <= k < ax.len() implies #[trigger] ax[k].role == Role::Axiom by {
                            assert(with_role(self@.formulas, Role::Axiom).contains(ax[k]));
                        }
                    }
                    if len > 0 {
                        assert(as_axiom(ax[len - 1]) == ax[len - 1]);
                    }
                    assert(views(formulas@) =~= target);
                } else {
                    assert(cs.take(i as int).map_values(|f: AnnotatedFormulaModel| as_axiom(f))
                        =~= cs.take(i - 1).map_values(|f: AnnotatedFormulaModel| as_axiom(f)).push(as_axiom(cs[i - 1])));
                    assert(views(formulas@) =~= target);
                }
            }
            assert(incrementable(self@.name, i as nat));
            r.push(Problem {
                name: increment_problem_name(&self.name, i),
                interpretation: self.interpretation,
                formulas: crate::convenience::sets::duplicate_all(&formulas),
            });
            i += 1;
        }
        r
    }

    /// The problems of a decomposition.
    pub fn decompose(&self, strategy: Decomposition) -> (r: Vec<Problem>)
        requires
            decomposable(self@),
        ensures
            r.len() == with_role(self@.formulas, Role::Conjecture).len(),
            forall|i: int| 0 <= i < r.len() ==> #[trigger] r@[i]@ == (ProblemModel {
                name: incremented(self@.name, i as nat),
                interpretation: self@.interpretation,
                formulas: match strategy {
                    Decomposition::Independent => independent_formulas(self@, i),
                    Decomposition::Sequential => sequential_formulas(self@, i),
                },
            }),
    {
        match strategy {
            Decomposition::Independent => self.decompose_independent(),
            Decomposition::Sequential => self.decompose_sequential(),
        }
    }
}

// ================================================================ the TPTP text of problems

pub open spec fn role_text(r: Role) -> Seq<char> {
    match r {
        Role::Axiom => "axiom"@,
        Role::Conjecture => "conjecture"@,
    }
}

/// An annotated formula as a typed first-order formula of TPTP.
pub open spec fn annotated_text(a: AnnotatedFormulaModel) -> Seq<char> {
    "tff("@ + a.name + ", "@ + role_text(a.role) + ", "@ + tptp::formula_text(a.formula) + ").\n"@
}

pub open spec fn annotated_formulas_text(fs: Seq<AnnotatedFormulaModel>) -> Seq<char>
    decreases fs.len(),
{
    if fs.len() == 0 { seq![] } else { annotated_formulas_text(fs.drop_last()) + annotated_text(fs.last()) }
}

/// `general * general * ...`, `n` times.
pub open spec fn argument_types(n: nat) -> Seq<char>
    decreases n,
{
    if n == 0 {
        seq![]
    } else if n == 1 {
        "general"@
    } else {
        argument_types((n - 1) as nat) + " * general"@
    }
}

/// The type declaration of the `i`-th predicate: from general arguments to `$o`.
pub open spec fn predicate_declaration(i: nat, p: PredicateModel) -> Seq<char> {
    "tff(predicate_"@ + decimal(i) + ", type, "@ + p.symbol + ": "@
        + (if p.arity > 0 { "("@ + argument_types(p.arity as nat) + ") > $o"@ } else { "$o"@ })
        + ").\n"@
}

pub open spec fn predicate_declarations(ps: Seq<PredicateModel>) -> Seq<char>
    decreases ps.len(),
{
    if ps.len() == 0 {
        seq![]
    } else {
        predicate_declarations(ps.drop_last()) + predicate_declaration((ps.len() - 1) as nat, ps.last())
    }
}

/// The type declaration of the `i`-th symbol.
pub open spec fn symbol_declaration(i: nat, s: Seq<char>) -> Seq<char> {
    "tff(type_symbol_"@ + decimal(i) + ", type, "@ + s + ": symbol).\n"@
}

pub open spec fn symbol_declarations(ss: Seq<Seq<char>>) -> Seq<char>
    decreases ss.len(),
{
    if ss.len() == 0 {
        seq![]
    } else {
        symbol_declarations(ss.drop_last()) + symbol_declaration((ss.len() - 1) as nat, ss.last())
    }
}

/// The type declaration of the `i`-th function constant.
pub open spec fn constant_declaration(i: nat, c: FunctionConstantModel) -> Seq<char> {
    "tff(type_function_constant_"@ + decimal(i) + ", type, "@ + tptp::function_constant_text(c) + ": "@
        + tptp::sort_type(c.sort) + ").\n"@
}

pub open spec fn constant_declarations(cs: Seq<FunctionConstantModel>) -> Seq<char>
    decreases cs.len(),
{
    if cs.len() == 0 {
        seq![]
    } else {
        constant_declarations(cs.drop_last()) + constant_declaration((cs.len() - 1) as nat, cs.last())
    }
}

/// The axiom that orders two symbols.
pub open spec fn order_axiom(i: nat, a: Seq<char>, b: Seq<char>) -> Seq<char> {
    "tff(symbol_order_"@ + decimal(i) + ", axiom, p__less__(f__symbolic__("@ + a + "), f__symbolic__("@ + b
        + "))).\n"@
}

/// An order axiom for each two neighbours.
pub open spec fn order_axioms(ss: Seq<Seq<char>>) -> Seq<char>
    decreases ss.len(),
{
    if ss.len() < 2 {
        seq![]
    } else {
        order_axioms(ss.drop_last()) + order_axiom((ss.len() - 2) as nat, ss[ss.len() - 2], ss.last())
    }
}

/// Inserts `x` into the ordered `s` after the texts that do not come after it.
pub open spec fn insert_text(s: Seq<Seq<char>>, x: Seq<char>) -> Seq<Seq<char>>
    decreases s.len(),
{
    if s.len() == 0 {
        seq![x]
    } else if lex_less(x, s.last()) {
        insert_text(s.drop_last(), x).push(s.last())
    } else {
        s.push(x)
    }
}

/// The texts in ascending lexicographic order.
pub open spec fn sorted_texts(s: Seq<Seq<char>>) -> Seq<Seq<char>>
    decreases s.len(),
{
    if s.len() == 0 { s } else { insert_text(sorted_texts(s.drop_last()), s.last()) }
}

/// Whether no text comes before one at an earlier position.
pub open spec fn ascending(s: Seq<Seq<char>>) -> bool {
    forall|i: int, j: int| 0 <= i < j < s.len() ==> !lex_less(#[trigger] s[j], #[trigger] s[i])
}

proof fn lemma_insert_text(s: Seq<Seq<char>>, x: Seq<char>)
    requires
        ascending(s),
    ensures
        ascending(insert_text(s, x)),
        insert_text(s, x).to_multiset() =~= s.to_multiset().insert(x),
    decreases s.len(),
{
    broadcast use vstd::seq_lib::group_to_multiset_ensures;
    if s.len() == 0 {
        assert(seq![x] =~= Seq::<Seq<char>>::empty().push(x));
    } else if lex_less(x, s.last()) {
        let rest = s.drop_last();
        let last = s.last();
        lemma_insert_text(rest, x);
        let r = insert_text(rest, x);
        assert(s =~= rest.push(last));
        assert forall|i: int| 0 <= i < r.len() implies !lex_less(last, #[trigger] r[i]) by {
            assert(r.to_multiset().count(r[i]) > 0);
            if r[i] == x {
                lemma_lex_less_asymmetric(x, last);
            } else {
                assert(rest.to_multiset().count(r[i]) > 0);
                assert(rest.contains(r[i]));
                let k = choose|k: int| 0 <= k < rest.len() && rest[k] == r[i];
                assert(s[k] == r[i]);
                assert(s[s.len() - 1] == last);
            }
        }
        assert forall|i: int, j: int| 0 <= i < j < r.push(last).len() implies !lex_less(#[trigger] r.push(last)[j], #[trigger] r.push(last)[i]) by {
            if j == r.len() {
                assert(r.push(last)[i] == r[i]);
            } else {
                assert(r.push(last)[i] == r[i]);
                assert(r.push(last)[j] == r[j]);
            }
        }
    } else {
        assert forall|i: int| 0 <= i < s.len() implies !lex_less(x, #[trigger] s[i]) by {
            let last = s.last();
            if lex_less(x, s[i]) {
                if s[i] == last {
                } else {
                    lemma_lex_less_total(s[i], last);
                    assert(s[s.len() - 1] == last);
                    if i < s.len() - 1 {
                        assert(!lex_less(last, s[i]));
                    }
                    lemma_lex_less_transitive(x, s[i], last);
                }
            }
        }
        assert forall|i: int, j: int| 0 <= i < j < s.push(x).len() implies !lex_less(#[trigger] s.push(x)[j], #[trigger] s.push(x)[i]) by {
            assert(s.push(x)[i] == s[i]);
        }
    }
}

/// Sorting puts the texts in ascending order and keeps each of them, as
/// often as it occurs.
pub proof fn lemma_sorted_texts(s: Seq<Seq<char>>)
    ensures
        ascending(sorted_texts(s)),
        sorted_texts(s).to_multiset() =~= s.to_multiset(),
    decreases s.len(),
{
    broadcast use vstd::seq_lib::group_to_multiset_ensures;
    if s.len() > 0 {
        lemma_sorted_texts(s.drop_last());
        lemma_insert_text(sorted_texts(s.drop_last()), s.last());
        assert(s =~= s.drop_last().push(s.last()));
    }
}

/// A problem file: the standard preamble; type declarations of the
/// predicates, symbols and function constants in order of occurrence; the
/// order of the symbols; the formulas.
pub open spec fn problem_text(p: ProblemModel) -> Seq<char> {
    "include('standard_preamble.ax').\n"@
        + predicate_declarations(formulas_predicates(p.formulas))
        + symbol_declarations(formulas_symbols(p.formulas))
        + constant_declarations(formulas_function_constants(p.formulas))
        + order_axioms(sorted_texts(formulas_symbols(p.formulas)))
        + annotated_formulas_text(p.formulas)
}

fn append(out: &mut String, s: &str)
    ensures
        final(out)@ == old(out)@ + s@,
{
    out.append(s);
}

fn write_annotated(out: &mut String, a: &AnnotatedFormula)
    ensures
        final(out)@ == old(out)@ + annotated_text(a@),
{
    append(out, "tff(");
    append(out, a.name.as_str());
    append(out, ", ");
    match a.role {
        Role::Axiom => append(out, "axiom"),
        Role::Conjecture => append(out, "conjecture"),
    }
    append(out, ", ");
    tptp::push_formula(out, &a.formula);
    append(out, ").\n");
    assert(final(out)@ =~= old(out)@ + annotated_text(a@));
}

impl AnnotatedFormula {
    /// The formula as a TPTP statement on a line of its own.
    pub fn to_text(&self) -> (r: String)
        ensures
            r@ == annotated_text(self@),
    {
        let mut out = String::new();
        write_annotated(&mut out, self);
        assert(out@ =~= annotated_text(self@));
        out
    }
}

fn write_argument_types(out: &mut String, n: usize)
    ensures
        final(out)@ == old(out)@ + argument_types(n as nat),
{
    let ghost start = out@;
    let mut i: usize = 0;
    while i < n
        invariant
            i <= n,
            out@ == start + argument_types(i as nat),
        decreases n - i,
    {
        if i == 0 {
            append(out, "general");
        } else {
            append(out, " * general");
        }
        i += 1;
        assert(out@ =~= start + argument_types(i as nat));
    }
    assert(start == old(out)@);
}

fn write_predicate_declaration(out: &mut String, i: usize, p: &Predicate)
    ensures
        final(out)@ == old(out)@ + predicate_declaration(i as nat, p@),
{
    append(out, "tff(predicate_");
    push_decimal(out, i as u128);
    append(out, ", type, ");
    append(out, p.symbol.as_str());
    append(out, ": ");
    let ghost before = out@;
    if p.arity > 0 {
        append(out, "(");
        write_argument_types(out, p.arity);
        append(out, ") > $o");
    } else {
        append(out, "$o");
    }
    assert(out@ =~= before + (if p@.arity > 0 { "("@ + argument_types(p@.arity as nat) + ") > $o"@ } else { "$o"@ }));
    append(out, ").\n");
    assert(final(out)@ =~= old(out)@ + predicate_declaration(i as nat, p@));
}

fn write_symbol_declaration(out: &mut String, i: usize, s: &String)
    ensures
        final(out)@ == old(out)@ + symbol_declaration(i as nat, s@),
{
    append(out, "tff(type_symbol_");
    push_decimal(out, i as u128);
    append(out, ", type, ");
    append(out, s.as_str());
    append(out, ": symbol).\n");
    assert(final(out)@ =~= old(out)@ + symbol_declaration(i as nat, s@));
}

fn write_constant_declaration(out: &mut String, i: usize, c: &FunctionConstant)
    ensures
        final(out)@ == old(out)@ + constant_declaration(i as nat, c@),
{
    append(out, "tff(type_function_constant_");
    push_decimal(out, i as u128);
    append(out, ", type, ");
    tptp::write_function_constant(out, c);
    append(out, ": ");
    tptp::write_sort_type(out, c.sort);
    append(out, ").\n");
    assert(final(out)@ =~= old(out)@ + constant_declaration(i as nat, c@));
}

fn write_order_axiom(out: &mut String, i: usize, a: &String, b: &String)
    ensures
        final(out)@ == old(out)@ + order_axiom(i as nat, a@, b@),
{
    append(out, "tff(symbol_order_");
    push_decimal(out, i as u128);
    append(out, ", axiom, p__less__(f__symbolic__(");
    append(out, a.as_str());
    append(out, "), f__symbolic__(");
    append(out, b.as_str());
    append(out, "))).\n");
    assert(final(out)@ =~= old(out)@ + order_axiom(i as nat, a@, b@));
}

fn insert_text_exec(v: Vec<String>, x: String) -> (r: Vec<String>)
    ensures
        views(r@) == insert_text(views(v@), x@),
    decreases v.len(),
{
    let mut v = v;
    if v.len() == 0 {
        v.push(x);
        assert(views(v@) =~= seq![x@]);
        v
    } else {
        let ghost before = views(v@);
        let last = v.pop().unwrap();
        assert(views(v@) =~= before.drop_last());
        if compare_strings(&x, &last) < 0 {
            let mut r = insert_text_exec(v, x);
            let ghost mid = views(r@);
            r.push(last);
            assert(views(r@) =~= mid.push(before.last()));
            r
        } else {
            v.push(last);
            v.push(x);
            assert(views(v@) =~= before.push(x@));
            v
        }
    }
}

/// The texts in ascending lexicographic order.
pub fn sort_texts(v: Vec<String>) -> (r: Vec<String>)
    ensures
        views(r@) == sorted_texts(views(v@)),
{
    let ghost all = views(v@);
    let mut r: Vec<String> = Vec::new();
    let mut i: usize = 0;
    assert(all.take(0) =~= Seq::<Seq<char>>::empty());
    while i < v.len()
        invariant
            i <= v.len(),
            all == views(v@),
            views(r@) == sorted_texts(all.take(i as int)),
        decreases v.len() - i,
    {
        assert(all.take(i as int + 1).drop_last() =~= all.take(i as int));
        r = insert_text_exec(r, v[i].clone());
        i += 1;
    }
    assert(all.take(v.len() as int) =~= all);
    r
}

fn write_predicate_declarations(out: &mut String, ps: &Vec<Predicate>)
    ensures
        final(out)@ == old(out)@ + predicate_declarations(views(ps@)),
{
    let ghost start = out@;
    let mut i: usize = 0;
    while i < ps.len()
        invariant
            i <= ps.len(),
            out@ == start + predicate_declarations(views(ps@).take(i as int)),
        decreases ps.len() - i,
    {
        assert(views(ps@).take(i as int + 1).drop_last() =~= views(ps@).take(i as int));
        write_predicate_declaration(out, i, &ps[i]);
        assert(out@ =~= start + predicate_declarations(views(ps@).take(i as int + 1)));
        i += 1;
    }
    assert(views(ps@).take(ps.len() as int) =~= views(ps@));
}

fn write_symbol_declarations(out: &mut String, ss: &Vec<String>)
    ensures
        final(out)@ == old(out)@ + symbol_declarations(views(ss@)),
{
    let ghost start = out@;
    let mut i: usize = 0;
    while i < ss.len()
        invariant
            i <= ss.len(),
            out@ == start + symbol_declarations(views(ss@).take(i as int)),
        decreases ss.len() - i,
    {
        assert(views(ss@).take(i as int + 1).drop_last() =~= views(ss@).take(i as int));
        write_symbol_declaration(out, i, &ss[i]);
        assert(out@ =~= start + symbol_declarations(views(ss@).take(i as int + 1)));
        i += 1;
    }
    assert(views(ss@).take(ss.len() as int) =~= views(ss@));
}

fn write_constant_declarations(out: &mut String, cs: &Vec<FunctionConstant>)
    ensures
        final(out)@ == old(out)@ + constant_declarations(views(cs@)),
{
    let ghost start = out@;
    let mut i: usize = 0;
    while i < cs.len()
        invariant
            i <= cs.len(),
            out@ == start + constant_declarations(views(cs@).take(i as int)),
        decreases cs.len() - i,
    {
        assert(views(cs@).take(i as int + 1).drop_last() =~= views(cs@).take(i as int));
        write_constant_declaration(out, i, &cs[i]);
        assert(out@ =~= start + constant_declarations(views(cs@).take(i as int + 1)));
        i += 1;
    }
    assert(views(cs@).take(cs.len() as int) =~= views(cs@));
}

fn write_order_axioms(out: &mut String, ss: &Vec<String>)
    ensures
        final(out)@ == old(out)@ + order_axioms(views(ss@)),
{
    let ghost start = out@;
    let ghost all = views(ss@);
    let mut i: usize = 1;
    if ss.len() < 2 {
        return;
    }
    assert(order_axioms(all.take(1)) =~= Seq::<char>::empty());
    assert(out@ =~= start + order_axioms(all.take(1)));
    while i < ss.len()
        invariant
            1 <= i <= ss.len(),
            all == views(ss@),
            out@ == start + order_axioms(all.take(i as int)),
        decreases ss.len() - i,
    {
        let ghost next = all.take(i as int + 1);
        assert(next.drop_last() =~= all.take(i as int));
        assert(next[next.len() - 2] == all[i - 1]);
        write_order_axiom(out, i - 1, &ss[i - 1], &ss[i]);
        assert(out@ =~= start + order_axioms(next));
        i += 1;
    }
    assert(all.take(ss.len() as int) =~= all);
}

fn write_annotated_formulas(out: &mut String, fs: &Vec<AnnotatedFormula>)
    ensures
        final(out)@ == old(out)@ + annotated_formulas_text(views(fs@)),
{
    let ghost start = out@;
    let mut i: usize = 0;
    while i < fs.len()
        invariant
            i <= fs.len(),
            out@ == start + annotated_formulas_text(views(fs@).take(i as int)),
        decreases fs.len() - i,
    {
        assert(views(fs@).take(i as int + 1).drop_last() =~= views(fs@).take(i as int));
        write_annotated(out, &fs[i]);
        assert(out@ =~= start + annotated_formulas_text(views(fs@).take(i as int + 1)));
        i += 1;
    }
    assert(views(fs@).take(fs.len() as int) =~= views(fs@));
}

impl Problem {
    /// The problem as a TPTP file.
    pub fn to_text(&self) -> (r: String)
        ensures
            r@ == problem_text(self@),
    {
        let mut out = String::new();
        append(&mut out, "include('standard_preamble.ax').\n");
        let predicates = self.predicates();
        write_predicate_declarations(&mut out, &predicates);
        let symbols = self.symbols();
        write_symbol_declarations(&mut out, &symbols);
        let constants = self.function_constants();
        write_constant_declarations(&mut out, &constants);
        let sorted = sort_texts(symbols);
        write_order_axioms(&mut out, &sorted);
        write_annotated_formulas(&mut out, &self.formulas);
        assert(out@ =~= problem_text(self@));
        out
    }
}

} // verus!
