//! The translation tau* of answer set programs into first-order theories.
//!
//! Every step is stated as a spec function over the models of the syntax
//! trees; the executable functions build exactly these formulas.

use crate::convenience::sets::{contains, extend, insert, set_extend, set_from, set_insert, views, ModelEq};
use crate::convenience::text::{all_digits, chars_of, digits_value, compare_strings, decimal, lemma_decimal_injective, lemma_lex_less_asymmetric, lex_less, push_decimal};
use crate::syntax_tree::{asp, fol};
use crate::syntax_tree::fol_ops::conjunction_of;
use crate::parsing::asp::lemma_digits_value_prefix;
use vstd::prelude::*;

verus! {

// ================================================================ fresh names

/// `variant` followed by the decimal notation of `n`.
pub open spec fn numbered_name(variant: Seq<char>, n: nat) -> Seq<char> {
    variant + decimal(n)
}

/// The first number from `m` on whose numbered name is not in `avoid`,
/// trying no more than `fuel` numbers that are.
pub open spec fn first_free(avoid: Seq<Seq<char>>, variant: Seq<char>, m: nat, fuel: nat) -> nat
    decreases fuel,
{
    if fuel == 0 || !avoid.contains(numbered_name(variant, m)) {
        m
    } else {
        first_free(avoid, variant, m + 1, (fuel - 1) as nat)
    }
}

/// The name chosen for the number `n`: the first numbered name from `n` on
/// that is neither taken nor chosen before.
pub open spec fn next_fresh(taken: Seq<Seq<char>>, variant: Seq<char>, fresh: Seq<Seq<char>>, n: nat) -> Seq<char> {
    numbered_name(variant, first_free(taken + fresh, variant, n, (taken + fresh).len()))
}

/// The names chosen after `init`, for the numbers `1` to `k`.
pub open spec fn fresh_upto(taken: Seq<Seq<char>>, variant: Seq<char>, init: Seq<Seq<char>>, k: nat) -> Seq<Seq<char>>
    decreases k,
{
    if k == 0 {
        init
    } else {
        let prev = fresh_upto(taken, variant, init, (k - 1) as nat);
        prev.push(next_fresh(taken, variant, prev, k))
    }
}

/// The names chosen for `arity` places: `variant` itself if it is not taken,
/// then numbered variants of it.
pub open spec fn fresh_names(taken: Seq<Seq<char>>, variant: Seq<char>, arity: nat) -> Seq<Seq<char>> {
    if taken.contains(variant) {
        fresh_upto(taken, variant, seq![], arity)
    } else {
        fresh_upto(taken, variant, seq![variant], if arity == 0 { 0 } else { (arity - 1) as nat })
    }
}

/// The names of first-order variables.
pub open spec fn variable_names(vs: Seq<fol::VariableModel>) -> Seq<Seq<char>> {
    vs.map_values(|v: fol::VariableModel| v.name)
}

/// Consecutive numbered names that are all in `avoid` are fewer than its length.
proof fn lemma_blocked_bound(avoid: Seq<Seq<char>>, variant: Seq<char>, n: nat, m: nat)
    requires
        n <= m,
        forall|k: nat| n <= k <= m ==> avoid.contains(#[trigger] numbered_name(variant, k)),
    ensures
        m - n < avoid.len(),
{
    broadcast use vstd::set::group_set_axioms, vstd::seq_lib::seq_to_set_is_finite;
    let c = (m - n + 1) as nat;
    let img = Seq::new(c, |i: int| numbered_name(variant, (n + i) as nat));
    assert forall|i: int, j: int| 0 <= i < img.len() && 0 <= j < img.len() && i != j
        implies img[i] != img[j] by {
        if img[i] == img[j] {
            assert(numbered_name(variant, (n + i) as nat).skip(variant.len() as int) =~= decimal((n + i) as nat));
            assert(numbered_name(variant, (n + j) as nat).skip(variant.len() as int) =~= decimal((n + j) as nat));
            lemma_decimal_injective((n + i) as nat, (n + j) as nat);
        }
    }
    img.unique_seq_to_set();
    assert forall|x: Seq<char>| img.to_set().contains(x) implies avoid.to_set().contains(x) by {
        let i = choose|i: int| 0 <= i < img.len() && img[i] == x;
        assert(avoid.contains(numbered_name(variant, (n + i) as nat)));
    }
    vstd::set_lib::lemma_len_subset(img.to_set(), avoid.to_set());
    avoid.lemma_cardinality_of_set();
}

/// Appends the decimal notation of `n` to `variant`.
fn numbered(variant: &str, n: u128) -> (r: String)
    ensures
        r@ == numbered_name(variant@, n as nat),
{
    let mut s = String::from_str(variant);
    push_decimal(&mut s, n);
    s
}

/// Whether `name` is in `a` or in `b`.
fn in_either(a: &Vec<String>, b: &Vec<String>, name: &String) -> (r: bool)
    ensures
        r == (views(a@) + views(b@)).contains(name@),
{
    let x = contains(a, name);
    let y = contains(b, name);
    proof {
        let s = views(a@) + views(b@);
        if x {
            let k = choose|k: int| 0 <= k < views(a@).len() && views(a@)[k] == name@;
            assert(s[k] == name@);
        }
        if y {
            let k = choose|k: int| 0 <= k < views(b@).len() && views(b@)[k] == name@;
            assert(s[views(a@).len() + k] == name@);
        }
        if s.contains(name@) {
            let k = choose|k: int| 0 <= k < s.len() && s[k] == name@;
            if k < views(a@).len() {
                assert(views(a@)[k] == name@);
            } else {
                assert(views(b@)[k - views(a@).len()] == name@);
            }
        }
    }
    x || y
}

/// Chooses `arity` names from `variant` and its numbered variants that are
/// not names of `variables` (one name if `arity` is zero and `variant` is free).
pub(crate) fn choose_fresh_variable_names(variables: &Vec<fol::Variable>, variant: &str, arity: usize) -> (r: Vec<String>)
    ensures
        views(r@) == fresh_names(variable_names(views(variables@)), variant@, arity as nat),
{
    let ghost names = variable_names(views(variables@));
    let mut taken: Vec<String> = Vec::new();
    let mut i: usize = 0;
    while i < variables.len()
        invariant
            i <= variables.len(),
            names == variable_names(views(variables@)),
            views(taken@) =~= names.take(i as int),
        decreases variables.len() - i,
    {
        let name = variables[i].name.clone();
        assert(names[i as int] == variables@[i as int]@.name);
        taken.push(name);
        assert(names.take(i as int + 1) =~= names.take(i as int).push(names[i as int]));
        i += 1;
    }
    assert(names.take(variables.len() as int) =~= names);
    let ghost tk = views(taken@);
    let mut fresh: Vec<String> = Vec::new();
    let variant_name = String::from_str(variant);
    let bound: u128 = if contains(&taken, &variant_name) {
        arity as u128 + 1
    } else {
        fresh.push(variant_name);
        arity as u128
    };
    let ghost init = views(fresh@);
    assert(init == (if tk.contains(variant@) { seq![] } else { seq![variant@] }));
    let mut n: u128 = 1;
    while n < bound
        invariant
            1 <= n <= if bound == 0 { 1 } else { bound },
            bound == (if tk.contains(variant@) { arity + 1 } else { arity as int }),
            views(taken@) == tk,
            views(fresh@) == fresh_upto(tk, variant@, init, (n - 1) as nat),
        decreases bound - n,
    {
        let ghost avoid = tk + views(fresh@);
        let mut m: u128 = n as u128;
        let mut candidate = numbered(variant, m);
        while in_either(&taken, &fresh, &candidate)
            invariant
                n <= m,
                n <= arity as int + 1,
                m - n < avoid.len() + 1,
                avoid == views(taken@) + views(fresh@),
                avoid.len() == taken.len() + fresh.len(),
                candidate@ == numbered_name(variant@, m as nat),
                forall|k: nat| n <= k < m ==> avoid.contains(#[trigger] numbered_name(variant@, k)),
                first_free(avoid, variant@, m as nat, (avoid.len() - (m - n)) as nat)
                    == first_free(avoid, variant@, n as nat, avoid.len()),
            decreases avoid.len() - (m - n),
        {
            proof {
                lemma_blocked_bound(avoid, variant@, n as nat, m as nat);
            }
            m = m + 1;
            candidate = numbered(variant, m);
        }
        let ghost prev = views(fresh@);
        assert(first_free(avoid, variant@, m as nat, (avoid.len() - (m - n)) as nat) == m);
        assert(next_fresh(tk, variant@, prev, n as nat) == candidate@);
        fresh.push(candidate);
        assert(views(fresh@) =~= prev.push(candidate@));
        n += 1;
    }
    fresh
}

// ================================================================ formulas of the translation

use fol::{
    AtomModel, AtomicFormulaModel, BinaryConnective, ComparisonModel, FormulaModel,
    GeneralTermModel, GuardModel, IntegerTermModel, QuantificationModel, Quantifier, Sort,
    SymbolicTermModel, UnaryConnective, VariableModel,
};

/// The text of a first-order variable: its name, marked by its sort unless it is general.
pub open spec fn display_name(v: VariableModel) -> Seq<char> {
    match v.sort {
        Sort::General => v.name,
        Sort::Integer => v.name + "$i"@,
        Sort::Symbol => v.name + "$s"@,
    }
}

pub open spec fn general_variable(name: Seq<char>) -> VariableModel {
    VariableModel { name, sort: Sort::General }
}

pub open spec fn integer_variable(name: Seq<char>) -> VariableModel {
    VariableModel { name, sort: Sort::Integer }
}

/// The general variables named like the variables of a program.
pub open spec fn general_named(vs: Seq<asp::VariableModel>) -> Seq<VariableModel> {
    vs.map_values(|v: asp::VariableModel| general_variable(v.0))
}

/// General variables named by the texts of `vs`.
pub open spec fn general_displayed(vs: Seq<VariableModel>) -> Seq<VariableModel> {
    vs.map_values(|v: VariableModel| general_variable(display_name(v)))
}

/// The term that stands for `z`: an integer variable or a general one.
pub open spec fn variable_term(z: VariableModel) -> GeneralTermModel {
    match z.sort {
        Sort::Integer => GeneralTermModel::IntegerTerm(IntegerTermModel::Variable(z.name)),
        _ => GeneralTermModel::Variable(z.name),
    }
}

pub open spec fn integer_name(name: Seq<char>) -> GeneralTermModel {
    GeneralTermModel::IntegerTerm(IntegerTermModel::Variable(name))
}

/// `lhs relation rhs`.
pub open spec fn compare(lhs: GeneralTermModel, relation: fol::Relation, rhs: GeneralTermModel) -> FormulaModel {
    FormulaModel::AtomicFormula(AtomicFormulaModel::Comparison(ComparisonModel {
        term: lhs,
        guards: seq![GuardModel { relation, term: rhs }],
    }))
}

pub open spec fn conj(lhs: FormulaModel, rhs: FormulaModel) -> FormulaModel {
    FormulaModel::BinaryFormula { connective: BinaryConnective::Conjunction, lhs: Box::new(lhs), rhs: Box::new(rhs) }
}

pub open spec fn neg(f: FormulaModel) -> FormulaModel {
    FormulaModel::UnaryFormula { connective: UnaryConnective::Negation, formula: Box::new(f) }
}

pub open spec fn implication(lhs: FormulaModel, rhs: FormulaModel) -> FormulaModel {
    FormulaModel::BinaryFormula { connective: BinaryConnective::Implication, lhs: Box::new(lhs), rhs: Box::new(rhs) }
}

pub open spec fn quantified(quantifier: Quantifier, variables: Seq<VariableModel>, f: FormulaModel) -> FormulaModel {
    FormulaModel::QuantifiedFormula {
        quantification: QuantificationModel { quantifier, variables },
        formula: Box::new(f),
    }
}

/// The atom `p(t1, ..., tn)`.
pub open spec fn atom_formula(symbol: Seq<char>, terms: Seq<GeneralTermModel>) -> FormulaModel {
    FormulaModel::AtomicFormula(AtomicFormulaModel::Atom(AtomModel { predicate_symbol: symbol, terms }))
}

/// The first-order term of a precomputed term.
pub open spec fn precomputed_term(c: asp::PrecomputedTermModel) -> GeneralTermModel {
    match c {
        asp::PrecomputedTermModel::Infimum => GeneralTermModel::Infimum,
        asp::PrecomputedTermModel::Supremum => GeneralTermModel::Supremum,
        asp::PrecomputedTermModel::Numeral(n) => GeneralTermModel::IntegerTerm(IntegerTermModel::Numeral(n)),
        asp::PrecomputedTermModel::Symbol(s) => GeneralTermModel::SymbolicTerm(SymbolicTermModel::Symbol(s)),
    }
}

/// `Z = t` for a precomputed term or a variable `t`.
pub open spec fn equality_formula(t: asp::TermModel, z: VariableModel) -> FormulaModel {
    match t {
        asp::TermModel::PrecomputedTerm(c) => compare(variable_term(z), fol::Relation::Equal, precomputed_term(c)),
        asp::TermModel::Variable(v) => compare(variable_term(z), fol::Relation::Equal, GeneralTermModel::Variable(v.0)),
        _ => FormulaModel::AtomicFormula(AtomicFormulaModel::Truth),
    }
}

/// `exists I J (Z = I op J and val_t1(I) and val_t2(J))`.
pub open spec fn total_function_formula(
    valti: FormulaModel,
    valtj: FormulaModel,
    op: fol::BinaryOperator,
    i: Seq<char>,
    j: Seq<char>,
    z: VariableModel,
) -> FormulaModel {
    let zequals = compare(
        variable_term(z),
        fol::Relation::Equal,
        GeneralTermModel::IntegerTerm(IntegerTermModel::BinaryOperation {
            op,
            lhs: Box::new(IntegerTermModel::Variable(i)),
            rhs: Box::new(IntegerTermModel::Variable(j)),
        }),
    );
    quantified(Quantifier::Exists, seq![integer_variable(i), integer_variable(j)], conj(conj(zequals, valti), valtj))
}

/// The variables that the names of the quotient and the remainder must avoid:
/// the texts of the variables of both operands, as general variables.
pub open spec fn partial_taken(valti: FormulaModel, valtj: FormulaModel) -> Seq<VariableModel> {
    set_extend(set_from(general_displayed(valti.variables())), general_displayed(valtj.variables()))
}

/// For division (`divide`) or modulo:
/// `exists I J Q R (I = J * Q + R and (val_t1(I) and val_t2(J)) and (J != 0 and R >= 0 and R < Q) and Z = Q)`,
/// with `Z = R` in place of `Z = Q` for modulo.
pub open spec fn partial_function_formula(
    valti: FormulaModel,
    valtj: FormulaModel,
    divide: bool,
    i: Seq<char>,
    j: Seq<char>,
    z: VariableModel,
) -> FormulaModel {
    let taken = variable_names(partial_taken(valti, valtj));
    let q = fresh_names(taken, "Q"@, 1).last();
    let r = fresh_names(taken, "R"@, 1).last();
    let iequals = compare(
        integer_name(i),
        fol::Relation::Equal,
        GeneralTermModel::IntegerTerm(IntegerTermModel::BinaryOperation {
            op: fol::BinaryOperator::Add,
            lhs: Box::new(IntegerTermModel::BinaryOperation {
                op: fol::BinaryOperator::Multiply,
                lhs: Box::new(IntegerTermModel::Variable(j)),
                rhs: Box::new(IntegerTermModel::Variable(q)),
            }),
            rhs: Box::new(IntegerTermModel::Variable(r)),
        }),
    );
    let zero = GeneralTermModel::IntegerTerm(IntegerTermModel::Numeral(0));
    let conditions = conj(
        conj(compare(integer_name(j), fol::Relation::NotEqual, zero), compare(integer_name(r), fol::Relation::GreaterEqual, zero)),
        compare(integer_name(r), fol::Relation::Less, integer_name(q)),
    );
    let zequals = compare(variable_term(z), fol::Relation::Equal, integer_name(if divide { q } else { r }));
    quantified(
        Quantifier::Exists,
        seq![integer_variable(i), integer_variable(j), integer_variable(q), integer_variable(r)],
        conj(conj(conj(iequals, conj(valti, valtj)), conditions), zequals),
    )
}

/// `exists I J K (val_t1(I) and val_t2(J) and Z = K and I <= K <= J)`.
pub open spec fn interval_formula(
    valti: FormulaModel,
    valtj: FormulaModel,
    i: Seq<char>,
    j: Seq<char>,
    k: Seq<char>,
    z: VariableModel,
) -> FormulaModel {
    let range = FormulaModel::AtomicFormula(AtomicFormulaModel::Comparison(ComparisonModel {
        term: integer_name(i),
        guards: seq![
            GuardModel { relation: fol::Relation::LessEqual, term: integer_name(k) },
            GuardModel { relation: fol::Relation::LessEqual, term: integer_name(j) },
        ],
    }));
    let sub = conj(conj(valti, valtj), compare(variable_term(z), fol::Relation::Equal, integer_name(k)));
    quantified(
        Quantifier::Exists,
        seq![integer_variable(i), integer_variable(j), integer_variable(k)],
        conj(sub, range),
    )
}

/// The names that the fresh variables of `val_t(Z)` must avoid.
pub open spec fn val_taken(t: asp::TermModel, z: VariableModel) -> Seq<Seq<char>> {
    variable_names(set_insert(set_from(general_named(t.variables())), z))
}

/// `val_t(Z)`: the formula that says that `Z` is one of the values of the term `t`.
pub open spec fn val_formula(t: asp::TermModel, z: VariableModel) -> FormulaModel
    decreases t,
{
    let taken = val_taken(t, z);
    let i = fresh_names(taken, "I"@, 1).last();
    let j = fresh_names(taken, "J"@, 1).last();
    let k = fresh_names(taken, "K"@, 1).last();
    match t {
        asp::TermModel::PrecomputedTerm(_) => equality_formula(t, z),
        asp::TermModel::Variable(_) => equality_formula(t, z),
        asp::TermModel::UnaryOperation { arg, .. } => total_function_formula(
            equality_formula(asp::TermModel::PrecomputedTerm(asp::PrecomputedTermModel::Numeral(0)), integer_variable(i)),
            val_formula(*arg, integer_variable(j)),
            fol::BinaryOperator::Subtract,
            i,
            j,
            z,
        ),
        asp::TermModel::BinaryOperation { op, lhs, rhs } => {
            let valti = val_formula(*lhs, integer_variable(i));
            let valtj = val_formula(*rhs, integer_variable(j));
            match op {
                asp::BinaryOperator::Add => total_function_formula(valti, valtj, fol::BinaryOperator::Add, i, j, z),
                asp::BinaryOperator::Subtract => total_function_formula(valti, valtj, fol::BinaryOperator::Subtract, i, j, z),
                asp::BinaryOperator::Multiply => total_function_formula(valti, valtj, fol::BinaryOperator::Multiply, i, j, z),
                asp::BinaryOperator::Divide => partial_function_formula(valti, valtj, true, i, j, z),
                asp::BinaryOperator::Modulo => partial_function_formula(valti, valtj, false, i, j, z),
                asp::BinaryOperator::Interval => interval_formula(valti, valtj, i, j, k, z),
            }
        },
    }
}

/// The value of `t1 op t2` for addition, subtraction or multiplication is
/// `exists I J (Z = I op J and ...)`: the two bound integer variables joined
/// by the operator that is written as `op` is written in the program.
pub proof fn lemma_value_of_total_operation(op: asp::BinaryOperator, lhs: asp::TermModel, rhs: asp::TermModel, z: VariableModel)
    requires
        op == asp::BinaryOperator::Add || op == asp::BinaryOperator::Subtract || op == asp::BinaryOperator::Multiply,
    ensures
        match val_formula(asp::TermModel::BinaryOperation { op, lhs: Box::new(lhs), rhs: Box::new(rhs) }, z) {
            FormulaModel::QuantifiedFormula { quantification, formula } => match *formula {
                FormulaModel::BinaryFormula { connective: BinaryConnective::Conjunction, lhs: first, .. } => match *first {
                    FormulaModel::BinaryFormula { connective: BinaryConnective::Conjunction, lhs: eq, .. } => match *eq {
                        FormulaModel::AtomicFormula(AtomicFormulaModel::Comparison(c)) => match c.guards[0].term {
                            GeneralTermModel::IntegerTerm(IntegerTermModel::BinaryOperation { op: fop, lhs: a, rhs: b }) => {
                                &&& quantification.quantifier == Quantifier::Exists
                                &&& quantification.variables.len() == 2
                                &&& c.term == variable_term(z)
                                &&& c.guards.len() == 1
                                &&& c.guards[0].relation == fol::Relation::Equal
                                &&& *a == IntegerTermModel::Variable(quantification.variables[0].name)
                                &&& *b == IntegerTermModel::Variable(quantification.variables[1].name)
                                &&& crate::formatting::fol::operator_text(fop) == crate::formatting::asp::operator_text(op)
                            },
                            _ => false,
                        },
                        _ => false,
                    },
                    _ => false,
                },
                _ => false,
            },
            _ => false,
        },
{
}

/// The value of `t1 / t2` or `t1 \ t2` is
/// `exists I J Q R (I = J * Q + R and ... and Z = Q)` for division, with
/// `Z = R` for the remainder.
pub proof fn lemma_value_of_division(divide: bool, lhs: asp::TermModel, rhs: asp::TermModel, z: VariableModel)
    ensures
        ({
            let op = if divide { asp::BinaryOperator::Divide } else { asp::BinaryOperator::Modulo };
            match val_formula(asp::TermModel::BinaryOperation { op, lhs: Box::new(lhs), rhs: Box::new(rhs) }, z) {
                FormulaModel::QuantifiedFormula { quantification, formula } => match *formula {
                    FormulaModel::BinaryFormula { connective: BinaryConnective::Conjunction, lhs: front, rhs: last } => {
                        let vs = quantification.variables;
                        &&& quantification.quantifier == Quantifier::Exists
                        &&& vs.len() == 4
                        &&& *last == compare(variable_term(z), fol::Relation::Equal, integer_name(if divide { vs[2].name } else { vs[3].name }))
                        &&& match *front {
                            FormulaModel::BinaryFormula { connective: BinaryConnective::Conjunction, lhs: inner, .. } => match *inner {
                                FormulaModel::BinaryFormula { connective: BinaryConnective::Conjunction, lhs: eq, .. } =>
                                    *eq == compare(
                                        integer_name(vs[0].name),
                                        fol::Relation::Equal,
                                        GeneralTermModel::IntegerTerm(IntegerTermModel::BinaryOperation {
                                            op: fol::BinaryOperator::Add,
                                            lhs: Box::new(IntegerTermModel::BinaryOperation {
                                                op: fol::BinaryOperator::Multiply,
                                                lhs: Box::new(IntegerTermModel::Variable(vs[1].name)),
                                                rhs: Box::new(IntegerTermModel::Variable(vs[2].name)),
                                            }),
                                            rhs: Box::new(IntegerTermModel::Variable(vs[3].name)),
                                        }),
                                    ),
                                _ => false,
                            },
                            _ => false,
                        }
                    },
                    _ => false,
                },
                _ => false,
            }
        }),
{
}

// ================================================================ building the formulas

proof fn lemma_fresh_upto_len(taken: Seq<Seq<char>>, variant: Seq<char>, init: Seq<Seq<char>>, k: nat)
    ensures
        fresh_upto(taken, variant, init, k).len() == init.len() + k,
    decreases k,
{
    if k > 0 {
        lemma_fresh_upto_len(taken, variant, init, (k - 1) as nat);
    }
}

/// The search for a free numbered name, with as much fuel as there are names
/// to avoid, ends at a free one.
proof fn lemma_first_free_is_free(avoid: Seq<Seq<char>>, variant: Seq<char>, n: nat, m: nat, fuel: nat)
    requires
        n <= m,
        m - n + fuel == avoid.len(),
        forall|k: nat| n <= k < m ==> avoid.contains(#[trigger] numbered_name(variant, k)),
    ensures
        !avoid.contains(numbered_name(variant, first_free(avoid, variant, m, fuel))),
    decreases fuel,
{
    if fuel == 0 {
        if avoid.contains(numbered_name(variant, m)) {
            lemma_blocked_bound(avoid, variant, n, m);
        }
    } else if avoid.contains(numbered_name(variant, m)) {
        lemma_first_free_is_free(avoid, variant, n, m + 1, (fuel - 1) as nat);
    }
}

/// Each name chosen after `init` avoids the taken names and those chosen before it.
proof fn lemma_fresh_upto_fresh(taken: Seq<Seq<char>>, variant: Seq<char>, init: Seq<Seq<char>>, k: nat)
    requires
        init.no_duplicates(),
        forall|i: int| 0 <= i < init.len() ==> !taken.contains(#[trigger] init[i]),
    ensures
        fresh_upto(taken, variant, init, k).no_duplicates(),
        forall|i: int| 0 <= i < fresh_upto(taken, variant, init, k).len()
            ==> !taken.contains(#[trigger] fresh_upto(taken, variant, init, k)[i]),
    decreases k,
{
    if k > 0 {
        let prev = fresh_upto(taken, variant, init, (k - 1) as nat);
        lemma_fresh_upto_fresh(taken, variant, init, (k - 1) as nat);
        let avoid = taken + prev;
        lemma_first_free_is_free(avoid, variant, k, k, avoid.len());
        let x = next_fresh(taken, variant, prev, k);
        assert(!avoid.contains(x));
        assert forall|i: int| 0 <= i < prev.len() implies #[trigger] prev[i] != x by {
            assert(avoid[taken.len() + i] == prev[i]);
        }
        assert(!taken.contains(x)) by {
            if taken.contains(x) {
                let i = choose|i: int| 0 <= i < taken.len() && taken[i] == x;
                assert(avoid[i] == x);
            }
        }
        let next = prev.push(x);
        assert forall|i: int, j: int| 0 <= i < next.len() && 0 <= j < next.len() && i != j
            implies next[i] != next[j] by {
            if i < prev.len() && j < prev.len() {
                assert(prev[i] != prev[j]);
            }
        }
    }
}

/// The names that are chosen are pairwise different, and none of them is taken.
pub proof fn lemma_fresh_names_fresh(taken: Seq<Seq<char>>, variant: Seq<char>, arity: nat)
    ensures
        fresh_names(taken, variant, arity).no_duplicates(),
        forall|i: int| 0 <= i < fresh_names(taken, variant, arity).len()
            ==> !taken.contains(#[trigger] fresh_names(taken, variant, arity)[i]),
{
    if taken.contains(variant) {
        lemma_fresh_upto_fresh(taken, variant, seq![], arity);
    } else {
        lemma_fresh_upto_fresh(taken, variant, seq![variant], if arity == 0 { 0 } else { (arity - 1) as nat });
    }
}

/// There are `arity` fresh names, or one where `arity` is zero and `variant` is free.
pub proof fn lemma_fresh_names_len(taken: Seq<Seq<char>>, variant: Seq<char>, arity: nat)
    ensures
        fresh_names(taken, variant, arity).len() == (if arity == 0 && !taken.contains(variant) { 1 } else { arity }),
{
    if taken.contains(variant) {
        lemma_fresh_upto_len(taken, variant, seq![], arity);
    } else {
        lemma_fresh_upto_len(taken, variant, seq![variant], if arity == 0 { 0 } else { (arity - 1) as nat });
    }
}

/// The one fresh name chosen from `variant`.
fn fresh_name(variables: &Vec<fol::Variable>, variant: &str) -> (r: String)
    ensures
        r@ == fresh_names(variable_names(views(variables@)), variant@, 1).last(),
{
    let mut names = choose_fresh_variable_names(variables, variant, 1);
    proof {
        lemma_fresh_names_len(variable_names(views(variables@)), variant@, 1);
    }
    let ghost before = views(names@);
    let r = names.pop().unwrap();
    assert(r@ == before.last());
    r
}

fn general_named_exec(vs: &Vec<asp::Variable>) -> (r: Vec<fol::Variable>)
    ensures
        views(r@) == general_named(views(vs@)),
{
    let mut r: Vec<fol::Variable> = Vec::new();
    let mut i: usize = 0;
    while i < vs.len()
        invariant
            i <= vs.len(),
            views(r@) =~= general_named(views(vs@)).take(i as int),
        decreases vs.len() - i,
    {
        r.push(fol::Variable { name: vs[i].0.clone(), sort: Sort::General });
        assert(general_named(views(vs@)).take(i as int + 1) =~= general_named(views(vs@)).take(i as int).push(general_variable(vs@[i as int].0@)));
        i += 1;
    }
    assert(general_named(views(vs@)).take(vs.len() as int) =~= general_named(views(vs@)));
    r
}

fn display_name_exec(v: &fol::Variable) -> (r: String)
    ensures
        r@ == display_name(v@),
{
    match v.sort {
        Sort::General => v.name.clone(),
        Sort::Integer => {
            let mut s = v.name.clone();
            s.append("$i");
            s
        },
        Sort::Symbol => {
            let mut s = v.name.clone();
            s.append("$s");
            s
        },
    }
}

fn general_displayed_exec(vs: &Vec<fol::Variable>) -> (r: Vec<fol::Variable>)
    ensures
        views(r@) == general_displayed(views(vs@)),
{
    let mut r: Vec<fol::Variable> = Vec::new();
    let mut i: usize = 0;
    while i < vs.len()
        invariant
            i <= vs.len(),
            views(r@) =~= general_displayed(views(vs@)).take(i as int),
        decreases vs.len() - i,
    {
        r.push(fol::Variable { name: display_name_exec(&vs[i]), sort: Sort::General });
        assert(general_displayed(views(vs@)).take(i as int + 1) =~= general_displayed(views(vs@)).take(i as int).push(general_variable(display_name(vs@[i as int]@))));
        i += 1;
    }
    assert(general_displayed(views(vs@)).take(vs.len() as int) =~= general_displayed(views(vs@)));
    r
}

fn variable_term_exec(z: &fol::Variable) -> (r: fol::GeneralTerm)
    ensures
        r@ == variable_term(z@),
{
    match z.sort {
        Sort::Integer => fol::GeneralTerm::IntegerTerm(fol::IntegerTerm::Variable(z.name.clone())),
        _ => fol::GeneralTerm::Variable(z.name.clone()),
    }
}

fn integer_name_exec(name: &String) -> (r: fol::GeneralTerm)
    ensures
        r@ == integer_name(name@),
{
    fol::GeneralTerm::IntegerTerm(fol::IntegerTerm::Variable(name.clone()))
}

fn compare_exec(lhs: fol::GeneralTerm, relation: fol::Relation, rhs: fol::GeneralTerm) -> (r: fol::Formula)
    ensures
        r@ == compare(lhs@, relation, rhs@),
{
    let mut guards: Vec<fol::Guard> = Vec::new();
    guards.push(fol::Guard { relation, term: rhs });
    let r = fol::Formula::AtomicFormula(fol::AtomicFormula::Comparison(fol::Comparison { term: lhs, guards }));
    assert(views(guards@) =~= seq![GuardModel { relation, term: rhs@ }]);
    r
}

fn conj_exec(lhs: fol::Formula, rhs: fol::Formula) -> (r: fol::Formula)
    ensures
        r@ == conj(lhs@, rhs@),
{
    fol::Formula::BinaryFormula { connective: BinaryConnective::Conjunction, lhs: Box::new(lhs), rhs: Box::new(rhs) }
}

fn neg_exec(f: fol::Formula) -> (r: fol::Formula)
    ensures
        r@ == neg(f@),
{
    fol::Formula::UnaryFormula { connective: UnaryConnective::Negation, formula: Box::new(f) }
}

fn implication_exec(lhs: fol::Formula, rhs: fol::Formula) -> (r: fol::Formula)
    ensures
        r@ == implication(lhs@, rhs@),
{
    fol::Formula::BinaryFormula { connective: BinaryConnective::Implication, lhs: Box::new(lhs), rhs: Box::new(rhs) }
}

fn quantified_exec(quantifier: Quantifier, variables: Vec<fol::Variable>, f: fol::Formula) -> (r: fol::Formula)
    ensures
        r@ == quantified(quantifier, views(variables@), f@),
{
    fol::Formula::QuantifiedFormula {
        quantification: fol::Quantification { quantifier, variables },
        formula: Box::new(f),
    }
}

fn integer_variable_exec(name: &String) -> (r: fol::Variable)
    ensures
        r@ == integer_variable(name@),
{
    fol::Variable { name: name.clone(), sort: Sort::Integer }
}

fn precomputed_term_exec(c: &asp::PrecomputedTerm) -> (r: fol::GeneralTerm)
    ensures
        r@ == precomputed_term(c@),
{
    match c {
        asp::PrecomputedTerm::Infimum => fol::GeneralTerm::Infimum,
        asp::PrecomputedTerm::Supremum => fol::GeneralTerm::Supremum,
        asp::PrecomputedTerm::Numeral(n) => fol::GeneralTerm::IntegerTerm(fol::IntegerTerm::Numeral(*n)),
        asp::PrecomputedTerm::Symbol(s) => fol::GeneralTerm::SymbolicTerm(fol::SymbolicTerm::Symbol(s.clone())),
    }
}

fn integer_operation(op: fol::BinaryOperator, lhs: fol::IntegerTerm, rhs: fol::IntegerTerm) -> (r: fol::IntegerTerm)
    ensures
        r@ == (IntegerTermModel::BinaryOperation { op, lhs: Box::new(lhs@), rhs: Box::new(rhs@) }),
{
    fol::IntegerTerm::BinaryOperation { op, lhs: Box::new(lhs), rhs: Box::new(rhs) }
}

fn construct_equality_formula(t: &asp::Term, z: &fol::Variable) -> (r: fol::Formula)
    requires
        t is PrecomputedTerm || t is Variable,
    ensures
        r@ == equality_formula(t@, z@),
{
    let rhs = match t {
        asp::Term::PrecomputedTerm(c) => precomputed_term_exec(c),
        asp::Term::Variable(v) => fol::GeneralTerm::Variable(v.0.clone()),
        _ => fol::GeneralTerm::Infimum,
    };
    compare_exec(variable_term_exec(z), fol::Relation::Equal, rhs)
}

fn construct_total_function_formula(
    valti: fol::Formula,
    valtj: fol::Formula,
    op: fol::BinaryOperator,
    i: String,
    j: String,
    z: &fol::Variable,
) -> (r: fol::Formula)
    ensures
        r@ == total_function_formula(valti@, valtj@, op, i@, j@, z@),
{
    let zequals = compare_exec(
        variable_term_exec(z),
        fol::Relation::Equal,
        fol::GeneralTerm::IntegerTerm(integer_operation(op, fol::IntegerTerm::Variable(i.clone()), fol::IntegerTerm::Variable(j.clone()))),
    );
    let mut variables: Vec<fol::Variable> = Vec::new();
    variables.push(integer_variable_exec(&i));
    variables.push(integer_variable_exec(&j));
    assert(views(variables@) =~= seq![integer_variable(i@), integer_variable(j@)]);
    quantified_exec(Quantifier::Exists, variables, conj_exec(conj_exec(zequals, valti), valtj))
}

fn construct_partial_function_formula(
    valti: fol::Formula,
    valtj: fol::Formula,
    divide: bool,
    i: String,
    j: String,
    z: &fol::Variable,
) -> (r: fol::Formula)
    ensures
        r@ == partial_function_formula(valti@, valtj@, divide, i@, j@, z@),
{
    let mut taken: Vec<fol::Variable> = Vec::new();
    assert(views(taken@) =~= Seq::<VariableModel>::empty());
    extend(&mut taken, general_displayed_exec(&valti.variables()));
    extend(&mut taken, general_displayed_exec(&valtj.variables()));
    assert(views(taken@) == partial_taken(valti@, valtj@));
    let q = fresh_name(&taken, "Q");
    let r = fresh_name(&taken, "R");
    let iequals = compare_exec(
        integer_name_exec(&i),
        fol::Relation::Equal,
        fol::GeneralTerm::IntegerTerm(integer_operation(
            fol::BinaryOperator::Add,
            integer_operation(fol::BinaryOperator::Multiply, fol::IntegerTerm::Variable(j.clone()), fol::IntegerTerm::Variable(q.clone())),
            fol::IntegerTerm::Variable(r.clone()),
        )),
    );
    let conditions = conj_exec(
        conj_exec(
            compare_exec(integer_name_exec(&j), fol::Relation::NotEqual, fol::GeneralTerm::IntegerTerm(fol::IntegerTerm::Numeral(0))),
            compare_exec(integer_name_exec(&r), fol::Relation::GreaterEqual, fol::GeneralTerm::IntegerTerm(fol::IntegerTerm::Numeral(0))),
        ),
        compare_exec(integer_name_exec(&r), fol::Relation::Less, integer_name_exec(&q)),
    );
    let zequals = compare_exec(
        variable_term_exec(z),
        fol::Relation::Equal,
        integer_name_exec(if divide { &q } else { &r }),
    );
    let mut variables: Vec<fol::Variable> = Vec::new();
    variables.push(integer_variable_exec(&i));
    variables.push(integer_variable_exec(&j));
    variables.push(integer_variable_exec(&q));
    variables.push(integer_variable_exec(&r));
    assert(views(variables@) =~= seq![integer_variable(i@), integer_variable(j@), integer_variable(q@), integer_variable(r@)]);
    quantified_exec(
        Quantifier::Exists,
        variables,
        conj_exec(conj_exec(conj_exec(iequals, conj_exec(valti, valtj)), conditions), zequals),
    )
}

fn construct_interval_formula(
    valti: fol::Formula,
    valtj: fol::Formula,
    i: String,
    j: String,
    k: String,
    z: &fol::Variable,
) -> (r: fol::Formula)
    ensures
        r@ == interval_formula(valti@, valtj@, i@, j@, k@, z@),
{
    let mut guards: Vec<fol::Guard> = Vec::new();
    guards.push(fol::Guard { relation: fol::Relation::LessEqual, term: integer_name_exec(&k) });
    guards.push(fol::Guard { relation: fol::Relation::LessEqual, term: integer_name_exec(&j) });
    assert(views(guards@) =~= seq![
        GuardModel { relation: fol::Relation::LessEqual, term: integer_name(k@) },
        GuardModel { relation: fol::Relation::LessEqual, term: integer_name(j@) },
    ]);
    let range = fol::Formula::AtomicFormula(fol::AtomicFormula::Comparison(fol::Comparison {
        term: integer_name_exec(&i),
        guards,
    }));
    let sub = conj_exec(
        conj_exec(valti, valtj),
        compare_exec(variable_term_exec(z), fol::Relation::Equal, integer_name_exec(&k)),
    );
    let mut variables: Vec<fol::Variable> = Vec::new();
    variables.push(integer_variable_exec(&i));
    variables.push(integer_variable_exec(&j));
    variables.push(integer_variable_exec(&k));
    assert(views(variables@) =~= seq![integer_variable(i@), integer_variable(j@), integer_variable(k@)]);
    quantified_exec(Quantifier::Exists, variables, conj_exec(sub, range))
}

/// `val_t(Z)`: the formula that says that the value of `Z` is one of the
/// values of the term `t`.
pub fn val(t: &asp::Term, z: &fol::Variable) -> (r: fol::Formula)
    ensures
        r@ == val_formula(t@, z@),
    decreases t,
{
    let mut taken: Vec<fol::Variable> = Vec::new();
    assert(views(taken@) =~= Seq::<VariableModel>::empty());
    extend(&mut taken, general_named_exec(&t.variables()));
    insert(&mut taken, z.clone());
    assert(variable_names(views(taken@)) == val_taken(t@, z@));
    let i = fresh_name(&taken, "I");
    let j = fresh_name(&taken, "J");
    let k = fresh_name(&taken, "K");
    match t {
        asp::Term::PrecomputedTerm(_) | asp::Term::Variable(_) => construct_equality_formula(t, z),
        asp::Term::UnaryOperation { arg, .. } => {
            let zero = asp::Term::PrecomputedTerm(asp::PrecomputedTerm::Numeral(0));
            let valti = construct_equality_formula(&zero, &integer_variable_exec(&i));
            let valtj = val(&**arg, &integer_variable_exec(&j));
            construct_total_function_formula(valti, valtj, fol::BinaryOperator::Subtract, i, j, z)
        },
        asp::Term::BinaryOperation { op, lhs, rhs } => {
            let valti = val(&**lhs, &integer_variable_exec(&i));
            let valtj = val(&**rhs, &integer_variable_exec(&j));
            match op {
                asp::BinaryOperator::Add => construct_total_function_formula(valti, valtj, fol::BinaryOperator::Add, i, j, z),
                asp::BinaryOperator::Subtract => construct_total_function_formula(valti, valtj, fol::BinaryOperator::Subtract, i, j, z),
                asp::BinaryOperator::Multiply => construct_total_function_formula(valti, valtj, fol::BinaryOperator::Multiply, i, j, z),
                asp::BinaryOperator::Divide => construct_partial_function_formula(valti, valtj, true, i, j, z),
                asp::BinaryOperator::Modulo => construct_partial_function_formula(valti, valtj, false, i, j, z),
                asp::BinaryOperator::Interval => construct_interval_formula(valti, valtj, i, j, k, z),
            }
        },
    }
}

// ================================================================ bodies

/// `f` under the sign of a literal.
pub open spec fn signed(sign: asp::Sign, f: FormulaModel) -> FormulaModel {
    match sign {
        asp::Sign::NoSign => f,
        asp::Sign::Negation => neg(f),
        asp::Sign::DoubleNegation => neg(neg(f)),
    }
}

/// `val_t1(Z1), ..., val_tn(Zn)` for general variables named by `names`.
pub open spec fn vals(terms: Seq<asp::TermModel>, names: Seq<Seq<char>>) -> Seq<FormulaModel> {
    Seq::new(terms.len(), |i: int| val_formula(terms[i], general_variable(names[i])))
}

pub open spec fn general_variables(names: Seq<Seq<char>>) -> Seq<VariableModel> {
    names.map_values(|n: Seq<char>| general_variable(n))
}

pub open spec fn general_terms(names: Seq<Seq<char>>) -> Seq<GeneralTermModel> {
    names.map_values(|n: Seq<char>| GeneralTermModel::Variable(n))
}

/// `exists Z1 ... Zn (val_t1(Z1) and ... and val_tn(Zn) and L)`, where `L` is
/// `p(Z1, ..., Zn)` under the sign of the literal.
pub open spec fn first_order_literal(l: asp::LiteralModel, taken: Seq<VariableModel>) -> FormulaModel {
    let names = fresh_names(variable_names(taken), "Z"@, l.atom.terms.len());
    quantified(
        Quantifier::Exists,
        general_variables(names),
        conj(
            conjunction_of(vals(l.atom.terms, names)),
            signed(l.sign, atom_formula(l.atom.predicate_symbol, general_terms(names))),
        ),
    )
}

/// A propositional literal as a formula.
pub open spec fn propositional_literal(l: asp::LiteralModel) -> FormulaModel {
    signed(l.sign, atom_formula(l.atom.predicate_symbol, seq![]))
}

pub open spec fn relation(r: asp::Relation) -> fol::Relation {
    match r {
        asp::Relation::Equal => fol::Relation::Equal,
        asp::Relation::NotEqual => fol::Relation::NotEqual,
        asp::Relation::Greater => fol::Relation::Greater,
        asp::Relation::Less => fol::Relation::Less,
        asp::Relation::GreaterEqual => fol::Relation::GreaterEqual,
        asp::Relation::LessEqual => fol::Relation::LessEqual,
    }
}

/// `exists Z Z1 (val_t1(Z) and val_t2(Z1) and Z rel Z1)`.
pub open spec fn comparison_formula(c: asp::ComparisonModel, taken: Seq<VariableModel>) -> FormulaModel {
    let names = fresh_names(variable_names(taken), "Z"@, 2);
    let z1 = names[0];
    let z2 = names[1];
    quantified(
        Quantifier::Exists,
        seq![general_variable(z1), general_variable(z2)],
        conj(
            conjunction_of(seq![val_formula(c.lhs, general_variable(z1)), val_formula(c.rhs, general_variable(z2))]),
            compare(GeneralTermModel::Variable(z1), relation(c.relation), GeneralTermModel::Variable(z2)),
        ),
    )
}

/// `tau^B` of a literal or a comparison.
pub open spec fn tau_b_formula(f: asp::AtomicFormulaModel) -> FormulaModel {
    let taken = set_from(general_named(f.variables()));
    match f {
        asp::AtomicFormulaModel::Literal(l) =>
            if l.atom.terms.len() > 0 { first_order_literal(l, taken) } else { propositional_literal(l) },
        asp::AtomicFormulaModel::Comparison(c) => comparison_formula(c, taken),
    }
}

/// The negations in front of a formula.
pub open spec fn leading_negations(f: FormulaModel) -> nat
    decreases f,
{
    match f {
        FormulaModel::UnaryFormula { formula, .. } => 1 + leading_negations(*formula),
        _ => 0,
    }
}

/// What stands under the negations in front of a formula.
pub open spec fn under_negations(f: FormulaModel) -> FormulaModel
    decreases f,
{
    match f {
        FormulaModel::UnaryFormula { formula, .. } => under_negations(*formula),
        _ => f,
    }
}

/// How many times a sign negates: none, once, or twice.
pub open spec fn sign_count(s: asp::Sign) -> nat {
    match s {
        asp::Sign::NoSign => 0,
        asp::Sign::Negation => 1,
        asp::Sign::DoubleNegation => 2,
    }
}

/// tau^B keeps the sign and the predicate of a literal: a propositional
/// literal becomes its atom under as many negations as its sign has; a
/// literal with terms becomes `exists Z1 ... Zn (... and L)`, where `L` is
/// the atom of the same symbol applied to the bound variables, in order,
/// under as many negations as the sign has.
pub proof fn lemma_literal_keeps_sign(l: asp::LiteralModel)
    ensures
        l.atom.terms.len() == 0 ==> {
            let f = tau_b_formula(asp::AtomicFormulaModel::Literal(l));
            &&& leading_negations(f) == sign_count(l.sign)
            &&& under_negations(f) == FormulaModel::AtomicFormula(AtomicFormulaModel::Atom(
                    AtomModel { predicate_symbol: l.atom.predicate_symbol, terms: seq![] }))
        },
        l.atom.terms.len() > 0 ==> match tau_b_formula(asp::AtomicFormulaModel::Literal(l)) {
            FormulaModel::QuantifiedFormula { quantification, formula } => match *formula {
                FormulaModel::BinaryFormula { connective: BinaryConnective::Conjunction, rhs, .. } => {
                    &&& quantification.quantifier == Quantifier::Exists
                    &&& quantification.variables.len() == l.atom.terms.len()
                    &&& leading_negations(*rhs) == sign_count(l.sign)
                    &&& under_negations(*rhs) == FormulaModel::AtomicFormula(AtomicFormulaModel::Atom(AtomModel {
                            predicate_symbol: l.atom.predicate_symbol,
                            terms: quantification.variables.map_values(|v: VariableModel| GeneralTermModel::Variable(v.name)),
                        }))
                },
                _ => false,
            },
            _ => false,
        },
{
    reveal_with_fuel(leading_negations, 3);
    reveal_with_fuel(under_negations, 3);
    if l.atom.terms.len() > 0 {
        let taken = set_from(general_named(asp::AtomicFormulaModel::Literal(l).variables()));
        let names = fresh_names(variable_names(taken), "Z"@, l.atom.terms.len());
        lemma_fresh_names_len(variable_names(taken), "Z"@, l.atom.terms.len());
        assert(general_variables(names).map_values(|v: VariableModel| GeneralTermModel::Variable(v.name))
            =~= general_terms(names));
    }
}

/// tau^B keeps the relation of a comparison `t1 rel t2`: it gives
/// `exists Z Z1 (... and Z rel Z1)`, whose comparison compares the first
/// variable that it binds with the second by a relation written as `rel` is
/// written in the program.
pub proof fn lemma_comparison_keeps_relation(c: asp::ComparisonModel)
    ensures
        match tau_b_formula(asp::AtomicFormulaModel::Comparison(c)) {
            FormulaModel::QuantifiedFormula { quantification, formula } => match *formula {
                FormulaModel::BinaryFormula { connective: BinaryConnective::Conjunction, rhs, .. } => match *rhs {
                    FormulaModel::AtomicFormula(AtomicFormulaModel::Comparison(k)) => {
                        &&& quantification.quantifier == Quantifier::Exists
                        &&& quantification.variables.len() == 2
                        &&& k.term == GeneralTermModel::Variable(quantification.variables[0].name)
                        &&& k.guards.len() == 1
                        &&& k.guards[0].term == GeneralTermModel::Variable(quantification.variables[1].name)
                        &&& crate::formatting::fol::relation_text(k.guards[0].relation)
                            == crate::formatting::asp::relation_text(c.relation)
                    },
                    _ => false,
                },
                _ => false,
            },
            _ => false,
        },
{
}

/// `tau^B` of a body: the conjunction of its translated formulas.
pub open spec fn tau_body(b: asp::BodyModel) -> FormulaModel {
    conjunction_of(b.formulas.map_values(|f: asp::AtomicFormulaModel| tau_b_formula(f)))
}

fn signed_exec(sign: asp::Sign, f: fol::Formula) -> (r: fol::Formula)
    ensures
        r@ == signed(sign, f@),
{
    match sign {
        asp::Sign::NoSign => f,
        asp::Sign::Negation => neg_exec(f),
        asp::Sign::DoubleNegation => neg_exec(neg_exec(f)),
    }
}

fn atom_exec(symbol: String, terms: Vec<fol::GeneralTerm>) -> (r: fol::Formula)
    ensures
        r@ == atom_formula(symbol@, views(terms@)),
{
    fol::Formula::AtomicFormula(fol::AtomicFormula::Atom(fol::Atom { predicate_symbol: symbol, terms }))
}

/// General variables and the terms of them, named by `names`.
fn general_variables_exec(names: &Vec<String>) -> (r: (Vec<fol::Variable>, Vec<fol::GeneralTerm>))
    ensures
        views(r.0@) == general_variables(views(names@)),
        views(r.1@) == general_terms(views(names@)),
{
    let mut vars: Vec<fol::Variable> = Vec::new();
    let mut terms: Vec<fol::GeneralTerm> = Vec::new();
    let mut i: usize = 0;
    while i < names.len()
        invariant
            i <= names.len(),
            views(vars@) =~= general_variables(views(names@)).take(i as int),
            views(terms@) =~= general_terms(views(names@)).take(i as int),
        decreases names.len() - i,
    {
        vars.push(fol::Variable { name: names[i].clone(), sort: Sort::General });
        terms.push(fol::GeneralTerm::Variable(names[i].clone()));
        assert(general_variables(views(names@)).take(i as int + 1) =~= general_variables(views(names@)).take(i as int).push(general_variable(names@[i as int]@)));
        assert(general_terms(views(names@)).take(i as int + 1) =~= general_terms(views(names@)).take(i as int).push(GeneralTermModel::Variable(names@[i as int]@)));
        i += 1;
    }
    assert(general_variables(views(names@)).take(names.len() as int) =~= general_variables(views(names@)));
    assert(general_terms(views(names@)).take(names.len() as int) =~= general_terms(views(names@)));
    (vars, terms)
}

/// `val_t1(Z1), ..., val_tn(Zn)`.
fn vals_exec(terms: &Vec<asp::Term>, names: &Vec<String>) -> (r: Vec<fol::Formula>)
    requires
        names.len() >= terms.len(),
    ensures
        views(r@) == vals(views(terms@), views(names@)),
{
    let mut r: Vec<fol::Formula> = Vec::new();
    let mut i: usize = 0;
    while i < terms.len()
        invariant
            i <= terms.len() <= names.len(),
            views(r@) =~= vals(views(terms@), views(names@)).take(i as int),
        decreases terms.len() - i,
    {
        let z = fol::Variable { name: names[i].clone(), sort: Sort::General };
        r.push(val(&terms[i], &z));
        assert(vals(views(terms@), views(names@)).take(i as int + 1) =~= vals(views(terms@), views(names@)).take(i as int).push(val_formula(terms@[i as int]@, general_variable(names@[i as int]@))));
        i += 1;
    }
    assert(vals(views(terms@), views(names@)).take(terms.len() as int) =~= vals(views(terms@), views(names@)));
    r
}

fn tau_b_first_order_literal(l: &asp::Literal, taken: &Vec<fol::Variable>) -> (r: fol::Formula)
    requires
        l@.atom.terms.len() > 0,
    ensures
        r@ == first_order_literal(l@, views(taken@)),
{
    let arity = l.atom.terms.len();
    let names = choose_fresh_variable_names(taken, "Z", arity);
    proof {
        lemma_fresh_names_len(variable_names(views(taken@)), "Z"@, arity as nat);
    }
    let valtz = fol::Formula::conjoin(vals_exec(&l.atom.terms, &names));
    let (vars, terms) = general_variables_exec(&names);
    let p_zk = atom_exec(l.atom.predicate_symbol.clone(), terms);
    quantified_exec(Quantifier::Exists, vars, conj_exec(valtz, signed_exec(l.sign, p_zk)))
}

fn tau_b_propositional_literal(l: &asp::Literal) -> (r: fol::Formula)
    ensures
        r@ == propositional_literal(l@),
{
    let terms: Vec<fol::GeneralTerm> = Vec::new();
    assert(views(terms@) =~= Seq::<GeneralTermModel>::empty());
    signed_exec(l.sign, atom_exec(l.atom.predicate_symbol.clone(), terms))
}

fn relation_exec(r: asp::Relation) -> (s: fol::Relation)
    ensures
        s == relation(r),
{
    match r {
        asp::Relation::Equal => fol::Relation::Equal,
        asp::Relation::NotEqual => fol::Relation::NotEqual,
        asp::Relation::Greater => fol::Relation::Greater,
        asp::Relation::Less => fol::Relation::Less,
        asp::Relation::GreaterEqual => fol::Relation::GreaterEqual,
        asp::Relation::LessEqual => fol::Relation::LessEqual,
    }
}

fn tau_b_comparison(c: &asp::Comparison, taken: &Vec<fol::Variable>) -> (r: fol::Formula)
    ensures
        r@ == comparison_formula(c@, views(taken@)),
{
    let names = choose_fresh_variable_names(taken, "Z", 2);
    proof {
        lemma_fresh_names_len(variable_names(views(taken@)), "Z"@, 2);
    }
    let z1 = fol::Variable { name: names[0].clone(), sort: Sort::General };
    let z2 = fol::Variable { name: names[1].clone(), sort: Sort::General };
    let mut valts: Vec<fol::Formula> = Vec::new();
    valts.push(val(&c.lhs, &z1));
    valts.push(val(&c.rhs, &z2));
    let valtz = fol::Formula::conjoin(valts);
    let rel = compare_exec(
        fol::GeneralTerm::Variable(names[0].clone()),
        relation_exec(c.relation),
        fol::GeneralTerm::Variable(names[1].clone()),
    );
    let mut vars: Vec<fol::Variable> = Vec::new();
    vars.push(z1);
    vars.push(z2);
    let ghost n = views(names@);
    assert(views(vars@) =~= seq![general_variable(n[0]), general_variable(n[1])]);
    assert(views(valts@) =~= seq![val_formula(c@.lhs, general_variable(n[0])), val_formula(c@.rhs, general_variable(n[1]))]);
    quantified_exec(Quantifier::Exists, vars, conj_exec(valtz, rel))
}

/// The translation of an atomic formula of a rule body.
pub fn tau_b(f: &asp::AtomicFormula) -> (r: fol::Formula)
    ensures
        r@ == tau_b_formula(f@),
{
    let mut taken: Vec<fol::Variable> = Vec::new();
    assert(views(taken@) =~= Seq::<VariableModel>::empty());
    extend(&mut taken, general_named_exec(&f.variables()));
    match f {
        asp::AtomicFormula::Literal(l) => {
            if l.atom.terms.len() > 0 {
                tau_b_first_order_literal(l, &taken)
            } else {
                tau_b_propositional_literal(l)
            }
        },
        asp::AtomicFormula::Comparison(c) => tau_b_comparison(c, &taken),
    }
}

fn tau_body_exec(b: &asp::Body) -> (r: fol::Formula)
    ensures
        r@ == tau_body(b@),
{
    let ghost fs = b@.formulas;
    let mut formulas: Vec<fol::Formula> = Vec::new();
    let mut i: usize = 0;
    while i < b.formulas.len()
        invariant
            i <= b.formulas.len(),
            fs == b@.formulas,
            views(formulas@) =~= fs.map_values(|f: asp::AtomicFormulaModel| tau_b_formula(f)).take(i as int),
        decreases b.formulas.len() - i,
    {
        formulas.push(tau_b(&b.formulas[i]));
        assert(fs[i as int] == b.formulas@[i as int]@);
        assert(fs.map_values(|f: asp::AtomicFormulaModel| tau_b_formula(f)).take(i as int + 1)
            =~= fs.map_values(|f: asp::AtomicFormulaModel| tau_b_formula(f)).take(i as int).push(tau_b_formula(fs[i as int])));
        i += 1;
    }
    assert(fs.map_values(|f: asp::AtomicFormulaModel| tau_b_formula(f)).take(b.formulas.len() as int)
        =~= fs.map_values(|f: asp::AtomicFormulaModel| tau_b_formula(f)));
    fol::Formula::conjoin(formulas)
}

// ================================================================ ordering variables

pub open spec fn sort_rank(s: Sort) -> nat {
    match s {
        Sort::General => 0,
        Sort::Integer => 1,
        Sort::Symbol => 2,
    }
}

/// The order of variables: by name, character by character, then by sort.
pub open spec fn variable_less(a: VariableModel, b: VariableModel) -> bool {
    lex_less(a.name, b.name) || (a.name == b.name && sort_rank(a.sort) < sort_rank(b.sort))
}

/// Inserts `x` into the ordered `s` after the elements that do not come after it.
pub open spec fn insert_sorted(s: Seq<VariableModel>, x: VariableModel) -> Seq<VariableModel>
    decreases s.len(),
{
    if s.len() == 0 {
        seq![x]
    } else if variable_less(x, s.last()) {
        insert_sorted(s.drop_last(), x).push(s.last())
    } else {
        s.push(x)
    }
}

/// The variables in ascending order.
pub open spec fn sorted_variables(s: Seq<VariableModel>) -> Seq<VariableModel>
    decreases s.len(),
{
    if s.len() == 0 {
        s
    } else {
        insert_sorted(sorted_variables(s.drop_last()), s.last())
    }
}

fn sort_rank_exec(s: Sort) -> (r: u8)
    ensures
        r == sort_rank(s),
{
    match s {
        Sort::General => 0,
        Sort::Integer => 1,
        Sort::Symbol => 2,
    }
}

fn variable_less_exec(a: &fol::Variable, b: &fol::Variable) -> (r: bool)
    ensures
        r == variable_less(a@, b@),
{
    let c = compare_strings(&a.name, &b.name);
    if c < 0 {
        true
    } else if c > 0 {
        proof {
            if lex_less(a.name@, b.name@) {
                lemma_lex_less_asymmetric(a.name@, b.name@);
            }
        }
        false
    } else {
        sort_rank_exec(a.sort) < sort_rank_exec(b.sort)
    }
}

fn insert_sorted_exec(v: Vec<fol::Variable>, x: fol::Variable) -> (r: Vec<fol::Variable>)
    ensures
        views(r@) == insert_sorted(views(v@), x@),
    decreases v.len(),
{
    let mut v = v;
    if v.len() == 0 {
        v.push(x);
        assert(views(v@) =~= seq![x@]);
        v
    } else {
        let ghost before = views(v@);
        let last = v.pop().unwrap();
        assert(views(v@) =~= before.drop_last());
        if variable_less_exec(&x, &last) {
            let mut r = insert_sorted_exec(v, x);
            let ghost mid = views(r@);
            r.push(last);
            assert(views(r@) =~= mid.push(before.last()));
            r
        } else {
            v.push(last);
            v.push(x);
            assert(views(v@) =~= before.push(x@));
            v
        }
    }
}

/// The variables in ascending order.
fn sort_variables(v: Vec<fol::Variable>) -> (r: Vec<fol::Variable>)
    ensures
        views(r@) == sorted_variables(views(v@)),
{
    let ghost all = views(v@);
    let mut r: Vec<fol::Variable> = Vec::new();
    let mut i: usize = 0;
    assert(all.take(0) =~= Seq::<VariableModel>::empty());
    while i < v.len()
        invariant
            i <= v.len(),
            all == views(v@),
            views(r@) == sorted_variables(all.take(i as int)),
        decreases v.len() - i,
    {
        assert(all.take(i as int + 1).drop_last() =~= all.take(i as int));
        r = insert_sorted_exec(r, v[i].clone());
        i += 1;
    }
    assert(all.take(v.len() as int) =~= all);
    r
}

// ================================================================ rules

/// The atom of a head; the empty atom for a constraint.
pub open spec fn head_atom(h: asp::HeadModel) -> asp::AtomModel {
    match h {
        asp::HeadModel::Basic(a) => a,
        asp::HeadModel::Choice(a) => a,
        asp::HeadModel::Falsity => asp::AtomModel { predicate_symbol: seq![], terms: seq![] },
    }
}

/// `body` for a basic head, `body and not not head` for a choice head.
pub open spec fn choice_body(h: asp::HeadModel, body: FormulaModel, head: FormulaModel) -> FormulaModel {
    if h is Choice { conj(body, neg(neg(head))) } else { body }
}

/// A rule with a first-order head `p(t)`, using the first globals `V` for `t`:
/// `forall G V (val_t(V) and tau^B(Body) -> p(V))`, with `and not not p(V)`
/// added to the antecedent for a choice rule; `G` are the rule's variables and
/// all the variables are in ascending order.
pub open spec fn fo_head_rule(r: asp::RuleModel, globals: Seq<Seq<char>>) -> FormulaModel {
    let a = head_atom(r.head);
    let fvars = globals.take(a.terms.len() as int);
    let new_head = atom_formula(a.predicate_symbol, general_terms(fvars));
    let core = conj(conjunction_of(vals(a.terms, fvars)), tau_body(r.body));
    quantified(
        Quantifier::Forall,
        sorted_variables(general_named(r.variables()) + general_variables(fvars)),
        implication(choice_body(r.head, core, new_head), new_head),
    )
}

/// `f` universally quantified over `variables`, unless there are none.
pub open spec fn closed_over(variables: Seq<VariableModel>, f: FormulaModel) -> FormulaModel {
    if variables.len() == 0 { f } else { quantified(Quantifier::Forall, variables, f) }
}

/// A rule with a propositional head `p`: `forall G (tau^B(Body) -> p)`, with
/// `and not not p` added to the antecedent for a choice rule.
pub open spec fn prop_head_rule(r: asp::RuleModel) -> FormulaModel {
    let new_head = atom_formula(head_atom(r.head).predicate_symbol, seq![]);
    closed_over(
        sorted_variables(general_named(r.variables())),
        implication(choice_body(r.head, tau_body(r.body), new_head), new_head),
    )
}

/// A constraint: `forall G (tau^B(Body) -> #false)`.
pub open spec fn constraint_rule(r: asp::RuleModel) -> FormulaModel {
    closed_over(
        sorted_variables(general_named(r.variables())),
        implication(tau_body(r.body), FormulaModel::AtomicFormula(AtomicFormulaModel::Falsity)),
    )
}

pub open spec fn tau_star_rule(r: asp::RuleModel, globals: Seq<Seq<char>>) -> FormulaModel {
    match r.head.predicate() {
        Some(_) => if r.head.arity() > 0 { fo_head_rule(r, globals) } else { prop_head_rule(r) },
        None => constraint_rule(r),
    }
}

fn choice_body_exec(h: &asp::Head, body: fol::Formula, head: &fol::Formula) -> (r: fol::Formula)
    ensures
        r@ == choice_body(h@, body@, head@),
{
    match h {
        asp::Head::Choice(_) => conj_exec(body, neg_exec(neg_exec(head.clone()))),
        _ => body,
    }
}

fn closed_over_exec(variables: Vec<fol::Variable>, f: fol::Formula) -> (r: fol::Formula)
    ensures
        r@ == closed_over(views(variables@), f@),
{
    if variables.len() == 0 {
        f
    } else {
        quantified_exec(Quantifier::Forall, variables, f)
    }
}

fn tau_star_fo_head_rule(r: &asp::Rule, globals: &Vec<String>) -> (f: fol::Formula)
    requires
        r@.head.arity() > 0,
        r@.head.arity() <= globals.len(),
    ensures
        f@ == fo_head_rule(r@, views(globals@)),
{
    let a = match &r.head {
        asp::Head::Basic(a) | asp::Head::Choice(a) => a,
        asp::Head::Falsity => { return fol::Formula::AtomicFormula(fol::AtomicFormula::Falsity); },
    };
    let n = a.terms.len();
    let mut fvars: Vec<String> = Vec::new();
    let mut i: usize = 0;
    while i < n
        invariant
            n == a.terms.len() <= globals.len(),
            i <= n,
            views(fvars@) =~= views(globals@).take(i as int),
        decreases n - i,
    {
        fvars.push(globals[i].clone());
        assert(views(globals@).take(i as int + 1) =~= views(globals@).take(i as int).push(globals@[i as int]@));
        i += 1;
    }
    let (fo_vars, new_terms) = general_variables_exec(&fvars);
    let valtz = fol::Formula::conjoin(vals_exec(&a.terms, &fvars));
    let new_head = atom_exec(a.predicate_symbol.clone(), new_terms);
    let core = conj_exec(valtz, tau_body_exec(&r.body));
    let new_body = choice_body_exec(&r.head, core, &new_head);
    let mut gvars = general_named_exec(&r.variables());
    let ghost g0 = views(gvars@);
    let mut k: usize = 0;
    while k < fo_vars.len()
        invariant
            k <= fo_vars.len(),
            views(gvars@) =~= g0 + views(fo_vars@).take(k as int),
        decreases fo_vars.len() - k,
    {
        let ghost before = views(gvars@);
        gvars.push(fo_vars[k].clone());
        assert(views(gvars@) =~= before.push(fo_vars@[k as int]@));
        assert(views(fo_vars@).take(k as int + 1) =~= views(fo_vars@).take(k as int).push(fo_vars@[k as int]@));
        k += 1;
    }
    assert(views(fo_vars@).take(fo_vars.len() as int) =~= views(fo_vars@));
    quantified_exec(Quantifier::Forall, sort_variables(gvars), implication_exec(new_body, new_head))
}

fn tau_star_prop_head_rule(r: &asp::Rule) -> (f: fol::Formula)
    requires
        r@.head.predicate() is Some,
    ensures
        f@ == prop_head_rule(r@),
{
    let symbol = match &r.head {
        asp::Head::Basic(a) | asp::Head::Choice(a) => a.predicate_symbol.clone(),
        asp::Head::Falsity => String::new(),
    };
    let no_terms: Vec<fol::GeneralTerm> = Vec::new();
    assert(views(no_terms@) =~= Seq::<GeneralTermModel>::empty());
    let new_head = atom_exec(symbol, no_terms);
    let new_body = choice_body_exec(&r.head, tau_body_exec(&r.body), &new_head);
    closed_over_exec(sort_variables(general_named_exec(&r.variables())), implication_exec(new_body, new_head))
}

fn tau_star_constraint_rule(r: &asp::Rule) -> (f: fol::Formula)
    ensures
        f@ == constraint_rule(r@),
{
    let imp = implication_exec(tau_body_exec(&r.body), fol::Formula::AtomicFormula(fol::AtomicFormula::Falsity));
    closed_over_exec(sort_variables(general_named_exec(&r.variables())), imp)
}

fn tau_star_rule_exec(r: &asp::Rule, globals: &Vec<String>) -> (f: fol::Formula)
    requires
        r@.head.arity() <= globals.len(),
    ensures
        f@ == tau_star_rule(r@, views(globals@)),
{
    match r.head.predicate() {
        Some(_) => {
            if r.head.arity() > 0 {
                tau_star_fo_head_rule(r, globals)
            } else {
                tau_star_prop_head_rule(r)
            }
        },
        None => tau_star_constraint_rule(r),
    }
}

// ================================================================ programs

/// The digits after a leading `V`, where the name is `V` followed by digits only.
pub open spec fn v_digits(name: Seq<char>) -> Option<Seq<char>> {
    if name.len() >= 1 && name[0] == 'V' && all_digits(name.drop_first()) {
        Some(name.drop_first())
    } else {
        None
    }
}

/// The number that a variable `Vn` takes, where `n` is a decimal number that
/// fits in a machine word; zero for every other name.
pub open spec fn taken_number(name: Seq<char>) -> nat {
    match v_digits(name) {
        Some(d) => if d.len() > 0 && digits_value(d) <= usize::MAX { digits_value(d) } else { 0 },
        None => 0,
    }
}

pub open spec fn max_taken(vs: Seq<asp::VariableModel>) -> nat
    decreases vs.len(),
{
    if vs.len() == 0 {
        0
    } else {
        let m = max_taken(vs.drop_last());
        let t = taken_number(vs.last().0);
        if t > m { t } else { m }
    }
}

pub open spec fn max_head_arity(rs: Seq<asp::RuleModel>) -> nat
    decreases rs.len(),
{
    if rs.len() == 0 {
        0
    } else {
        let m = max_head_arity(rs.drop_last());
        let a = rs.last().head.arity();
        if a > m { a } else { m }
    }
}

/// The global variables `V(m+1)`, ..., `V(m+n)`, where `n` is the greatest
/// arity of a head and `m` the greatest number taken by a variable `Vm`.
pub open spec fn global_variables(p: asp::ProgramModel) -> Seq<Seq<char>> {
    Seq::new(
        max_head_arity(p.rules),
        |i: int| "V"@ + decimal((max_taken(p.variables()) + i + 1) as nat),
    )
}

/// Whether the numbers of the global variables fit in a machine word.
pub open spec fn globals_fit(p: asp::ProgramModel) -> bool {
    max_taken(p.variables()) + max_head_arity(p.rules) <= usize::MAX
}

/// A formula with an outermost universal quantifier removed.
pub open spec fn without_forall(f: FormulaModel) -> FormulaModel {
    match f {
        FormulaModel::QuantifiedFormula { quantification, formula } =>
            if quantification.quantifier == Quantifier::Forall { *formula } else { f },
        _ => f,
    }
}

/// tau* of a rule is, under universal quantifiers, an implication whose
/// consequent is `#false` for a constraint and otherwise an atom with the
/// symbol and the arity of the head; for a choice rule the antecedent ends
/// in the double negation of that atom.
pub proof fn lemma_rule_translation_shape(r: asp::RuleModel, globals: Seq<Seq<char>>)
    requires
        r.head.arity() <= globals.len(),
    ensures
        match without_forall(tau_star_rule(r, globals)) {
            FormulaModel::BinaryFormula { connective: BinaryConnective::Implication, lhs, rhs } => {
                &&& (r.head is Falsity ==> *rhs == FormulaModel::AtomicFormula(AtomicFormulaModel::Falsity))
                &&& (!(r.head is Falsity) ==> match *rhs {
                    FormulaModel::AtomicFormula(AtomicFormulaModel::Atom(a)) =>
                        a.predicate_symbol == head_atom(r.head).predicate_symbol && a.terms.len() == r.head.arity(),
                    _ => false,
                })
                &&& (r.head is Choice ==> match *lhs {
                    FormulaModel::BinaryFormula { connective: BinaryConnective::Conjunction, rhs: last, .. } =>
                        *last == neg(neg(*rhs)),
                    _ => false,
                })
            },
            _ => false,
        },
{
    let n = r.head.arity();
    assert(globals.take(n as int).len() == n);
    match r.head {
        asp::HeadModel::Falsity => {},
        _ => {
            if n > 0 {
                assert(general_terms(globals.take(n as int)).len() == n);
            }
        },
    }
}

/// tau* of a program: one formula for each rule.
pub open spec fn tau_star_theory(p: asp::ProgramModel) -> fol::TheoryModel {
    fol::TheoryModel {
        formulas: p.rules.map_values(|r: asp::RuleModel| tau_star_rule(r, global_variables(p))),
    }
}

/// `regex::Regex::captures` with the pattern `^V(?<number>[0-9]*)$` on `name`,
/// giving the text of the group `number`: the pattern matches exactly the
/// names made of `V` and ASCII digits only, and the group holds those digits.
#[verifier::external_body]
fn v_number_digits(name: &str) -> (r: Option<String>)
    ensures
        r is Some <==> v_digits(name@) is Some,
        r matches Some(d) ==> v_digits(name@) == Some(d@),
{
    let re = regex::Regex::new(r"^V(?<number>[0-9]*)$").unwrap();
    re.captures(name).map(|caps| caps["number"].to_string())
}

/// The value of a decimal numeral, if it is one and fits in a machine word.
fn parse_number(digits: &String) -> (r: Option<usize>)
    requires
        all_digits(digits@),
    ensures
        r is Some <==> digits@.len() > 0 && digits_value(digits@) <= usize::MAX,
        r matches Some(v) ==> v == digits_value(digits@),
{
    let cs = chars_of(digits.as_str());
    if cs.len() == 0 {
        return None;
    }
    let mut v: usize = 0;
    let mut i: usize = 0;
    while i < cs.len()
        invariant
            i <= cs.len(),
            cs@ == digits@,
            all_digits(cs@),
            v == digits_value(cs@.take(i as int)),
        decreases cs.len() - i,
    {
        assert('0' <= cs@[i as int] && cs@[i as int] <= '9');
        let d = (cs[i] as u32 - '0' as u32) as usize;
        assert(cs@.take(i as int + 1).drop_last() =~= cs@.take(i as int));
        if v > (usize::MAX - d) / 10 {
            proof {
                lemma_digits_value_prefix(cs@, i as int + 1);
            }
            return None;
        }
        v = v * 10 + d;
        i += 1;
    }
    assert(cs@.take(cs.len() as int) =~= cs@);
    Some(v)
}

fn taken_number_exec(name: &String) -> (r: usize)
    ensures
        r == taken_number(name@),
{
    match v_number_digits(name.as_str()) {
        Some(d) => match parse_number(&d) {
            Some(v) => v,
            None => 0,
        },
        None => 0,
    }
}

/// The greatest arity of a head of the program.
fn head_arity_bound(program: &asp::Program) -> (r: usize)
    ensures
        r == max_head_arity(program@.rules),
{
    let ghost rs = program@.rules;
    let mut max_arity: usize = 0;
    let mut i: usize = 0;
    while i < program.rules.len()
        invariant
            i <= program.rules.len(),
            rs == program@.rules,
            max_arity == max_head_arity(rs.take(i as int)),
        decreases program.rules.len() - i,
    {
        assert(rs.take(i as int + 1).drop_last() =~= rs.take(i as int));
        let head_arity = program.rules[i].head.arity();
        if head_arity > max_arity {
            max_arity = head_arity;
        }
        i += 1;
    }
    assert(rs.take(program.rules.len() as int) =~= rs);
    max_arity
}

/// The greatest number `n` of a variable `Vn` of the program.
fn taken_bound(program: &asp::Program) -> (r: usize)
    ensures
        r == max_taken(program@.variables()),
{
    let taken_vars = program.variables();
    let ghost vs = views(taken_vars@);
    let mut max_taken_var: usize = 0;
    let mut k: usize = 0;
    while k < taken_vars.len()
        invariant
            k <= taken_vars.len(),
            vs == views(taken_vars@),
            max_taken_var == max_taken(vs.take(k as int)),
        decreases taken_vars.len() - k,
    {
        assert(vs.take(k as int + 1).drop_last() =~= vs.take(k as int));
        let taken = taken_number_exec(&taken_vars[k].0);
        if taken > max_taken_var {
            max_taken_var = taken;
        }
        k += 1;
    }
    assert(vs.take(taken_vars.len() as int) =~= vs);
    max_taken_var
}

/// Whether the numbers of the global variables that tau* chooses for the
/// program fit into a machine word.
pub fn global_variables_fit(program: &asp::Program) -> (r: bool)
    ensures
        r == globals_fit(program@),
{
    let m = taken_bound(program);
    let n = head_arity_bound(program);
    m.checked_add(n).is_some()
}

/// Chooses the global variables `V(m+1)`, ..., `V(m+n)` of a program.
fn choose_fresh_global_variables(program: &asp::Program) -> (r: Vec<String>)
    requires
        globals_fit(program@),
    ensures
        views(r@) == global_variables(program@),
{
    let max_arity = head_arity_bound(program);
    let max_taken_var = taken_bound(program);
    let ghost target = global_variables(program@);
    let mut globals: Vec<String> = Vec::new();
    let mut n: usize = 0;
    while n < max_arity
        invariant
            n <= max_arity,
            max_arity == max_head_arity(program@.rules),
            max_taken_var == max_taken(program@.variables()),
            target == global_variables(program@),
            views(globals@) =~= target.take(n as int),
        decreases max_arity - n,
    {
        let v = numbered("V", max_taken_var as u128 + n as u128 + 1);
        assert(v@ == target[n as int]);
        globals.push(v);
        assert(target.take(n as int + 1) =~= target.take(n as int).push(target[n as int]));
        n += 1;
    }
    assert(target.take(max_arity as int) =~= target);
    globals
}

proof fn lemma_max_head_arity(rs: Seq<asp::RuleModel>, k: int)
    requires
        0 <= k < rs.len(),
    ensures
        rs[k].head.arity() <= max_head_arity(rs),
    decreases rs.len(),
{
    if k < rs.len() - 1 {
        lemma_max_head_arity(rs.drop_last(), k);
        assert(rs.drop_last()[k] == rs[k]);
    }
}

/// Translates a program into a first-order theory by tau*: one formula for
/// each rule, in the order of the rules.
pub fn tau_star(p: asp::Program) -> (r: fol::Theory)
    requires
        globals_fit(p@),
    ensures
        r@ == tau_star_theory(p@),
{
    let globals = choose_fresh_global_variables(&p);
    let ghost rs = p@.rules;
    let ghost g = global_variables(p@);
    let mut formulas: Vec<fol::Formula> = Vec::new();
    let mut i: usize = 0;
    while i < p.rules.len()
        invariant
            i <= p.rules.len(),
            rs == p@.rules,
            views(globals@) == g,
            g == global_variables(p@),
            formulas.len() == i,
            forall|k: int| 0 <= k < i ==> #[trigger] formulas@[k]@ == tau_star_rule(rs[k], g),
        decreases p.rules.len() - i,
    {
        proof {
            lemma_max_head_arity(rs, i as int);
        }
        assert(rs[i as int] == p.rules@[i as int]@);
        assert(views(globals@).len() == globals.len());
        assert(g.len() == max_head_arity(rs));
        assert(p.rules@[i as int]@.head.arity() <= globals.len());
        formulas.push(tau_star_rule_exec(&p.rules[i], &globals));
        i += 1;
    }
    assert(views(formulas@) =~= rs.map_values(|r: asp::RuleModel| tau_star_rule(r, g)));
    fol::Theory { formulas }
}

} // verus!
