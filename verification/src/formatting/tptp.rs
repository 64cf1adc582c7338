//! The TPTP form of first-order formulas, in the typed first-order language
//! that automated theorem provers read: every term is typed as general,
//! integer (`$int`) or symbolic, integers and symbols are embedded into the
//! general sort, and comparisons become conjunctions of single comparisons.

use crate::convenience::sets::views;
use crate::convenience::text::{decimal, push_decimal};
use crate::formatting::fol::wrap;
use crate::syntax_tree::fol::{
    Atom, AtomModel, AtomicFormula, AtomicFormulaModel, BinaryConnective, BinaryOperator,
    Comparison, ComparisonModel, Formula, FormulaModel, FunctionConstant, FunctionConstantModel,
    GeneralTerm, GeneralTermModel, Guard, GuardModel, IntegerTerm, IntegerTermModel,
    Quantification, QuantificationModel, Quantifier, Relation, Sort, SymbolicTerm,
    SymbolicTermModel, Variable, VariableModel,
};
use vstd::prelude::*;

verus! {

// ================================================================ the text, as a specification

pub open spec fn operator_name(op: BinaryOperator) -> Seq<char> {
    match op {
        BinaryOperator::Add => "$sum"@,
        BinaryOperator::Subtract => "$difference"@,
        BinaryOperator::Multiply => "$product"@,
    }
}

/// An integer term in prefix notation; a negative numeral is the negation of
/// its absolute value.
pub open spec fn integer_text(t: IntegerTermModel) -> Seq<char>
    decreases t,
{
    match t {
        IntegerTermModel::Numeral(n) =>
            if n < 0 { "$uminus("@ + decimal((-n) as nat) + ")"@ } else { decimal(n as nat) },
        IntegerTermModel::Variable(v) => v + "_i"@,
        IntegerTermModel::FunctionConstant(c) => c + "_i"@,
        IntegerTermModel::UnaryOperation { arg, .. } => "$uminus("@ + integer_text(*arg) + ")"@,
        IntegerTermModel::BinaryOperation { op, lhs, rhs } =>
            operator_name(op) + "("@ + integer_text(*lhs) + ", "@ + integer_text(*rhs) + ")"@,
    }
}

pub open spec fn symbolic_text(t: SymbolicTermModel) -> Seq<char> {
    match t {
        SymbolicTermModel::Symbol(s) => s,
        SymbolicTermModel::FunctionConstant(c) => c + "_s"@,
        SymbolicTermModel::Variable(v) => v + "_s"@,
    }
}

/// A general term; integer and symbolic terms are embedded by the functions
/// `f__integer__` and `f__symbolic__`.
pub open spec fn general_text(t: GeneralTermModel) -> Seq<char> {
    match t {
        GeneralTermModel::Infimum => "c__infimum__"@,
        GeneralTermModel::Supremum => "c__supremum__"@,
        GeneralTermModel::FunctionConstant(c) => c + "_g"@,
        GeneralTermModel::Variable(v) => v + "_g"@,
        GeneralTermModel::IntegerTerm(t) => "f__integer__("@ + integer_text(t) + ")"@,
        GeneralTermModel::SymbolicTerm(t) => "f__symbolic__("@ + symbolic_text(t) + ")"@,
    }
}

pub open spec fn terms_text(ts: Seq<GeneralTermModel>) -> Seq<char>
    decreases ts.len(),
{
    if ts.len() == 0 {
        seq![]
    } else if ts.len() == 1 {
        general_text(ts[0])
    } else {
        terms_text(ts.drop_last()) + ", "@ + general_text(ts.last())
    }
}

pub open spec fn atom_text(a: AtomModel) -> Seq<char> {
    if a.terms.len() == 0 {
        a.predicate_symbol
    } else {
        a.predicate_symbol + "("@ + terms_text(a.terms) + ")"@
    }
}

pub open spec fn is_equality(r: Relation) -> bool {
    r == Relation::Equal || r == Relation::NotEqual
}

/// The relation between integers: the built-in arithmetic predicates.
pub open spec fn integer_relation_text(r: Relation) -> Seq<char> {
    match r {
        Relation::Equal => "="@,
        Relation::NotEqual => "!="@,
        Relation::GreaterEqual => "$greatereq"@,
        Relation::LessEqual => "$lesseq"@,
        Relation::Greater => "$greater"@,
        Relation::Less => "$less"@,
    }
}

/// The relation between general terms: the predicates of the preamble.
pub open spec fn general_relation_text(r: Relation) -> Seq<char> {
    match r {
        Relation::Equal => "="@,
        Relation::NotEqual => "!="@,
        Relation::GreaterEqual => "p__greater_equal__"@,
        Relation::LessEqual => "p__less_equal__"@,
        Relation::Greater => "p__greater__"@,
        Relation::Less => "p__less__"@,
    }
}

/// Distinct relations between general terms are written as distinct predicates.
pub proof fn lemma_general_relations_distinct(r1: Relation, r2: Relation)
    requires
        r1 != r2,
    ensures
        general_relation_text(r1) != general_relation_text(r2),
{
    reveal_strlit("=");
    reveal_strlit("!=");
    reveal_strlit("p__greater_equal__");
    reveal_strlit("p__less_equal__");
    reveal_strlit("p__greater__");
    reveal_strlit("p__less__");
    assert(general_relation_text(r1).len() != general_relation_text(r2).len()
        || general_relation_text(r1)[3] != general_relation_text(r2)[3]
        || general_relation_text(r1)[0] != general_relation_text(r2)[0]);
}

/// The predicate written for an order between general terms says which way
/// it goes and whether it holds of equal terms, as the relation's own sign
/// does: `p__greater` for a sign that begins with `>`, `p__less` for one that
/// begins with `<`, and an ending `_equal__` for a sign that ends in `=`.
pub proof fn lemma_general_order_names(r: Relation)
    requires
        r != Relation::Equal,
        r != Relation::NotEqual,
    ensures
        "p__greater"@.is_prefix_of(general_relation_text(r)) <==> crate::formatting::fol::relation_text(r)[0] == '>',
        "p__less"@.is_prefix_of(general_relation_text(r)) <==> crate::formatting::fol::relation_text(r)[0] == '<',
        "_equal__"@.is_suffix_of(general_relation_text(r)) <==> crate::formatting::fol::relation_text(r).last() == '=',
{
    reveal_strlit("p__greater");
    reveal_strlit("p__less");
    reveal_strlit("_equal__");
    reveal_strlit("p__greater_equal__");
    reveal_strlit("p__less_equal__");
    reveal_strlit("p__greater__");
    reveal_strlit("p__less__");
    reveal_strlit(">=");
    reveal_strlit("<=");
    reveal_strlit(">");
    reveal_strlit("<");
    let g = general_relation_text(r);
    let gr = "p__greater"@;
    let le = "p__less"@;
    let eq = "_equal__"@;
    match r {
        Relation::GreaterEqual => {
            assert(g.subrange(0, 10) =~= gr);
            assert(g[3] != le[3]);
            assert(g.subrange(g.len() - 8, g.len() as int) =~= eq);
        },
        Relation::LessEqual => {
            assert(g[3] != gr[3]);
            assert(g.subrange(0, 7) =~= le);
            assert(g.subrange(g.len() - 8, g.len() as int) =~= eq);
        },
        Relation::Greater => {
            assert(g.subrange(0, 10) =~= gr);
            assert(g[3] != le[3]);
            assert(g[g.len() - 8] != eq[0]);
        },
        Relation::Less => {
            assert(g[3] != gr[3]);
            assert(g.subrange(0, 7) =~= le);
            assert(g[g.len() - 7] != eq[1]);
        },
        _ => {},
    }
}

/// Distinct relations between integers are written as distinct predicates.
pub proof fn lemma_integer_relations_distinct(r1: Relation, r2: Relation)
    requires
        r1 != r2,
    ensures
        integer_relation_text(r1) != integer_relation_text(r2),
{
    reveal_strlit("=");
    reveal_strlit("!=");
    reveal_strlit("$greatereq");
    reveal_strlit("$lesseq");
    reveal_strlit("$greater");
    reveal_strlit("$less");
    assert(integer_relation_text(r1).len() != integer_relation_text(r2).len()
        || integer_relation_text(r1)[1] != integer_relation_text(r2)[1]
        || integer_relation_text(r1)[0] != integer_relation_text(r2)[0]);
}

/// The built-in predicate written for an order between integers says which
/// way it goes and whether it holds of equal integers, as the relation's own
/// sign does: `$greater` for a sign that begins with `>`, `$less` for one that
/// begins with `<`, and an ending `eq` for a sign that ends in `=`.
pub proof fn lemma_integer_order_names(r: Relation)
    requires
        r != Relation::Equal,
        r != Relation::NotEqual,
    ensures
        "$greater"@.is_prefix_of(integer_relation_text(r)) <==> crate::formatting::fol::relation_text(r)[0] == '>',
        "$less"@.is_prefix_of(integer_relation_text(r)) <==> crate::formatting::fol::relation_text(r)[0] == '<',
        "eq"@.is_suffix_of(integer_relation_text(r)) <==> crate::formatting::fol::relation_text(r).last() == '=',
{
    reveal_strlit("$greater");
    reveal_strlit("$less");
    reveal_strlit("eq");
    reveal_strlit("$greatereq");
    reveal_strlit("$lesseq");
    reveal_strlit(">=");
    reveal_strlit("<=");
    reveal_strlit(">");
    reveal_strlit("<");
    let g = integer_relation_text(r);
    let gr = "$greater"@;
    let le = "$less"@;
    let eq = "eq"@;
    match r {
        Relation::GreaterEqual => {
            assert(g.subrange(0, 8) =~= gr);
            assert(g[1] != le[1]);
            assert(g.subrange(g.len() - 2, g.len() as int) =~= eq);
        },
        Relation::LessEqual => {
            assert(g[1] != gr[1]);
            assert(g.subrange(0, 5) =~= le);
            assert(g.subrange(g.len() - 2, g.len() as int) =~= eq);
        },
        Relation::Greater => {
            assert(g.subrange(0, 8) =~= gr);
            assert(g[1] != le[1]);
            assert(g[g.len() - 1] != eq[1]);
        },
        Relation::Less => {
            assert(g[1] != gr[1]);
            assert(g.subrange(0, 5) =~= le);
            assert(g[g.len() - 1] != eq[1]);
        },
        _ => {},
    }
}

/// A single comparison `lhs relation rhs`: between integers with the
/// arithmetic predicates, between symbols by equality alone, and otherwise
/// between the general embeddings; equality is infix, the rest prefix.
pub open spec fn individual_text(lhs: GeneralTermModel, r: Relation, rhs: GeneralTermModel) -> Seq<char> {
    match (lhs, rhs) {
        (GeneralTermModel::IntegerTerm(l), GeneralTermModel::IntegerTerm(t)) =>
            if is_equality(r) {
                integer_text(l) + " "@ + integer_relation_text(r) + " "@ + integer_text(t)
            } else {
                integer_relation_text(r) + "("@ + integer_text(l) + ", "@ + integer_text(t) + ")"@
            },
        (GeneralTermModel::SymbolicTerm(l), GeneralTermModel::SymbolicTerm(t)) if is_equality(r) =>
            symbolic_text(l) + " "@ + general_relation_text(r) + " "@ + symbolic_text(t),
        _ =>
            if is_equality(r) {
                general_text(lhs) + " "@ + general_relation_text(r) + " "@ + general_text(rhs)
            } else {
                general_relation_text(r) + "("@ + general_text(lhs) + ", "@ + general_text(rhs) + ")"@
            },
    }
}

/// The chain `term g1 t1 g2 t2 ...` as the conjunction of `term g1 t1`,
/// `t1 g2 t2`, and so on.
pub open spec fn individuals_text(term: GeneralTermModel, guards: Seq<GuardModel>) -> Seq<char>
    decreases guards.len(),
{
    if guards.len() == 0 {
        seq![]
    } else if guards.len() == 1 {
        individual_text(term, guards[0].relation, guards[0].term)
    } else {
        individuals_text(term, guards.drop_last()) + " & "@
            + individual_text(guards[guards.len() - 2].term, guards.last().relation, guards.last().term)
    }
}

pub open spec fn comparison_text(c: ComparisonModel) -> Seq<char> {
    individuals_text(c.term, c.guards)
}

pub open spec fn atomic_text(a: AtomicFormulaModel) -> Seq<char> {
    match a {
        AtomicFormulaModel::Truth => "$true"@,
        AtomicFormulaModel::Falsity => "$false"@,
        AtomicFormulaModel::Atom(a) => atom_text(a),
        AtomicFormulaModel::Comparison(c) => comparison_text(c),
    }
}

pub open spec fn sort_suffix(s: Sort) -> Seq<char> {
    match s {
        Sort::General => "_g"@,
        Sort::Integer => "_i"@,
        Sort::Symbol => "_s"@,
    }
}

/// The type of a sort.
pub open spec fn sort_type(s: Sort) -> Seq<char> {
    match s {
        Sort::General => "general"@,
        Sort::Integer => "$int"@,
        Sort::Symbol => "symbol"@,
    }
}

pub open spec fn variable_text(v: VariableModel) -> Seq<char> {
    v.name + sort_suffix(v.sort)
}

pub open spec fn function_constant_text(c: FunctionConstantModel) -> Seq<char> {
    c.name + sort_suffix(c.sort)
}

/// A typed variable: `X_i: $int`.
pub open spec fn typed_variable_text(v: VariableModel) -> Seq<char> {
    variable_text(v) + ": "@ + sort_type(v.sort)
}

pub open spec fn typed_variables_text(vs: Seq<VariableModel>) -> Seq<char>
    decreases vs.len(),
{
    if vs.len() == 0 {
        seq![]
    } else if vs.len() == 1 {
        typed_variable_text(vs[0])
    } else {
        typed_variables_text(vs.drop_last()) + ", "@ + typed_variable_text(vs.last())
    }
}

pub open spec fn quantifier_text(q: Quantifier) -> Seq<char> {
    match q {
        Quantifier::Forall => "!"@,
        Quantifier::Exists => "?"@,
    }
}

/// A quantification: `![X_i: $int, Y_g: general]`.
pub open spec fn quantification_text(q: QuantificationModel) -> Seq<char> {
    quantifier_text(q.quantifier) + "["@ + typed_variables_text(q.variables) + "]"@
}

pub open spec fn connective_text(c: BinaryConnective) -> Seq<char> {
    match c {
        BinaryConnective::Equivalence => "<=>"@,
        BinaryConnective::Implication => "=>"@,
        BinaryConnective::ReverseImplication => "<="@,
        BinaryConnective::Conjunction => "&"@,
        BinaryConnective::Disjunction => "|"@,
    }
}

/// Negations and binary formulas are parenthesized as operands.
pub open spec fn compound(f: FormulaModel) -> bool {
    f is UnaryFormula || f is BinaryFormula
}

/// A formula: a negation is `~` before its operand, parenthesized unless
/// atomic; the body of a quantified formula is always parenthesized; an
/// operand of a binary connective is parenthesized if it is a negation or a
/// binary formula.
pub open spec fn formula_text(f: FormulaModel) -> Seq<char>
    decreases f,
{
    match f {
        FormulaModel::AtomicFormula(a) => atomic_text(a),
        FormulaModel::UnaryFormula { formula, .. } =>
            "~"@ + wrap(formula_text(*formula), !(*formula is AtomicFormula)),
        FormulaModel::QuantifiedFormula { quantification, formula } =>
            quantification_text(quantification) + ": ("@ + formula_text(*formula) + ")"@,
        FormulaModel::BinaryFormula { connective, lhs, rhs } =>
            wrap(formula_text(*lhs), compound(*lhs)) + " "@ + connective_text(connective) + " "@
                + wrap(formula_text(*rhs), compound(*rhs)),
    }
}

// ================================================================ executable

fn append(out: &mut String, s: &str)
    ensures
        final(out)@ == old(out)@ + s@,
{
    out.append(s);
}

fn write_operator_name(out: &mut String, op: BinaryOperator)
    ensures
        final(out)@ == old(out)@ + operator_name(op),
{
    match op {
        BinaryOperator::Add => append(out, "$sum"),
        BinaryOperator::Subtract => append(out, "$difference"),
        BinaryOperator::Multiply => append(out, "$product"),
    }
}

fn write_integer_term(out: &mut String, t: &IntegerTerm)
    ensures
        final(out)@ == old(out)@ + integer_text(t@),
    decreases t,
{
    match t {
        IntegerTerm::Numeral(n) => {
            if *n < 0 {
                append(out, "$uminus(");
                let m: i128 = -(*n as i128);
                push_decimal(out, m as u128);
                append(out, ")");
            } else {
                push_decimal(out, *n as u128);
            }
        },
        IntegerTerm::Variable(v) => {
            append(out, v.as_str());
            append(out, "_i");
        },
        IntegerTerm::FunctionConstant(c) => {
            append(out, c.as_str());
            append(out, "_i");
        },
        IntegerTerm::UnaryOperation { arg, .. } => {
            append(out, "$uminus(");
            write_integer_term(out, &**arg);
            append(out, ")");
        },
        IntegerTerm::BinaryOperation { op, lhs, rhs } => {
            write_operator_name(out, *op);
            append(out, "(");
            write_integer_term(out, &**lhs);
            append(out, ", ");
            write_integer_term(out, &**rhs);
            append(out, ")");
        },
    }
    assert(final(out)@ =~= old(out)@ + integer_text(t@));
}

/// The TPTP text of an integer term.
pub fn format_integer_term(t: &IntegerTerm) -> (r: String)
    ensures
        r@ == integer_text(t@),
{
    let mut out = String::new();
    write_integer_term(&mut out, t);
    assert(out@ =~= integer_text(t@));
    out
}

fn write_symbolic_term(out: &mut String, t: &SymbolicTerm)
    ensures
        final(out)@ == old(out)@ + symbolic_text(t@),
{
    match t {
        SymbolicTerm::Symbol(s) => append(out, s.as_str()),
        SymbolicTerm::FunctionConstant(c) => {
            append(out, c.as_str());
            append(out, "_s");
        },
        SymbolicTerm::Variable(v) => {
            append(out, v.as_str());
            append(out, "_s");
        },
    }
    assert(final(out)@ =~= old(out)@ + symbolic_text(t@));
}

/// The TPTP text of a symbolic term.
pub fn format_symbolic_term(t: &SymbolicTerm) -> (r: String)
    ensures
        r@ == symbolic_text(t@),
{
    let mut out = String::new();
    write_symbolic_term(&mut out, t);
    assert(out@ =~= symbolic_text(t@));
    out
}

fn write_general_term(out: &mut String, t: &GeneralTerm)
    ensures
        final(out)@ == old(out)@ + general_text(t@),
{
    match t {
        GeneralTerm::Infimum => append(out, "c__infimum__"),
        GeneralTerm::Supremum => append(out, "c__supremum__"),
        GeneralTerm::FunctionConstant(c) => {
            append(out, c.as_str());
            append(out, "_g");
        },
        GeneralTerm::Variable(v) => {
            append(out, v.as_str());
            append(out, "_g");
        },
        GeneralTerm::IntegerTerm(i) => {
            append(out, "f__integer__(");
            write_integer_term(out, i);
            append(out, ")");
        },
        GeneralTerm::SymbolicTerm(s) => {
            append(out, "f__symbolic__(");
            write_symbolic_term(out, s);
            append(out, ")");
        },
    }
    assert(final(out)@ =~= old(out)@ + general_text(t@));
}

/// The TPTP text of a general term.
pub fn format_general_term(t: &GeneralTerm) -> (r: String)
    ensures
        r@ == general_text(t@),
{
    let mut out = String::new();
    write_general_term(&mut out, t);
    assert(out@ =~= general_text(t@));
    out
}

fn write_atom(out: &mut String, a: &Atom)
    ensures
        final(out)@ == old(out)@ + atom_text(a@),
{
    append(out, a.predicate_symbol.as_str());
    if a.terms.len() > 0 {
        append(out, "(");
        let ghost start = out@;
        let mut i: usize = 0;
        while i < a.terms.len()
            invariant
                i <= a.terms.len(),
                out@ == start + terms_text(views(a.terms@).take(i as int)),
            decreases a.terms.len() - i,
        {
            let ghost ts = views(a.terms@).take(i as int + 1);
            assert(ts.drop_last() =~= views(a.terms@).take(i as int));
            if i > 0 {
                append(out, ", ");
            }
            write_general_term(out, &a.terms[i]);
            assert(out@ =~= start + terms_text(ts));
            i += 1;
        }
        assert(views(a.terms@).take(a.terms.len() as int) =~= views(a.terms@));
        append(out, ")");
        assert(final(out)@ =~= old(out)@ + atom_text(a@));
    }
}

/// The TPTP text of an atom.
pub fn format_atom(a: &Atom) -> (r: String)
    ensures
        r@ == atom_text(a@),
{
    let mut out = String::new();
    write_atom(&mut out, a);
    assert(out@ =~= atom_text(a@));
    out
}

fn write_integer_relation(out: &mut String, r: Relation)
    ensures
        final(out)@ == old(out)@ + integer_relation_text(r),
{
    match r {
        Relation::Equal => append(out, "="),
        Relation::NotEqual => append(out, "!="),
        Relation::GreaterEqual => append(out, "$greatereq"),
        Relation::LessEqual => append(out, "$lesseq"),
        Relation::Greater => append(out, "$greater"),
        Relation::Less => append(out, "$less"),
    }
}

fn write_general_relation(out: &mut String, r: Relation)
    ensures
        final(out)@ == old(out)@ + general_relation_text(r),
{
    match r {
        Relation::Equal => append(out, "="),
        Relation::NotEqual => append(out, "!="),
        Relation::GreaterEqual => append(out, "p__greater_equal__"),
        Relation::LessEqual => append(out, "p__less_equal__"),
        Relation::Greater => append(out, "p__greater__"),
        Relation::Less => append(out, "p__less__"),
    }
}

fn equality(r: Relation) -> (b: bool)
    ensures
        b == is_equality(r),
{
    matches!(r, Relation::Equal | Relation::NotEqual)
}

fn write_general_individual(out: &mut String, lhs: &GeneralTerm, r: Relation, rhs: &GeneralTerm)
    ensures
        final(out)@ == old(out)@ + (if is_equality(r) {
            general_text(lhs@) + " "@ + general_relation_text(r) + " "@ + general_text(rhs@)
        } else {
            general_relation_text(r) + "("@ + general_text(lhs@) + ", "@ + general_text(rhs@) + ")"@
        }),
{
    if equality(r) {
        write_general_term(out, lhs);
        append(out, " ");
        write_general_relation(out, r);
        append(out, " ");
        write_general_term(out, rhs);
    } else {
        write_general_relation(out, r);
        append(out, "(");
        write_general_term(out, lhs);
        append(out, ", ");
        write_general_term(out, rhs);
        append(out, ")");
    }
    assert(final(out)@ =~= old(out)@ + (if is_equality(r) {
        general_text(lhs@) + " "@ + general_relation_text(r) + " "@ + general_text(rhs@)
    } else {
        general_relation_text(r) + "("@ + general_text(lhs@) + ", "@ + general_text(rhs@) + ")"@
    }));
}

fn write_individual(out: &mut String, lhs: &GeneralTerm, r: Relation, rhs: &GeneralTerm)
    ensures
        final(out)@ == old(out)@ + individual_text(lhs@, r, rhs@),
{
    match (lhs, rhs) {
        (GeneralTerm::IntegerTerm(l), GeneralTerm::IntegerTerm(t)) => {
            if equality(r) {
                write_integer_term(out, l);
                append(out, " ");
                write_integer_relation(out, r);
                append(out, " ");
                write_integer_term(out, t);
            } else {
                write_integer_relation(out, r);
                append(out, "(");
                write_integer_term(out, l);
                append(out, ", ");
                write_integer_term(out, t);
                append(out, ")");
            }
            assert(final(out)@ =~= old(out)@ + individual_text(lhs@, r, rhs@));
        },
        (GeneralTerm::SymbolicTerm(l), GeneralTerm::SymbolicTerm(t)) => {
            if equality(r) {
                write_symbolic_term(out, l);
                append(out, " ");
                write_general_relation(out, r);
                append(out, " ");
                write_symbolic_term(out, t);
                assert(final(out)@ =~= old(out)@ + individual_text(lhs@, r, rhs@));
            } else {
                write_general_individual(out, lhs, r, rhs);
            }
        },
        _ => write_general_individual(out, lhs, r, rhs),
    }
}

#[verifier::rlimit(40)]
fn write_comparison(out: &mut String, c: &Comparison)
    ensures
        final(out)@ == old(out)@ + comparison_text(c@),
{
    let ghost start = out@;
    let ghost gs = views(c.guards@);
    let mut i: usize = 0;
    while i < c.guards.len()
        invariant
            i <= c.guards.len(),
            gs == views(c.guards@),
            out@ == start + individuals_text(c@.term, gs.take(i as int)),
        decreases c.guards.len() - i,
    {
        let ghost next = gs.take(i as int + 1);
        assert(next.drop_last() =~= gs.take(i as int));
        if i > 0 {
            append(out, " & ");
            write_individual(out, &c.guards[i - 1].term, c.guards[i].relation, &c.guards[i].term);
        } else {
            write_individual(out, &c.term, c.guards[i].relation, &c.guards[i].term);
        }
        assert(out@ =~= start + individuals_text(c@.term, next));
        i += 1;
    }
    assert(gs.take(c.guards.len() as int) =~= gs);
    assert(final(out)@ =~= old(out)@ + comparison_text(c@));
}

/// The TPTP text of a comparison: the conjunction of its single comparisons.
pub fn format_comparison(c: &Comparison) -> (r: String)
    ensures
        r@ == comparison_text(c@),
{
    let mut out = String::new();
    write_comparison(&mut out, c);
    assert(out@ =~= comparison_text(c@));
    out
}

fn write_atomic_formula(out: &mut String, a: &AtomicFormula)
    ensures
        final(out)@ == old(out)@ + atomic_text(a@),
{
    match a {
        AtomicFormula::Truth => append(out, "$true"),
        AtomicFormula::Falsity => append(out, "$false"),
        AtomicFormula::Atom(a) => write_atom(out, a),
        AtomicFormula::Comparison(c) => write_comparison(out, c),
    }
}

fn write_sort_suffix(out: &mut String, s: Sort)
    ensures
        final(out)@ == old(out)@ + sort_suffix(s),
{
    match s {
        Sort::General => append(out, "_g"),
        Sort::Integer => append(out, "_i"),
        Sort::Symbol => append(out, "_s"),
    }
}

pub(crate) fn write_sort_type(out: &mut String, s: Sort)
    ensures
        final(out)@ == old(out)@ + sort_type(s),
{
    match s {
        Sort::General => append(out, "general"),
        Sort::Integer => append(out, "$int"),
        Sort::Symbol => append(out, "symbol"),
    }
}

pub(crate) fn write_function_constant(out: &mut String, c: &FunctionConstant)
    ensures
        final(out)@ == old(out)@ + function_constant_text(c@),
{
    append(out, c.name.as_str());
    write_sort_suffix(out, c.sort);
    assert(final(out)@ =~= old(out)@ + function_constant_text(c@));
}

/// The TPTP name of a function constant: its name and its sort.
pub fn format_function_constant(c: &FunctionConstant) -> (r: String)
    ensures
        r@ == function_constant_text(c@),
{
    let mut out = String::new();
    write_function_constant(&mut out, c);
    assert(out@ =~= function_constant_text(c@));
    out
}

fn write_typed_variable(out: &mut String, v: &Variable)
    ensures
        final(out)@ == old(out)@ + typed_variable_text(v@),
{
    append(out, v.name.as_str());
    write_sort_suffix(out, v.sort);
    append(out, ": ");
    write_sort_type(out, v.sort);
    assert(final(out)@ =~= old(out)@ + typed_variable_text(v@));
}

fn write_quantification(out: &mut String, q: &Quantification)
    ensures
        final(out)@ == old(out)@ + quantification_text(q@),
{
    match q.quantifier {
        Quantifier::Forall => append(out, "!"),
        Quantifier::Exists => append(out, "?"),
    }
    append(out, "[");
    let ghost start = out@;
    let mut i: usize = 0;
    while i < q.variables.len()
        invariant
            i <= q.variables.len(),
            out@ == start + typed_variables_text(views(q.variables@).take(i as int)),
        decreases q.variables.len() - i,
    {
        let ghost vs = views(q.variables@).take(i as int + 1);
        assert(vs.drop_last() =~= views(q.variables@).take(i as int));
        if i > 0 {
            append(out, ", ");
        }
        write_typed_variable(out, &q.variables[i]);
        assert(out@ =~= start + typed_variables_text(vs));
        i += 1;
    }
    assert(views(q.variables@).take(q.variables.len() as int) =~= views(q.variables@));
    append(out, "]");
    assert(final(out)@ =~= old(out)@ + quantification_text(q@));
}

/// The TPTP text of a quantification.
pub fn format_quantification(q: &Quantification) -> (r: String)
    ensures
        r@ == quantification_text(q@),
{
    let mut out = String::new();
    write_quantification(&mut out, q);
    assert(out@ =~= quantification_text(q@));
    out
}

fn write_connective(out: &mut String, c: BinaryConnective)
    ensures
        final(out)@ == old(out)@ + connective_text(c),
{
    match c {
        BinaryConnective::Equivalence => append(out, "<=>"),
        BinaryConnective::Implication => append(out, "=>"),
        BinaryConnective::ReverseImplication => append(out, "<="),
        BinaryConnective::Conjunction => append(out, "&"),
        BinaryConnective::Disjunction => append(out, "|"),
    }
}

fn is_compound(f: &Formula) -> (b: bool)
    ensures
        b == compound(f@),
{
    matches!(f, Formula::UnaryFormula { .. } | Formula::BinaryFormula { .. })
}

fn write_wrapped_formula(out: &mut String, f: &Formula, paren: bool)
    ensures
        final(out)@ == old(out)@ + wrap(formula_text(f@), paren),
    decreases f, 1nat,
{
    if paren {
        append(out, "(");
        write_formula(out, f);
        append(out, ")");
        assert(final(out)@ =~= old(out)@ + wrap(formula_text(f@), paren));
    } else {
        write_formula(out, f);
    }
}

#[verifier::rlimit(40)]
fn write_formula(out: &mut String, f: &Formula)
    ensures
        final(out)@ == old(out)@ + formula_text(f@),
    decreases f, 0nat,
{
    match f {
        Formula::AtomicFormula(a) => write_atomic_formula(out, a),
        Formula::UnaryFormula { formula, .. } => {
            append(out, "~");
            let atomic = matches!(**formula, Formula::AtomicFormula(_));
            write_wrapped_formula(out, &**formula, !atomic);
            assert(final(out)@ =~= old(out)@ + formula_text(f@));
        },
        Formula::QuantifiedFormula { quantification, formula } => {
            write_quantification(out, quantification);
            append(out, ": (");
            write_formula(out, &**formula);
            append(out, ")");
            assert(final(out)@ =~= old(out)@ + formula_text(f@));
        },
        Formula::BinaryFormula { connective, lhs, rhs } => {
            let left = is_compound(&**lhs);
            let right = is_compound(&**rhs);
            write_wrapped_formula(out, &**lhs, left);
            append(out, " ");
            write_connective(out, *connective);
            append(out, " ");
            write_wrapped_formula(out, &**rhs, right);
            assert(final(out)@ =~= old(out)@ + formula_text(f@));
        },
    }
}

/// The TPTP text of a formula.
pub fn format_formula(f: &Formula) -> (r: String)
    ensures
        r@ == formula_text(f@),
{
    let mut out = String::new();
    write_formula(&mut out, f);
    assert(out@ =~= formula_text(f@));
    out
}

/// Appends the TPTP text of a formula.
pub(crate) fn push_formula(out: &mut String, f: &Formula)
    ensures
        final(out)@ == old(out)@ + formula_text(f@),
{
    write_formula(out, f);
}

} // verus!
