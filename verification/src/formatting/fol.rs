//! The default textual form of first-order formulas, theories, specifications
//! and user guides.

use crate::convenience::sets::views;
use crate::convenience::text::{decimal, integer_text, push_decimal, push_integer};
use crate::syntax_tree::fol::{
    AnnotatedFormula, AnnotatedFormulaModel, Atom, AtomModel, AtomicFormula, AtomicFormulaModel,
    BinaryConnective, BinaryOperator, Comparison, ComparisonModel, Direction, Formula,
    FormulaModel, FunctionConstant, FunctionConstantModel, GeneralTerm, GeneralTermModel, Guard,
    GuardModel, IntegerTerm, IntegerTermModel, Predicate, PredicateModel, Quantification,
    QuantificationModel, Quantifier, Relation, Role, Sort, Specification, SpecificationModel,
    SymbolicTerm, SymbolicTermModel, Theory, TheoryModel, UserGuide, UserGuideEntry,
    UserGuideEntryModel, UserGuideModel, Variable, VariableModel,
};
use crate::formatting::Associativity;
use vstd::prelude::*;

verus! {

// ================================================================ the text, as a specification

/// The text in parentheses when `paren` holds.
pub open spec fn wrap(text: Seq<char>, paren: bool) -> Seq<char> {
    if paren { "("@ + text + ")"@ } else { text }
}

pub open spec fn operator_text(op: BinaryOperator) -> Seq<char> {
    match op {
        BinaryOperator::Add => " + "@,
        BinaryOperator::Subtract => " - "@,
        BinaryOperator::Multiply => " * "@,
    }
}

/// How tightly an integer term binds: lower binds tighter. A positive numeral
/// is set apart so that a minus sign before it is kept apart too.
pub open spec fn integer_precedence(t: IntegerTermModel) -> nat {
    match t {
        IntegerTermModel::Numeral(n) => if n >= 1 { 1 } else { 0 },
        IntegerTermModel::FunctionConstant(_) => 0,
        IntegerTermModel::Variable(_) => 0,
        IntegerTermModel::UnaryOperation { .. } => 0,
        IntegerTermModel::BinaryOperation { op, .. } => match op {
            BinaryOperator::Multiply => 2,
            BinaryOperator::Add | BinaryOperator::Subtract => 3,
        },
    }
}

/// The mark of an integer variable: `$i`, or `$` in the layout of annotated formulas.
pub open spec fn integer_mark(layout: bool) -> Seq<char> {
    if layout { "$"@ } else { "$i"@ }
}

/// The text of an integer term; its operators associate to the left.
pub open spec fn integer_text_in(t: IntegerTermModel, layout: bool) -> Seq<char>
    decreases t,
{
    match t {
        IntegerTermModel::Numeral(n) => integer_text(n as int),
        IntegerTermModel::FunctionConstant(c) => c + "$i"@,
        IntegerTermModel::Variable(v) => v + integer_mark(layout),
        IntegerTermModel::UnaryOperation { arg, .. } =>
            "-"@ + wrap(integer_text_in(*arg, layout), integer_precedence(*arg) > 0),
        IntegerTermModel::BinaryOperation { op, lhs, rhs } =>
            wrap(integer_text_in(*lhs, layout), integer_precedence(t) < integer_precedence(*lhs))
                + operator_text(op)
                + wrap(integer_text_in(*rhs, layout), integer_precedence(t) <= integer_precedence(*rhs)),
    }
}

/// The default text of an integer term.
pub open spec fn integer_text_of(t: IntegerTermModel) -> Seq<char> {
    integer_text_in(t, false)
}

pub open spec fn symbolic_text(t: SymbolicTermModel) -> Seq<char> {
    match t {
        SymbolicTermModel::Symbol(s) => s,
        SymbolicTermModel::FunctionConstant(c) => c + "$s"@,
        SymbolicTermModel::Variable(v) => v + "$s"@,
    }
}

pub open spec fn general_text_in(t: GeneralTermModel, layout: bool) -> Seq<char> {
    match t {
        GeneralTermModel::Infimum => "#inf"@,
        GeneralTermModel::Supremum => "#sup"@,
        GeneralTermModel::FunctionConstant(c) => c + "$g"@,
        GeneralTermModel::Variable(v) => v,
        GeneralTermModel::IntegerTerm(t) => integer_text_in(t, layout),
        GeneralTermModel::SymbolicTerm(t) => symbolic_text(t),
    }
}

pub open spec fn general_text(t: GeneralTermModel) -> Seq<char> {
    general_text_in(t, false)
}

/// A predicate as `symbol/arity`.
pub open spec fn predicate_text(p: PredicateModel) -> Seq<char> {
    p.symbol + "/"@ + decimal(p.arity as nat)
}

/// The separator of terms: `, `, or `,` in the layout of annotated formulas.
pub open spec fn term_separator(layout: bool) -> Seq<char> {
    if layout { ","@ } else { ", "@ }
}

/// Terms separated as above.
pub open spec fn terms_text_in(ts: Seq<GeneralTermModel>, layout: bool) -> Seq<char>
    decreases ts.len(),
{
    if ts.len() == 0 {
        seq![]
    } else if ts.len() == 1 {
        general_text_in(ts[0], layout)
    } else {
        terms_text_in(ts.drop_last(), layout) + term_separator(layout) + general_text_in(ts.last(), layout)
    }
}

/// An atom: its predicate symbol, and its terms in parentheses if it has any.
pub open spec fn atom_text_in(a: AtomModel, layout: bool) -> Seq<char> {
    if a.terms.len() == 0 {
        a.predicate_symbol
    } else {
        a.predicate_symbol + "("@ + terms_text_in(a.terms, layout) + ")"@
    }
}

pub open spec fn relation_text(r: Relation) -> Seq<char> {
    match r {
        Relation::Equal => "="@,
        Relation::NotEqual => "!="@,
        Relation::GreaterEqual => ">="@,
        Relation::LessEqual => "<="@,
        Relation::Greater => ">"@,
        Relation::Less => "<"@,
    }
}

pub open spec fn guard_text_in(g: GuardModel, layout: bool) -> Seq<char> {
    relation_text(g.relation) + " "@ + general_text_in(g.term, layout)
}

/// Guards, each after a space.
pub open spec fn guards_text_in(gs: Seq<GuardModel>, layout: bool) -> Seq<char>
    decreases gs.len(),
{
    if gs.len() == 0 {
        seq![]
    } else {
        guards_text_in(gs.drop_last(), layout) + " "@ + guard_text_in(gs.last(), layout)
    }
}

pub open spec fn comparison_text_in(c: ComparisonModel, layout: bool) -> Seq<char> {
    general_text_in(c.term, layout) + guards_text_in(c.guards, layout)
}

pub open spec fn comparison_text(c: ComparisonModel) -> Seq<char> {
    comparison_text_in(c, false)
}

pub open spec fn atomic_text_in(a: AtomicFormulaModel, layout: bool) -> Seq<char> {
    match a {
        AtomicFormulaModel::Truth => "#true"@,
        AtomicFormulaModel::Falsity => "#false"@,
        AtomicFormulaModel::Atom(a) => atom_text_in(a, layout),
        AtomicFormulaModel::Comparison(c) => comparison_text_in(c, layout),
    }
}

pub open spec fn atomic_text(a: AtomicFormulaModel) -> Seq<char> {
    atomic_text_in(a, false)
}

pub open spec fn sort_text(s: Sort) -> Seq<char> {
    match s {
        Sort::General => "g"@,
        Sort::Integer => "i"@,
        Sort::Symbol => "s"@,
    }
}

/// A function constant as `name$sort`.
pub open spec fn function_constant_text(c: FunctionConstantModel) -> Seq<char> {
    c.name + "$"@ + sort_text(c.sort)
}

/// A variable: its name, followed by the integer mark or `$s` unless it is general.
pub open spec fn variable_text_in(v: VariableModel, layout: bool) -> Seq<char> {
    match v.sort {
        Sort::General => v.name,
        Sort::Integer => v.name + integer_mark(layout),
        Sort::Symbol => v.name + "$s"@,
    }
}

pub open spec fn variable_text(v: VariableModel) -> Seq<char> {
    variable_text_in(v, false)
}

pub open spec fn quantifier_text(q: Quantifier) -> Seq<char> {
    match q {
        Quantifier::Forall => "forall"@,
        Quantifier::Exists => "exists"@,
    }
}

/// Variables, each after a space.
pub open spec fn variables_text_in(vs: Seq<VariableModel>, layout: bool) -> Seq<char>
    decreases vs.len(),
{
    if vs.len() == 0 {
        seq![]
    } else {
        variables_text_in(vs.drop_last(), layout) + " "@ + variable_text_in(vs.last(), layout)
    }
}

pub open spec fn quantification_text_in(q: QuantificationModel, layout: bool) -> Seq<char> {
    quantifier_text(q.quantifier) + variables_text_in(q.variables, layout)
}

pub open spec fn quantification_text(q: QuantificationModel) -> Seq<char> {
    quantification_text_in(q, false)
}

pub open spec fn connective_text(c: BinaryConnective) -> Seq<char> {
    match c {
        BinaryConnective::Equivalence => "<->"@,
        BinaryConnective::Implication => "->"@,
        BinaryConnective::ReverseImplication => "<-"@,
        BinaryConnective::Conjunction => "and"@,
        BinaryConnective::Disjunction => "or"@,
    }
}

/// How tightly a formula binds: lower binds tighter.
pub open spec fn formula_precedence(f: FormulaModel) -> nat {
    match f {
        FormulaModel::AtomicFormula(_) => 0,
        FormulaModel::UnaryFormula { .. } => 1,
        FormulaModel::QuantifiedFormula { .. } => 1,
        FormulaModel::BinaryFormula { connective, .. } => match connective {
            BinaryConnective::Conjunction => 2,
            BinaryConnective::Disjunction => 3,
            _ => 4,
        },
    }
}

/// Equivalences and implications group to the right, the rest to the left.
pub open spec fn formula_associativity(f: FormulaModel) -> Associativity {
    match f {
        FormulaModel::BinaryFormula { connective: BinaryConnective::Equivalence, .. } => Associativity::Right,
        FormulaModel::BinaryFormula { connective: BinaryConnective::Implication, .. } => Associativity::Right,
        _ => Associativity::Left,
    }
}

/// Equivalences and implications of either direction are always parenthesized
/// when they occur inside another formula.
pub open spec fn mandatory_parentheses(f: FormulaModel) -> bool {
    formula_precedence(f) == 4
}

/// Whether the operand `inner` of a unary or quantified formula is parenthesized.
pub open spec fn unary_parentheses(inner: FormulaModel) -> bool {
    mandatory_parentheses(inner) || 1 < formula_precedence(inner)
}

/// Whether the left operand of the binary formula `f` is parenthesized.
pub open spec fn left_parentheses(f: FormulaModel, lhs: FormulaModel) -> bool {
    ||| mandatory_parentheses(lhs)
    ||| formula_precedence(f) < formula_precedence(lhs)
    ||| formula_precedence(f) == formula_precedence(lhs) && formula_associativity(lhs) == Associativity::Right
}

/// Whether the right operand of the binary formula `f` is parenthesized.
pub open spec fn right_parentheses(f: FormulaModel, rhs: FormulaModel) -> bool {
    ||| mandatory_parentheses(rhs)
    ||| formula_precedence(f) < formula_precedence(rhs)
    ||| formula_precedence(f) == formula_precedence(rhs) && formula_associativity(f) == Associativity::Left
}

/// The scope of a quantifier. By default it is parenthesized as an operand
/// of a unary formula. In the layout of annotated formulas it is set off by
/// parentheses with a space inside them, unless it is an equivalence or an
/// implication, which keeps the parentheses that it always has.
pub open spec fn scope_text(text: Seq<char>, inner: FormulaModel, layout: bool) -> Seq<char> {
    if layout && !mandatory_parentheses(inner) {
        "( "@ + text + " )"@
    } else {
        wrap(text, unary_parentheses(inner))
    }
}

/// The text of a formula, by default or in the layout of annotated formulas.
pub open spec fn formula_text_in(f: FormulaModel, layout: bool) -> Seq<char>
    decreases f,
{
    match f {
        FormulaModel::AtomicFormula(a) => atomic_text_in(a, layout),
        FormulaModel::UnaryFormula { formula, .. } =>
            "not "@ + wrap(formula_text_in(*formula, layout), unary_parentheses(*formula)),
        FormulaModel::QuantifiedFormula { quantification, formula } =>
            quantification_text_in(quantification, layout) + " "@
                + scope_text(formula_text_in(*formula, layout), *formula, layout),
        FormulaModel::BinaryFormula { connective, lhs, rhs } =>
            wrap(formula_text_in(*lhs, layout), left_parentheses(f, *lhs))
                + " "@ + connective_text(connective) + " "@
                + wrap(formula_text_in(*rhs, layout), right_parentheses(f, *rhs)),
    }
}

/// The default text of a formula.
pub open spec fn formula_text(f: FormulaModel) -> Seq<char> {
    formula_text_in(f, false)
}

/// Formulas, each followed by a period and a line break.
pub open spec fn formulas_text(fs: Seq<FormulaModel>) -> Seq<char>
    decreases fs.len(),
{
    if fs.len() == 0 {
        seq![]
    } else {
        formulas_text(fs.drop_last()) + formula_text(fs.last()) + ".\n"@
    }
}

pub open spec fn theory_text(t: TheoryModel) -> Seq<char> {
    formulas_text(t.formulas)
}

pub open spec fn role_text(r: Role) -> Seq<char> {
    match r {
        Role::Assumption => "assumption"@,
        Role::Spec => "spec"@,
        Role::Lemma => "lemma"@,
        Role::Definition => "definition"@,
        Role::InductiveLemma => "inductive-lemma"@,
    }
}

pub open spec fn direction_text(d: Direction) -> Seq<char> {
    match d {
        Direction::Universal => "universal"@,
        Direction::Forward => "forward"@,
        Direction::Backward => "backward"@,
    }
}

/// An annotated formula: its role, its direction in parentheses unless it is
/// universal, its name in brackets unless it is empty, a colon and the formula
/// in the layout of annotated formulas, the layout in which they are written
/// by hand: integer variables marked by `$`, terms separated by a comma alone,
/// and the scope of a quantifier set off by spaced parentheses.
pub open spec fn annotated_text(a: AnnotatedFormulaModel) -> Seq<char> {
    role_text(a.role) + direction_part(a.direction) + name_part(a.name) + ": "@ + formula_text_in(a.formula, true)
}

/// The direction in parentheses, or nothing for the universal direction.
pub open spec fn direction_part(d: Direction) -> Seq<char> {
    if d == Direction::Universal { seq![] } else { "("@ + direction_text(d) + ")"@ }
}

/// The name in brackets, or nothing for an empty name.
pub open spec fn name_part(name: Seq<char>) -> Seq<char> {
    if name.len() == 0 { seq![] } else { "["@ + name + "]"@ }
}

/// Annotated formulas, each followed by a period and a line break.
pub open spec fn annotated_formulas_text(fs: Seq<AnnotatedFormulaModel>) -> Seq<char>
    decreases fs.len(),
{
    if fs.len() == 0 {
        seq![]
    } else {
        annotated_formulas_text(fs.drop_last()) + annotated_text(fs.last()) + ".\n"@
    }
}

pub open spec fn specification_text(s: SpecificationModel) -> Seq<char> {
    annotated_formulas_text(s.formulas)
}

pub open spec fn entry_text(e: UserGuideEntryModel) -> Seq<char> {
    match e {
        UserGuideEntryModel::InputPredicate(p) => "input: "@ + predicate_text(p),
        UserGuideEntryModel::OutputPredicate(p) => "output: "@ + predicate_text(p),
        UserGuideEntryModel::PlaceholderDeclaration(c) => "input: "@ + c.name + " -> "@ + sort_text(c.sort),
        UserGuideEntryModel::AnnotatedFormula(a) => annotated_text(a),
    }
}

/// Entries, each followed by a period and a line break.
pub open spec fn entries_text(es: Seq<UserGuideEntryModel>) -> Seq<char>
    decreases es.len(),
{
    if es.len() == 0 {
        seq![]
    } else {
        entries_text(es.drop_last()) + entry_text(es.last()) + ".\n"@
    }
}

pub open spec fn user_guide_text(g: UserGuideModel) -> Seq<char> {
    entries_text(g.entries)
}

// ================================================================ executable

fn append(out: &mut String, s: &str)
    ensures
        final(out)@ == old(out)@ + s@,
{
    out.append(s);
}

fn integer_precedence_of(t: &IntegerTerm) -> (r: u8)
    ensures
        r == integer_precedence(t@),
{
    match t {
        IntegerTerm::Numeral(n) => if *n >= 1 { 1 } else { 0 },
        IntegerTerm::FunctionConstant(_) | IntegerTerm::Variable(_) | IntegerTerm::UnaryOperation { .. } => 0,
        IntegerTerm::BinaryOperation { op, .. } => match op {
            BinaryOperator::Multiply => 2,
            BinaryOperator::Add | BinaryOperator::Subtract => 3,
        },
    }
}

fn write_operator(out: &mut String, op: BinaryOperator)
    ensures
        final(out)@ == old(out)@ + operator_text(op),
{
    match op {
        BinaryOperator::Add => append(out, " + "),
        BinaryOperator::Subtract => append(out, " - "),
        BinaryOperator::Multiply => append(out, " * "),
    }
}

fn write_wrapped_integer(out: &mut String, t: &IntegerTerm, paren: bool, layout: bool)
    ensures
        final(out)@ == old(out)@ + wrap(integer_text_in(t@, layout), paren),
    decreases t, 1nat,
{
    if paren {
        append(out, "(");
        write_integer_term(out, t, layout);
        append(out, ")");
        assert(final(out)@ =~= old(out)@ + wrap(integer_text_in(t@, layout), paren));
    } else {
        write_integer_term(out, t, layout);
    }
}

fn write_integer_term(out: &mut String, t: &IntegerTerm, layout: bool)
    ensures
        final(out)@ == old(out)@ + integer_text_in(t@, layout),
    decreases t, 0nat,
{
    match t {
        IntegerTerm::Numeral(n) => push_integer(out, *n),
        IntegerTerm::FunctionConstant(c) => {
            append(out, c.as_str());
            append(out, "$i");
            assert(final(out)@ =~= old(out)@ + integer_text_in(t@, layout));
        },
        IntegerTerm::Variable(v) => {
            append(out, v.as_str());
            if layout {
                append(out, "$");
            } else {
                append(out, "$i");
            }
            assert(final(out)@ =~= old(out)@ + integer_text_in(t@, layout));
        },
        IntegerTerm::UnaryOperation { arg, .. } => {
            append(out, "-");
            let p = integer_precedence_of(&**arg);
            write_wrapped_integer(out, &**arg, p > 0, layout);
            assert(final(out)@ =~= old(out)@ + integer_text_in(t@, layout));
        },
        IntegerTerm::BinaryOperation { op, lhs, rhs } => {
            let p = integer_precedence_of(t);
            let pl = integer_precedence_of(&**lhs);
            let pr = integer_precedence_of(&**rhs);
            write_wrapped_integer(out, &**lhs, p < pl, layout);
            write_operator(out, *op);
            write_wrapped_integer(out, &**rhs, p <= pr, layout);
            assert(final(out)@ =~= old(out)@ + integer_text_in(t@, layout));
        },
    }
}

/// The default text of an integer term.
pub fn format_integer_term(t: &IntegerTerm) -> (r: String)
    ensures
        r@ == integer_text_of(t@),
{
    let mut out = String::new();
    write_integer_term(&mut out, t, false);
    assert(out@ =~= integer_text_of(t@));
    out
}

fn write_symbolic_term(out: &mut String, t: &SymbolicTerm)
    ensures
        final(out)@ == old(out)@ + symbolic_text(t@),
{
    match t {
        SymbolicTerm::Symbol(s) => append(out, s.as_str()),
        SymbolicTerm::FunctionConstant(c) => {
            append(out, c.as_str());
            append(out, "$s");
        },
        SymbolicTerm::Variable(v) => {
            append(out, v.as_str());
            append(out, "$s");
        },
    }
    assert(final(out)@ =~= old(out)@ + symbolic_text(t@));
}

fn write_general_term(out: &mut String, t: &GeneralTerm, layout: bool)
    ensures
        final(out)@ == old(out)@ + general_text_in(t@, layout),
{
    match t {
        GeneralTerm::Infimum => append(out, "#inf"),
        GeneralTerm::Supremum => append(out, "#sup"),
        GeneralTerm::FunctionConstant(c) => {
            append(out, c.as_str());
            append(out, "$g");
        },
        GeneralTerm::Variable(v) => append(out, v.as_str()),
        GeneralTerm::IntegerTerm(i) => write_integer_term(out, i, layout),
        GeneralTerm::SymbolicTerm(s) => write_symbolic_term(out, s),
    }
    assert(final(out)@ =~= old(out)@ + general_text_in(t@, layout));
}

/// The default text of a general term.
pub fn format_general_term(t: &GeneralTerm) -> (r: String)
    ensures
        r@ == general_text(t@),
{
    let mut out = String::new();
    write_general_term(&mut out, t, false);
    assert(out@ =~= general_text(t@));
    out
}

fn write_predicate(out: &mut String, p: &Predicate)
    ensures
        final(out)@ == old(out)@ + predicate_text(p@),
{
    append(out, p.symbol.as_str());
    append(out, "/");
    push_decimal(out, p.arity as u128);
    assert(final(out)@ =~= old(out)@ + predicate_text(p@));
}

/// A predicate as `symbol/arity`.
pub fn format_predicate(p: &Predicate) -> (r: String)
    ensures
        r@ == predicate_text(p@),
{
    let mut out = String::new();
    write_predicate(&mut out, p);
    assert(out@ =~= predicate_text(p@));
    out
}

fn write_atom(out: &mut String, a: &Atom, layout: bool)
    ensures
        final(out)@ == old(out)@ + atom_text_in(a@, layout),
{
    append(out, a.predicate_symbol.as_str());
    if a.terms.len() > 0 {
        append(out, "(");
        let ghost start = out@;
        let mut i: usize = 0;
        while i < a.terms.len()
            invariant
                i <= a.terms.len(),
                out@ == start + terms_text_in(views(a.terms@).take(i as int), layout),
            decreases a.terms.len() - i,
        {
            let ghost ts = views(a.terms@).take(i as int + 1);
            assert(ts.drop_last() =~= views(a.terms@).take(i as int));
            if i > 0 {
                if layout {
                    append(out, ",");
                } else {
                    append(out, ", ");
                }
            }
            write_general_term(out, &a.terms[i], layout);
            assert(out@ =~= start + terms_text_in(ts, layout));
            i += 1;
        }
        assert(views(a.terms@).take(a.terms.len() as int) =~= views(a.terms@));
        append(out, ")");
        assert(final(out)@ =~= old(out)@ + atom_text_in(a@, layout));
    }
}

fn write_relation(out: &mut String, r: Relation)
    ensures
        final(out)@ == old(out)@ + relation_text(r),
{
    match r {
        Relation::Equal => append(out, "="),
        Relation::NotEqual => append(out, "!="),
        Relation::GreaterEqual => append(out, ">="),
        Relation::LessEqual => append(out, "<="),
        Relation::Greater => append(out, ">"),
        Relation::Less => append(out, "<"),
    }
}

fn write_comparison(out: &mut String, c: &Comparison, layout: bool)
    ensures
        final(out)@ == old(out)@ + comparison_text_in(c@, layout),
{
    write_general_term(out, &c.term, layout);
    let ghost start = out@;
    let mut i: usize = 0;
    while i < c.guards.len()
        invariant
            i <= c.guards.len(),
            out@ == start + guards_text_in(views(c.guards@).take(i as int), layout),
        decreases c.guards.len() - i,
    {
        let ghost gs = views(c.guards@).take(i as int + 1);
        assert(gs.drop_last() =~= views(c.guards@).take(i as int));
        append(out, " ");
        write_relation(out, c.guards[i].relation);
        append(out, " ");
        write_general_term(out, &c.guards[i].term, layout);
        assert(out@ =~= start + guards_text_in(gs, layout));
        i += 1;
    }
    assert(views(c.guards@).take(c.guards.len() as int) =~= views(c.guards@));
    assert(final(out)@ =~= old(out)@ + comparison_text_in(c@, layout));
}

/// The default text of a comparison: its term, then each guard after a space.
pub fn format_comparison(c: &Comparison) -> (r: String)
    ensures
        r@ == comparison_text(c@),
{
    let mut out = String::new();
    write_comparison(&mut out, c, false);
    assert(out@ =~= comparison_text(c@));
    out
}

fn write_atomic_formula(out: &mut String, a: &AtomicFormula, layout: bool)
    ensures
        final(out)@ == old(out)@ + atomic_text_in(a@, layout),
{
    match a {
        AtomicFormula::Truth => append(out, "#true"),
        AtomicFormula::Falsity => append(out, "#false"),
        AtomicFormula::Atom(a) => write_atom(out, a, layout),
        AtomicFormula::Comparison(c) => write_comparison(out, c, layout),
    }
}

/// The default text of an atomic formula.
pub fn format_atomic_formula(a: &AtomicFormula) -> (r: String)
    ensures
        r@ == atomic_text(a@),
{
    let mut out = String::new();
    write_atomic_formula(&mut out, a, false);
    assert(out@ =~= atomic_text(a@));
    out
}

fn write_sort(out: &mut String, s: Sort)
    ensures
        final(out)@ == old(out)@ + sort_text(s),
{
    match s {
        Sort::General => append(out, "g"),
        Sort::Integer => append(out, "i"),
        Sort::Symbol => append(out, "s"),
    }
}

/// A function constant as `name$sort`.
pub fn format_function_constant(c: &FunctionConstant) -> (r: String)
    ensures
        r@ == function_constant_text(c@),
{
    let mut out = String::new();
    append(&mut out, c.name.as_str());
    append(&mut out, "$");
    write_sort(&mut out, c.sort);
    assert(out@ =~= function_constant_text(c@));
    out
}

fn write_variable(out: &mut String, v: &Variable, layout: bool)
    ensures
        final(out)@ == old(out)@ + variable_text_in(v@, layout),
{
    append(out, v.name.as_str());
    match v.sort {
        Sort::General => {},
        Sort::Integer => if layout {
            append(out, "$");
        } else {
            append(out, "$i");
        },
        Sort::Symbol => append(out, "$s"),
    }
    assert(final(out)@ =~= old(out)@ + variable_text_in(v@, layout));
}

/// The default text of a variable.
pub fn format_variable(v: &Variable) -> (r: String)
    ensures
        r@ == variable_text(v@),
{
    let mut out = String::new();
    write_variable(&mut out, v, false);
    assert(out@ =~= variable_text(v@));
    out
}

fn write_quantification(out: &mut String, q: &Quantification, layout: bool)
    ensures
        final(out)@ == old(out)@ + quantification_text_in(q@, layout),
{
    match q.quantifier {
        Quantifier::Forall => append(out, "forall"),
        Quantifier::Exists => append(out, "exists"),
    }
    let ghost start = out@;
    let mut i: usize = 0;
    while i < q.variables.len()
        invariant
            i <= q.variables.len(),
            out@ == start + variables_text_in(views(q.variables@).take(i as int), layout),
        decreases q.variables.len() - i,
    {
        let ghost vs = views(q.variables@).take(i as int + 1);
        assert(vs.drop_last() =~= views(q.variables@).take(i as int));
        append(out, " ");
        write_variable(out, &q.variables[i], layout);
        assert(out@ =~= start + variables_text_in(vs, layout));
        i += 1;
    }
    assert(views(q.variables@).take(q.variables.len() as int) =~= views(q.variables@));
    assert(final(out)@ =~= old(out)@ + quantification_text_in(q@, layout));
}

/// The default text of a quantification: its quantifier, then each variable
/// after a space.
pub fn format_quantification(q: &Quantification) -> (r: String)
    ensures
        r@ == quantification_text(q@),
{
    let mut out = String::new();
    write_quantification(&mut out, q, false);
    assert(out@ =~= quantification_text(q@));
    out
}

fn write_connective(out: &mut String, c: BinaryConnective)
    ensures
        final(out)@ == old(out)@ + connective_text(c),
{
    match c {
        BinaryConnective::Equivalence => append(out, "<->"),
        BinaryConnective::Implication => append(out, "->"),
        BinaryConnective::ReverseImplication => append(out, "<-"),
        BinaryConnective::Conjunction => append(out, "and"),
        BinaryConnective::Disjunction => append(out, "or"),
    }
}

/// How tightly a formula binds: lower binds tighter.
pub fn precedence(f: &Formula) -> (r: u8)
    ensures
        r == formula_precedence(f@),
{
    match f {
        Formula::AtomicFormula(_) => 0,
        Formula::UnaryFormula { .. } | Formula::QuantifiedFormula { .. } => 1,
        Formula::BinaryFormula { connective, .. } => match connective {
            BinaryConnective::Conjunction => 2,
            BinaryConnective::Disjunction => 3,
            _ => 4,
        },
    }
}

/// The side on which a formula groups operands of its own precedence.
pub fn associativity(f: &Formula) -> (r: Associativity)
    ensures
        r == formula_associativity(f@),
{
    match f {
        Formula::BinaryFormula { connective: BinaryConnective::Equivalence, .. }
        | Formula::BinaryFormula { connective: BinaryConnective::Implication, .. } => Associativity::Right,
        _ => Associativity::Left,
    }
}

fn write_wrapped_formula(out: &mut String, f: &Formula, paren: bool, layout: bool)
    ensures
        final(out)@ == old(out)@ + wrap(formula_text_in(f@, layout), paren),
    decreases f, 1nat,
{
    if paren {
        append(out, "(");
        write_formula(out, f, layout);
        append(out, ")");
        assert(final(out)@ =~= old(out)@ + wrap(formula_text_in(f@, layout), paren));
    } else {
        write_formula(out, f, layout);
    }
}

fn write_scope(out: &mut String, f: &Formula, layout: bool)
    ensures
        final(out)@ == old(out)@ + scope_text(formula_text_in(f@, layout), f@, layout),
    decreases f, 2nat,
{
    let pi = precedence(f);
    if layout && pi != 4 {
        append(out, "( ");
        write_formula(out, f, layout);
        append(out, " )");
        assert(final(out)@ =~= old(out)@ + scope_text(formula_text_in(f@, layout), f@, layout));
    } else {
        write_wrapped_formula(out, f, pi == 4 || 1 < pi, layout);
    }
}

#[verifier::rlimit(40)]
fn write_formula(out: &mut String, f: &Formula, layout: bool)
    ensures
        final(out)@ == old(out)@ + formula_text_in(f@, layout),
    decreases f, 0nat,
{
    match f {
        Formula::AtomicFormula(a) => write_atomic_formula(out, a, layout),
        Formula::UnaryFormula { formula, .. } => {
            append(out, "not ");
            let pi = precedence(&**formula);
            write_wrapped_formula(out, &**formula, pi == 4 || 1 < pi, layout);
            assert(final(out)@ =~= old(out)@ + formula_text_in(f@, layout));
        },
        Formula::QuantifiedFormula { quantification, formula } => {
            write_quantification(out, quantification, layout);
            append(out, " ");
            write_scope(out, &**formula, layout);
            assert(final(out)@ =~= old(out)@ + formula_text_in(f@, layout));
        },
        Formula::BinaryFormula { connective, lhs, rhs } => {
            let p = precedence(f);
            let pl = precedence(&**lhs);
            let pr = precedence(&**rhs);
            let left = pl == 4 || p < pl || p == pl && associativity(&**lhs) == Associativity::Right;
            let right = pr == 4 || p < pr || p == pr && associativity(f) == Associativity::Left;
            write_wrapped_formula(out, &**lhs, left, layout);
            append(out, " ");
            write_connective(out, *connective);
            append(out, " ");
            write_wrapped_formula(out, &**rhs, right, layout);
            assert(final(out)@ =~= old(out)@ + formula_text_in(f@, layout));
        },
    }
}

/// The default text of a formula.
pub fn format_formula(f: &Formula) -> (r: String)
    ensures
        r@ == formula_text(f@),
{
    let mut out = String::new();
    write_formula(&mut out, f, false);
    assert(out@ =~= formula_text(f@));
    out
}

/// The default text of a theory: each formula followed by a period and a line break.
pub fn format_theory(t: &Theory) -> (r: String)
    ensures
        r@ == theory_text(t@),
{
    let mut out = String::new();
    let mut i: usize = 0;
    while i < t.formulas.len()
        invariant
            i <= t.formulas.len(),
            out@ == formulas_text(views(t.formulas@).take(i as int)),
        decreases t.formulas.len() - i,
    {
        assert(views(t.formulas@).take(i as int + 1).drop_last() =~= views(t.formulas@).take(i as int));
        write_formula(&mut out, &t.formulas[i], false);
        append(&mut out, ".\n");
        assert(out@ =~= formulas_text(views(t.formulas@).take(i as int + 1)));
        i += 1;
    }
    assert(views(t.formulas@).take(t.formulas.len() as int) =~= views(t.formulas@));
    out
}

fn write_role(out: &mut String, r: Role)
    ensures
        final(out)@ == old(out)@ + role_text(r),
{
    match r {
        Role::Assumption => append(out, "assumption"),
        Role::Spec => append(out, "spec"),
        Role::Lemma => append(out, "lemma"),
        Role::Definition => append(out, "definition"),
        Role::InductiveLemma => append(out, "inductive-lemma"),
    }
}

fn write_direction_part(out: &mut String, d: Direction)
    ensures
        final(out)@ == old(out)@ + direction_part(d),
{
    match d {
        Direction::Universal => {},
        Direction::Forward => {
            append(out, "(");
            append(out, "forward");
            append(out, ")");
        },
        Direction::Backward => {
            append(out, "(");
            append(out, "backward");
            append(out, ")");
        },
    }
    assert(final(out)@ =~= old(out)@ + direction_part(d));
}

fn write_name_part(out: &mut String, name: &String)
    ensures
        final(out)@ == old(out)@ + name_part(name@),
{
    if name.as_str().unicode_len() > 0 {
        append(out, "[");
        append(out, name.as_str());
        append(out, "]");
    }
    assert(final(out)@ =~= old(out)@ + name_part(name@));
}

fn write_annotated_formula(out: &mut String, a: &AnnotatedFormula)
    ensures
        final(out)@ == old(out)@ + annotated_text(a@),
{
    write_role(out, a.role);
    write_direction_part(out, a.direction);
    write_name_part(out, &a.name);
    append(out, ": ");
    write_formula(out, &a.formula, true);
    assert(final(out)@ =~= old(out)@ + annotated_text(a@));
}

/// The default text of an annotated formula.
pub fn format_annotated_formula(a: &AnnotatedFormula) -> (r: String)
    ensures
        r@ == annotated_text(a@),
{
    let mut out = String::new();
    write_annotated_formula(&mut out, a);
    assert(out@ =~= annotated_text(a@));
    out
}

/// The default text of a specification: each annotated formula followed by a
/// period and a line break.
pub fn format_specification(s: &Specification) -> (r: String)
    ensures
        r@ == specification_text(s@),
{
    let mut out = String::new();
    let mut i: usize = 0;
    while i < s.formulas.len()
        invariant
            i <= s.formulas.len(),
            out@ == annotated_formulas_text(views(s.formulas@).take(i as int)),
        decreases s.formulas.len() - i,
    {
        assert(views(s.formulas@).take(i as int + 1).drop_last() =~= views(s.formulas@).take(i as int));
        write_annotated_formula(&mut out, &s.formulas[i]);
        append(&mut out, ".\n");
        assert(out@ =~= annotated_formulas_text(views(s.formulas@).take(i as int + 1)));
        i += 1;
    }
    assert(views(s.formulas@).take(s.formulas.len() as int) =~= views(s.formulas@));
    out
}

fn write_entry(out: &mut String, e: &UserGuideEntry)
    ensures
        final(out)@ == old(out)@ + entry_text(e@),
{
    match e {
        UserGuideEntry::InputPredicate(p) => {
            append(out, "input: ");
            write_predicate(out, p);
        },
        UserGuideEntry::OutputPredicate(p) => {
            append(out, "output: ");
            write_predicate(out, p);
        },
        UserGuideEntry::PlaceholderDeclaration(c) => {
            append(out, "input: ");
            append(out, c.name.as_str());
            append(out, " -> ");
            write_sort(out, c.sort);
        },
        UserGuideEntry::AnnotatedFormula(a) => write_annotated_formula(out, a),
    }
    assert(final(out)@ =~= old(out)@ + entry_text(e@));
}

/// The default text of a user guide: each entry followed by a period and a
/// line break.
pub fn format_user_guide(g: &UserGuide) -> (r: String)
    ensures
        r@ == user_guide_text(g@),
{
    let mut out = String::new();
    let mut i: usize = 0;
    while i < g.entries.len()
        invariant
            i <= g.entries.len(),
            out@ == entries_text(views(g.entries@).take(i as int)),
        decreases g.entries.len() - i,
    {
        assert(views(g.entries@).take(i as int + 1).drop_last() =~= views(g.entries@).take(i as int));
        write_entry(&mut out, &g.entries[i]);
        append(&mut out, ".\n");
        assert(out@ =~= entries_text(views(g.entries@).take(i as int + 1)));
        i += 1;
    }
    assert(views(g.entries@).take(g.entries.len() as int) =~= views(g.entries@));
    out
}

} // verus!
