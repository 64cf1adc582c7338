//! The default textual form of answer set programs.

use crate::convenience::text::{integer_text, push_integer};
use crate::convenience::sets::views;
use crate::syntax_tree::asp::{
    Atom, AtomModel, AtomicFormula, AtomicFormulaModel, BinaryOperator, Body, BodyModel,
    Comparison, ComparisonModel, Head, HeadModel, Literal, LiteralModel, PrecomputedTerm,
    PrecomputedTermModel, Program, ProgramModel, Relation, Rule, RuleModel, Sign, Term, TermModel,
    UnaryOperator,
};
use crate::formatting::Associativity;
use vstd::prelude::*;

verus! {

pub open spec fn precomputed_text(c: PrecomputedTermModel) -> Seq<char> {
    match c {
        PrecomputedTermModel::Infimum => "#inf"@,
        PrecomputedTermModel::Numeral(n) => integer_text(n as int),
        PrecomputedTermModel::Symbol(s) => s,
        PrecomputedTermModel::Supremum => "#sup"@,
    }
}

pub open spec fn operator_text(op: BinaryOperator) -> Seq<char> {
    match op {
        BinaryOperator::Add => " + "@,
        BinaryOperator::Subtract => " - "@,
        BinaryOperator::Multiply => " * "@,
        BinaryOperator::Divide => " / "@,
        BinaryOperator::Modulo => " \\ "@,
        BinaryOperator::Interval => ".."@,
    }
}

/// How tightly a term binds: lower binds tighter.
pub open spec fn term_precedence(t: TermModel) -> nat {
    match t {
        TermModel::PrecomputedTerm(PrecomputedTermModel::Numeral(n)) => if n >= 1 { 1 } else { 0 },
        TermModel::PrecomputedTerm(_) => 0,
        TermModel::Variable(_) => 0,
        TermModel::UnaryOperation { .. } => 0,
        TermModel::BinaryOperation { op, .. } => match op {
            BinaryOperator::Multiply | BinaryOperator::Divide | BinaryOperator::Modulo => 2,
            BinaryOperator::Add | BinaryOperator::Subtract => 3,
            BinaryOperator::Interval => 4,
        },
    }
}

/// The text in parentheses when `paren` holds.
pub open spec fn wrap(text: Seq<char>, paren: bool) -> Seq<char> {
    if paren { "("@ + text + ")"@ } else { text }
}

/// The default text of a term; all operators associate to the left.
pub open spec fn term_text(t: TermModel) -> Seq<char>
    decreases t,
{
    match t {
        TermModel::PrecomputedTerm(c) => precomputed_text(c),
        TermModel::Variable(v) => v.0,
        TermModel::UnaryOperation { arg, .. } =>
            "-"@ + wrap(term_text(*arg), term_precedence(*arg) > 0),
        TermModel::BinaryOperation { op, lhs, rhs } =>
            wrap(term_text(*lhs), term_precedence(t) < term_precedence(*lhs))
                + operator_text(op)
                + wrap(term_text(*rhs), term_precedence(t) <= term_precedence(*rhs)),
    }
}

pub open spec fn terms_text(ts: Seq<TermModel>) -> Seq<char>
    decreases ts.len(),
{
    if ts.len() == 0 {
        seq![]
    } else if ts.len() == 1 {
        term_text(ts[0])
    } else {
        terms_text(ts.drop_last()) + ", "@ + term_text(ts.last())
    }
}

pub open spec fn atom_text(a: AtomModel) -> Seq<char> {
    if a.terms.len() == 0 {
        a.predicate_symbol
    } else {
        a.predicate_symbol + "("@ + terms_text(a.terms) + ")"@
    }
}

pub open spec fn literal_text(l: LiteralModel) -> Seq<char> {
    match l.sign {
        Sign::NoSign => atom_text(l.atom),
        Sign::Negation => "not "@ + atom_text(l.atom),
        Sign::DoubleNegation => "not not "@ + atom_text(l.atom),
    }
}

pub open spec fn relation_text(r: Relation) -> Seq<char> {
    match r {
        Relation::Equal => "="@,
        Relation::NotEqual => "!="@,
        Relation::Less => "<"@,
        Relation::LessEqual => "<="@,
        Relation::Greater => ">"@,
        Relation::GreaterEqual => ">="@,
    }
}

pub open spec fn comparison_text(c: ComparisonModel) -> Seq<char> {
    term_text(c.lhs) + " "@ + relation_text(c.relation) + " "@ + term_text(c.rhs)
}

pub open spec fn atomic_formula_text(f: AtomicFormulaModel) -> Seq<char> {
    match f {
        AtomicFormulaModel::Literal(l) => literal_text(l),
        AtomicFormulaModel::Comparison(c) => comparison_text(c),
    }
}

pub open spec fn head_text(h: HeadModel) -> Seq<char> {
    match h {
        HeadModel::Basic(a) => atom_text(a),
        HeadModel::Choice(a) => "{"@ + atom_text(a) + "}"@,
        HeadModel::Falsity => seq![],
    }
}

pub open spec fn formulas_text(fs: Seq<AtomicFormulaModel>) -> Seq<char>
    decreases fs.len(),
{
    if fs.len() == 0 {
        seq![]
    } else if fs.len() == 1 {
        atomic_formula_text(fs[0])
    } else {
        formulas_text(fs.drop_last()) + ", "@ + atomic_formula_text(fs.last())
    }
}

pub open spec fn body_text(b: BodyModel) -> Seq<char> {
    formulas_text(b.formulas)
}

/// A rule: a fact is its head and a period; otherwise ` :- ` separates head and body.
pub open spec fn rule_text(r: RuleModel) -> Seq<char> {
    if r.head is Falsity || r.body.formulas.len() > 0 {
        head_text(r.head) + " :- "@ + body_text(r.body) + "."@
    } else {
        head_text(r.head) + "."@
    }
}

/// Each rule on a line of its own.
pub open spec fn rules_text(rs: Seq<RuleModel>) -> Seq<char>
    decreases rs.len(),
{
    if rs.len() == 0 {
        seq![]
    } else {
        rules_text(rs.drop_last()) + rule_text(rs.last()) + "\n"@
    }
}

pub open spec fn program_text(p: ProgramModel) -> Seq<char> {
    rules_text(p.rules)
}

// ---------------------------------------------------------------- executable

fn append(out: &mut String, s: &str)
    ensures
        final(out)@ == old(out)@ + s@,
{
    out.append(s);
}

fn precedence(t: &Term) -> (r: u8)
    ensures
        r == term_precedence(t@),
{
    match t {
        Term::PrecomputedTerm(PrecomputedTerm::Numeral(n)) => if *n >= 1 { 1 } else { 0 },
        Term::PrecomputedTerm(_) | Term::Variable(_) | Term::UnaryOperation { .. } => 0,
        Term::BinaryOperation { op, .. } => match op {
            BinaryOperator::Multiply | BinaryOperator::Divide | BinaryOperator::Modulo => 2,
            BinaryOperator::Add | BinaryOperator::Subtract => 3,
            BinaryOperator::Interval => 4,
        },
    }
}

/// The associativity of every term operator.
pub fn term_associativity(_t: &Term) -> (r: Associativity)
    ensures
        r == Associativity::Left,
{
    Associativity::Left
}

fn write_precomputed(out: &mut String, c: &PrecomputedTerm)
    ensures
        final(out)@ == old(out)@ + precomputed_text(c@),
{
    match c {
        PrecomputedTerm::Infimum => append(out, "#inf"),
        PrecomputedTerm::Numeral(n) => push_integer(out, *n),
        PrecomputedTerm::Symbol(s) => append(out, s.as_str()),
        PrecomputedTerm::Supremum => append(out, "#sup"),
    }
}

fn write_operator(out: &mut String, op: BinaryOperator)
    ensures
        final(out)@ == old(out)@ + operator_text(op),
{
    match op {
        BinaryOperator::Add => append(out, " + "),
        BinaryOperator::Subtract => append(out, " - "),
        BinaryOperator::Multiply => append(out, " * "),
        BinaryOperator::Divide => append(out, " / "),
        BinaryOperator::Modulo => append(out, " \\ "),
        BinaryOperator::Interval => append(out, ".."),
    }
}

fn write_wrapped(out: &mut String, t: &Term, paren: bool)
    ensures
        final(out)@ == old(out)@ + wrap(term_text(t@), paren),
    decreases t, 1nat,
{
    if paren {
        append(out, "(");
        write_term(out, t);
        append(out, ")");
        assert(final(out)@ =~= old(out)@ + wrap(term_text(t@), paren));
    } else {
        write_term(out, t);
    }
}

fn write_term(out: &mut String, t: &Term)
    ensures
        final(out)@ == old(out)@ + term_text(t@),
    decreases t, 0nat,
{
    match t {
        Term::PrecomputedTerm(c) => write_precomputed(out, c),
        Term::Variable(v) => append(out, v.0.as_str()),
        Term::UnaryOperation { arg, .. } => {
            append(out, "-");
            let p = precedence(&**arg);
            write_wrapped(out, &**arg, p > 0);
            assert(final(out)@ =~= old(out)@ + term_text(t@));
        },
        Term::BinaryOperation { op, lhs, rhs } => {
            let p = precedence(t);
            let pl = precedence(&**lhs);
            let pr = precedence(&**rhs);
            write_wrapped(out, &**lhs, p < pl);
            write_operator(out, *op);
            write_wrapped(out, &**rhs, p <= pr);
            assert(final(out)@ =~= old(out)@ + term_text(t@));
        },
    }
}

/// The default text of a term.
pub fn format_term(t: &Term) -> (r: String)
    ensures
        r@ == term_text(t@),
{
    let mut out = String::new();
    write_term(&mut out, t);
    assert(out@ =~= term_text(t@));
    out
}

fn write_atom(out: &mut String, a: &Atom)
    ensures
        final(out)@ == old(out)@ + atom_text(a@),
{
    append(out, a.predicate_symbol.as_str());
    if a.terms.len() > 0 {
        append(out, "(");
        let ghost start = out@;
        let mut i: usize = 0;
        while i < a.terms.len()
            invariant
                i <= a.terms.len(),
                out@ == start + terms_text(views(a.terms@).take(i as int)),
            decreases a.terms.len() - i,
        {
            let ghost ts = views(a.terms@).take(i as int + 1);
            assert(ts.drop_last() =~= views(a.terms@).take(i as int));
            if i > 0 {
                append(out, ", ");
            }
            write_term(out, &a.terms[i]);
            proof {
                if i == 0 {
                    assert(out@ =~= start + terms_text(ts));
                } else {
                    assert(out@ =~= start + terms_text(ts));
                }
            }
            i += 1;
        }
        assert(views(a.terms@).take(a.terms.len() as int) =~= views(a.terms@));
        append(out, ")");
        assert(final(out)@ =~= old(out)@ + atom_text(a@));
    }
}

/// The default text of an atom.
pub fn format_atom(a: &Atom) -> (r: String)
    ensures
        r@ == atom_text(a@),
{
    let mut out = String::new();
    write_atom(&mut out, a);
    assert(out@ =~= atom_text(a@));
    out
}

fn write_literal(out: &mut String, l: &Literal)
    ensures
        final(out)@ == old(out)@ + literal_text(l@),
{
    match l.sign {
        Sign::NoSign => {},
        Sign::Negation => append(out, "not "),
        Sign::DoubleNegation => append(out, "not not "),
    }
    write_atom(out, &l.atom);
    assert(final(out)@ =~= old(out)@ + literal_text(l@));
}

fn write_relation(out: &mut String, r: Relation)
    ensures
        final(out)@ == old(out)@ + relation_text(r),
{
    match r {
        Relation::Equal => append(out, "="),
        Relation::NotEqual => append(out, "!="),
        Relation::Less => append(out, "<"),
        Relation::LessEqual => append(out, "<="),
        Relation::Greater => append(out, ">"),
        Relation::GreaterEqual => append(out, ">="),
    }
}

fn write_atomic_formula(out: &mut String, f: &AtomicFormula)
    ensures
        final(out)@ == old(out)@ + atomic_formula_text(f@),
{
    match f {
        AtomicFormula::Literal(l) => write_literal(out, l),
        AtomicFormula::Comparison(c) => {
            write_term(out, &c.lhs);
            append(out, " ");
            write_relation(out, c.relation);
            append(out, " ");
            write_term(out, &c.rhs);
            assert(final(out)@ =~= old(out)@ + atomic_formula_text(f@));
        },
    }
}

fn write_head(out: &mut String, h: &Head)
    ensures
        final(out)@ == old(out)@ + head_text(h@),
{
    match h {
        Head::Basic(a) => write_atom(out, a),
        Head::Choice(a) => {
            append(out, "{");
            write_atom(out, a);
            append(out, "}");
            assert(final(out)@ =~= old(out)@ + head_text(h@));
        },
        Head::Falsity => {
            assert(final(out)@ =~= old(out)@ + head_text(h@));
        },
    }
}

fn write_body(out: &mut String, b: &Body)
    ensures
        final(out)@ == old(out)@ + body_text(b@),
{
    let ghost start = out@;
    let mut i: usize = 0;
    while i < b.formulas.len()
        invariant
            i <= b.formulas.len(),
            out@ == start + formulas_text(views(b.formulas@).take(i as int)),
        decreases b.formulas.len() - i,
    {
        let ghost fs = views(b.formulas@).take(i as int + 1);
        assert(fs.drop_last() =~= views(b.formulas@).take(i as int));
        if i > 0 {
            append(out, ", ");
        }
        write_atomic_formula(out, &b.formulas[i]);
        assert(out@ =~= start + formulas_text(fs));
        i += 1;
    }
    assert(views(b.formulas@).take(b.formulas.len() as int) =~= views(b.formulas@));
    assert(start == old(out)@);
    assert(out@ =~= old(out)@ + body_text(b@));
}

fn write_rule(out: &mut String, r: &Rule)
    ensures
        final(out)@ == old(out)@ + rule_text(r@),
{
    write_head(out, &r.head);
    if matches!(r.head, Head::Falsity) || r.body.formulas.len() > 0 {
        append(out, " :- ");
        write_body(out, &r.body);
    }
    append(out, ".");
    assert(final(out)@ =~= old(out)@ + rule_text(r@));
}

/// The default text of a rule.
pub fn format_rule(r: &Rule) -> (s: String)
    ensures
        s@ == rule_text(r@),
{
    let mut out = String::new();
    write_rule(&mut out, r);
    assert(out@ =~= rule_text(r@));
    out
}

/// The default text of a program: each rule on a line of its own.
pub fn format_program(p: &Program) -> (s: String)
    ensures
        s@ == program_text(p@),
{
    let mut out = String::new();
    let mut i: usize = 0;
    while i < p.rules.len()
        invariant
            i <= p.rules.len(),
            out@ == rules_text(views(p.rules@).take(i as int)),
        decreases p.rules.len() - i,
    {
        assert(views(p.rules@).take(i as int + 1).drop_last() =~= views(p.rules@).take(i as int));
        write_rule(&mut out, &p.rules[i]);
        append(&mut out, "\n");
        assert(out@ =~= rules_text(views(p.rules@).take(i as int + 1)));
        i += 1;
    }
    assert(views(p.rules@).take(p.rules.len() as int) =~= views(p.rules@));
    out
}

/// The symbol of a binary operator.
pub open spec fn operator_symbol(op: BinaryOperator) -> Seq<char> {
    match op {
        BinaryOperator::Add => "+"@,
        BinaryOperator::Subtract => "-"@,
        BinaryOperator::Multiply => "*"@,
        BinaryOperator::Divide => "/"@,
        BinaryOperator::Modulo => "\\"@,
        BinaryOperator::Interval => ".."@,
    }
}

/// The words of a sign.
pub open spec fn sign_text(s: Sign) -> Seq<char> {
    match s {
        Sign::NoSign => seq![],
        Sign::Negation => "not"@,
        Sign::DoubleNegation => "not not"@,
    }
}

/// The default text of a precomputed term.
pub fn format_precomputed_term(c: &PrecomputedTerm) -> (r: String)
    ensures
        r@ == precomputed_text(c@),
{
    let mut out = String::new();
    write_precomputed(&mut out, c);
    assert(out@ =~= precomputed_text(c@));
    out
}

/// The symbol of a binary operator.
pub fn format_binary_operator(op: BinaryOperator) -> (r: String)
    ensures
        r@ == operator_symbol(op),
{
    let mut out = String::new();
    match op {
        BinaryOperator::Add => append(&mut out, "+"),
        BinaryOperator::Subtract => append(&mut out, "-"),
        BinaryOperator::Multiply => append(&mut out, "*"),
        BinaryOperator::Divide => append(&mut out, "/"),
        BinaryOperator::Modulo => append(&mut out, "\\"),
        BinaryOperator::Interval => append(&mut out, ".."),
    }
    assert(out@ =~= operator_symbol(op));
    out
}

/// The words of a sign.
pub fn format_sign(s: Sign) -> (r: String)
    ensures
        r@ == sign_text(s),
{
    let mut out = String::new();
    match s {
        Sign::NoSign => {},
        Sign::Negation => append(&mut out, "not"),
        Sign::DoubleNegation => append(&mut out, "not not"),
    }
    assert(out@ =~= sign_text(s));
    out
}

/// The default text of a literal.
pub fn format_literal(l: &Literal) -> (r: String)
    ensures
        r@ == literal_text(l@),
{
    let mut out = String::new();
    write_literal(&mut out, l);
    assert(out@ =~= literal_text(l@));
    out
}

/// The symbol of a relation.
pub fn format_relation(r: Relation) -> (s: String)
    ensures
        s@ == relation_text(r),
{
    let mut out = String::new();
    write_relation(&mut out, r);
    assert(out@ =~= relation_text(r));
    out
}

/// The default text of an atomic formula.
pub fn format_atomic_formula(f: &AtomicFormula) -> (r: String)
    ensures
        r@ == atomic_formula_text(f@),
{
    let mut out = String::new();
    write_atomic_formula(&mut out, f);
    assert(out@ =~= atomic_formula_text(f@));
    out
}

/// The default text of a comparison: both terms around the relation.
pub fn format_comparison(c: &Comparison) -> (r: String)
    ensures
        r@ == comparison_text(c@),
{
    let mut out = String::new();
    write_term(&mut out, &c.lhs);
    append(&mut out, " ");
    write_relation(&mut out, c.relation);
    append(&mut out, " ");
    write_term(&mut out, &c.rhs);
    assert(out@ =~= comparison_text(c@));
    out
}

/// The default text of a head; that of falsity is empty.
pub fn format_head(h: &Head) -> (r: String)
    ensures
        r@ == head_text(h@),
{
    let mut out = String::new();
    write_head(&mut out, h);
    assert(out@ =~= head_text(h@));
    out
}

/// The default text of a body: its formulas separated by `, `.
pub fn format_body(b: &Body) -> (r: String)
    ensures
        r@ == body_text(b@),
{
    let mut out = String::new();
    write_body(&mut out, b);
    assert(out@ =~= body_text(b@));
    out
}

/// The symbol of the unary operator: a minus sign.
pub fn format_unary_operator(op: UnaryOperator) -> (r: String)
    ensures
        r@ == "-"@,
{
    let mut out = String::new();
    match op {
        UnaryOperator::Negative => append(&mut out, "-"),
    }
    assert(out@ =~= "-"@);
    out
}

} // verus!
