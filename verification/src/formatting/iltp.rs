//! The ILTP form of first-order formulas: untyped TPTP for intuitionistic
//! provers. It covers the fragment without integers, function constants and
//! sorted variables.

use crate::convenience::sets::views;
use crate::formatting::fol::wrap;
use crate::syntax_tree::fol::{
    Atom, AtomModel, AtomicFormula, AtomicFormulaModel, BinaryConnective, Comparison,
    ComparisonModel, Formula, FormulaModel, GeneralTerm, GeneralTermModel, GuardModel,
    Quantification, QuantificationModel, Quantifier, Relation, Sort, SymbolicTerm,
    SymbolicTermModel, VariableModel,
};
use vstd::prelude::*;

verus! {

// ================================================================ the fragment

/// The general terms of the fragment: variables and symbols.
pub open spec fn supported_term(t: GeneralTermModel) -> bool {
    match t {
        GeneralTermModel::Variable(_) => true,
        GeneralTermModel::SymbolicTerm(SymbolicTermModel::Symbol(_)) => true,
        _ => false,
    }
}

pub open spec fn supported_terms(ts: Seq<GeneralTermModel>) -> bool {
    forall|i: int| 0 <= i < ts.len() ==> supported_term(#[trigger] ts[i])
}

/// A comparison is written out through its guards; without guards nothing of
/// it is written.
pub open spec fn supported_comparison(c: ComparisonModel) -> bool {
    c.guards.len() == 0 || (supported_term(c.term)
        && forall|i: int| 0 <= i < c.guards.len() ==> supported_term(#[trigger] c.guards[i].term))
}

pub open spec fn supported_atomic(a: AtomicFormulaModel) -> bool {
    match a {
        AtomicFormulaModel::Atom(a) => supported_terms(a.terms),
        AtomicFormulaModel::Comparison(c) => supported_comparison(c),
        _ => true,
    }
}

pub open spec fn supported_quantification(q: QuantificationModel) -> bool {
    forall|i: int| 0 <= i < q.variables.len() ==> (#[trigger] q.variables[i]).sort == Sort::General
}

/// The formulas that have an ILTP form.
pub open spec fn supported(f: FormulaModel) -> bool
    decreases f,
{
    match f {
        FormulaModel::AtomicFormula(a) => supported_atomic(a),
        FormulaModel::UnaryFormula { formula, .. } => supported(*formula),
        FormulaModel::QuantifiedFormula { quantification, formula } =>
            supported_quantification(quantification) && supported(*formula),
        FormulaModel::BinaryFormula { lhs, rhs, .. } => supported(*lhs) && supported(*rhs),
    }
}

// ================================================================ the text, as a specification

pub open spec fn term_text(t: GeneralTermModel) -> Seq<char> {
    match t {
        GeneralTermModel::Variable(v) => v,
        GeneralTermModel::SymbolicTerm(SymbolicTermModel::Symbol(s)) => s,
        _ => seq![],
    }
}

pub open spec fn terms_text(ts: Seq<GeneralTermModel>) -> Seq<char>
    decreases ts.len(),
{
    if ts.len() == 0 {
        seq![]
    } else if ts.len() == 1 {
        term_text(ts[0])
    } else {
        terms_text(ts.drop_last()) + ", "@ + term_text(ts.last())
    }
}

pub open spec fn atom_text(a: AtomModel) -> Seq<char> {
    if a.terms.len() == 0 {
        a.predicate_symbol
    } else {
        a.predicate_symbol + "("@ + terms_text(a.terms) + ")"@
    }
}

pub open spec fn relation_text(r: Relation) -> Seq<char> {
    match r {
        Relation::Equal => "="@,
        Relation::NotEqual => "!="@,
        Relation::GreaterEqual => "p__greater_equal__"@,
        Relation::LessEqual => "p__less_equal__"@,
        Relation::Greater => "p__greater__"@,
        Relation::Less => "p__less__"@,
    }
}

/// ILTP writes each relation as TPTP writes it between general terms, so the
/// problems of both formats rest on the same predicates of the preamble.
pub proof fn lemma_relations_as_in_tptp(r: Relation)
    ensures
        relation_text(r) == crate::formatting::tptp::general_relation_text(r),
{
}

/// `lhs = rhs`, `lhs != rhs`, or the order predicate applied to both.
pub open spec fn individual_text(lhs: GeneralTermModel, r: Relation, rhs: GeneralTermModel) -> Seq<char> {
    if r == Relation::Equal || r == Relation::NotEqual {
        term_text(lhs) + " "@ + relation_text(r) + " "@ + term_text(rhs)
    } else {
        relation_text(r) + "("@ + term_text(lhs) + ", "@ + term_text(rhs) + ")"@
    }
}

pub open spec fn individuals_text(term: GeneralTermModel, guards: Seq<GuardModel>) -> Seq<char>
    decreases guards.len(),
{
    if guards.len() == 0 {
        seq![]
    } else if guards.len() == 1 {
        individual_text(term, guards[0].relation, guards[0].term)
    } else {
        individuals_text(term, guards.drop_last()) + " & "@
            + individual_text(guards[guards.len() - 2].term, guards.last().relation, guards.last().term)
    }
}

pub open spec fn comparison_text(c: ComparisonModel) -> Seq<char> {
    individuals_text(c.term, c.guards)
}

pub open spec fn atomic_text(a: AtomicFormulaModel) -> Seq<char> {
    match a {
        AtomicFormulaModel::Truth => "$true"@,
        AtomicFormulaModel::Falsity => "$false"@,
        AtomicFormulaModel::Atom(a) => atom_text(a),
        AtomicFormulaModel::Comparison(c) => comparison_text(c),
    }
}

pub open spec fn variables_text(vs: Seq<VariableModel>) -> Seq<char>
    decreases vs.len(),
{
    if vs.len() == 0 {
        seq![]
    } else if vs.len() == 1 {
        vs[0].name
    } else {
        variables_text(vs.drop_last()) + ", "@ + vs.last().name
    }
}

pub open spec fn quantification_text(q: QuantificationModel) -> Seq<char> {
    (if q.quantifier == Quantifier::Forall { "!"@ } else { "?"@ }) + "["@ + variables_text(q.variables) + "]"@
}

pub open spec fn connective_text(c: BinaryConnective) -> Seq<char> {
    match c {
        BinaryConnective::Equivalence => "<=>"@,
        BinaryConnective::Implication => "=>"@,
        BinaryConnective::ReverseImplication => "<="@,
        BinaryConnective::Conjunction => "&"@,
        BinaryConnective::Disjunction => "|"@,
    }
}

/// A formula: the operand of a negation is parenthesized if it is quantified
/// or binary, the body of a quantified formula always, and of the operands of
/// a binary connective only a binary right one.
pub open spec fn formula_text(f: FormulaModel) -> Seq<char>
    decreases f,
{
    match f {
        FormulaModel::AtomicFormula(a) => atomic_text(a),
        FormulaModel::UnaryFormula { formula, .. } =>
            "~"@ + wrap(formula_text(*formula), *formula is QuantifiedFormula || *formula is BinaryFormula),
        FormulaModel::QuantifiedFormula { quantification, formula } =>
            quantification_text(quantification) + ": ("@ + formula_text(*formula) + ")"@,
        FormulaModel::BinaryFormula { connective, lhs, rhs } =>
            formula_text(*lhs) + " "@ + connective_text(connective) + " "@
                + wrap(formula_text(*rhs), *rhs is BinaryFormula),
    }
}

// ================================================================ executable

fn append(out: &mut String, s: &str)
    ensures
        final(out)@ == old(out)@ + s@,
{
    out.append(s);
}

fn write_term(out: &mut String, t: &GeneralTerm)
    requires
        supported_term(t@),
    ensures
        final(out)@ == old(out)@ + term_text(t@),
{
    match t {
        GeneralTerm::Variable(v) => append(out, v.as_str()),
        GeneralTerm::SymbolicTerm(SymbolicTerm::Symbol(s)) => append(out, s.as_str()),
        _ => {},
    }
}

/// The ILTP text of a general term: a variable or a symbol.
pub fn format_general_term(t: &GeneralTerm) -> (r: String)
    requires
        supported_term(t@),
    ensures
        r@ == term_text(t@),
{
    let mut out = String::new();
    write_term(&mut out, t);
    assert(out@ =~= term_text(t@));
    out
}

/// The ILTP text of a symbol.
pub fn format_symbolic_term(t: &SymbolicTerm) -> (r: String)
    requires
        t is Symbol,
    ensures
        r@ == t@->Symbol_0,
{
    match t {
        SymbolicTerm::Symbol(s) => s.clone(),
        _ => String::new(),
    }
}

fn write_atom(out: &mut String, a: &Atom)
    requires
        supported_terms(a@.terms),
    ensures
        final(out)@ == old(out)@ + atom_text(a@),
{
    append(out, a.predicate_symbol.as_str());
    if a.terms.len() > 0 {
        append(out, "(");
        let ghost start = out@;
        let mut i: usize = 0;
        while i < a.terms.len()
            invariant
                i <= a.terms.len(),
                supported_terms(a@.terms),
                out@ == start + terms_text(views(a.terms@).take(i as int)),
            decreases a.terms.len() - i,
        {
            let ghost ts = views(a.terms@).take(i as int + 1);
            assert(ts.drop_last() =~= views(a.terms@).take(i as int));
            assert(supported_term(a@.terms[i as int]));
            if i > 0 {
                append(out, ", ");
            }
            write_term(out, &a.terms[i]);
            assert(out@ =~= start + terms_text(ts));
            i += 1;
        }
        assert(views(a.terms@).take(a.terms.len() as int) =~= views(a.terms@));
        append(out, ")");
        assert(final(out)@ =~= old(out)@ + atom_text(a@));
    }
}

/// The ILTP text of an atom.
pub fn format_atom(a: &Atom) -> (r: String)
    requires
        supported_terms(a@.terms),
    ensures
        r@ == atom_text(a@),
{
    let mut out = String::new();
    write_atom(&mut out, a);
    assert(out@ =~= atom_text(a@));
    out
}

fn write_relation(out: &mut String, r: Relation)
    ensures
        final(out)@ == old(out)@ + relation_text(r),
{
    match r {
        Relation::Equal => append(out, "="),
        Relation::NotEqual => append(out, "!="),
        Relation::GreaterEqual => append(out, "p__greater_equal__"),
        Relation::LessEqual => append(out, "p__less_equal__"),
        Relation::Greater => append(out, "p__greater__"),
        Relation::Less => append(out, "p__less__"),
    }
}

fn write_individual(out: &mut String, lhs: &GeneralTerm, r: Relation, rhs: &GeneralTerm)
    requires
        supported_term(lhs@),
        supported_term(rhs@),
    ensures
        final(out)@ == old(out)@ + individual_text(lhs@, r, rhs@),
{
    if matches!(r, Relation::Equal | Relation::NotEqual) {
        write_term(out, lhs);
        append(out, " ");
        write_relation(out, r);
        append(out, " ");
        write_term(out, rhs);
    } else {
        write_relation(out, r);
        append(out, "(");
        write_term(out, lhs);
        append(out, ", ");
        write_term(out, rhs);
        append(out, ")");
    }
    assert(final(out)@ =~= old(out)@ + individual_text(lhs@, r, rhs@));
}

fn write_comparison(out: &mut String, c: &Comparison)
    requires
        supported_comparison(c@),
    ensures
        final(out)@ == old(out)@ + comparison_text(c@),
{
    let ghost start = out@;
    let ghost gs = views(c.guards@);
    let mut i: usize = 0;
    while i < c.guards.len()
        invariant
            i <= c.guards.len(),
            gs == views(c.guards@),
            c.guards.len() > 0 ==> supported_term(c@.term),
            forall|k: int| 0 <= k < c@.guards.len() ==> supported_term(#[trigger] c@.guards[k].term),
            out@ == start + individuals_text(c@.term, gs.take(i as int)),
        decreases c.guards.len() - i,
    {
        let ghost next = gs.take(i as int + 1);
        assert(next.drop_last() =~= gs.take(i as int));
        assert(supported_term(c@.guards[i as int].term));
        if i > 0 {
            assert(supported_term(c@.guards[i - 1].term));
            append(out, " & ");
            write_individual(out, &c.guards[i - 1].term, c.guards[i].relation, &c.guards[i].term);
        } else {
            write_individual(out, &c.term, c.guards[i].relation, &c.guards[i].term);
        }
        assert(out@ =~= start + individuals_text(c@.term, next));
        i += 1;
    }
    assert(gs.take(c.guards.len() as int) =~= gs);
    assert(final(out)@ =~= old(out)@ + comparison_text(c@));
}

fn write_atomic_formula(out: &mut String, a: &AtomicFormula)
    requires
        supported_atomic(a@),
    ensures
        final(out)@ == old(out)@ + atomic_text(a@),
{
    match a {
        AtomicFormula::Truth => append(out, "$true"),
        AtomicFormula::Falsity => append(out, "$false"),
        AtomicFormula::Atom(a) => write_atom(out, a),
        AtomicFormula::Comparison(c) => write_comparison(out, c),
    }
}

fn write_quantification(out: &mut String, q: &Quantification)
    ensures
        final(out)@ == old(out)@ + quantification_text(q@),
{
    match q.quantifier {
        Quantifier::Forall => append(out, "!"),
        Quantifier::Exists => append(out, "?"),
    }
    append(out, "[");
    let ghost start = out@;
    let mut i: usize = 0;
    while i < q.variables.len()
        invariant
            i <= q.variables.len(),
            out@ == start + variables_text(views(q.variables@).take(i as int)),
        decreases q.variables.len() - i,
    {
        let ghost vs = views(q.variables@).take(i as int + 1);
        assert(vs.drop_last() =~= views(q.variables@).take(i as int));
        if i > 0 {
            append(out, ", ");
        }
        append(out, q.variables[i].name.as_str());
        assert(out@ =~= start + variables_text(vs));
        i += 1;
    }
    assert(views(q.variables@).take(q.variables.len() as int) =~= views(q.variables@));
    append(out, "]");
    assert(final(out)@ =~= old(out)@ + quantification_text(q@));
}

/// The ILTP text of a quantification over general variables.
pub fn format_quantification(q: &Quantification) -> (r: String)
    requires
        supported_quantification(q@),
    ensures
        r@ == quantification_text(q@),
{
    let mut out = String::new();
    write_quantification(&mut out, q);
    assert(out@ =~= quantification_text(q@));
    out
}

fn write_connective(out: &mut String, c: BinaryConnective)
    ensures
        final(out)@ == old(out)@ + connective_text(c),
{
    match c {
        BinaryConnective::Equivalence => append(out, "<=>"),
        BinaryConnective::Implication => append(out, "=>"),
        BinaryConnective::ReverseImplication => append(out, "<="),
        BinaryConnective::Conjunction => append(out, "&"),
        BinaryConnective::Disjunction => append(out, "|"),
    }
}

fn write_wrapped_formula(out: &mut String, f: &Formula, paren: bool)
    requires
        supported(f@),
    ensures
        final(out)@ == old(out)@ + wrap(formula_text(f@), paren),
    decreases f, 1nat,
{
    if paren {
        append(out, "(");
        write_formula(out, f);
        append(out, ")");
        assert(final(out)@ =~= old(out)@ + wrap(formula_text(f@), paren));
    } else {
        write_formula(out, f);
    }
}

#[verifier::rlimit(40)]
fn write_formula(out: &mut String, f: &Formula)
    requires
        supported(f@),
    ensures
        final(out)@ == old(out)@ + formula_text(f@),
    decreases f, 0nat,
{
    match f {
        Formula::AtomicFormula(a) => write_atomic_formula(out, a),
        Formula::UnaryFormula { formula, .. } => {
            append(out, "~");
            let paren = matches!(**formula, Formula::QuantifiedFormula { .. } | Formula::BinaryFormula { .. });
            write_wrapped_formula(out, &**formula, paren);
            assert(final(out)@ =~= old(out)@ + formula_text(f@));
        },
        Formula::QuantifiedFormula { quantification, formula } => {
            write_quantification(out, quantification);
            append(out, ": (");
            write_formula(out, &**formula);
            append(out, ")");
            assert(final(out)@ =~= old(out)@ + formula_text(f@));
        },
        Formula::BinaryFormula { connective, lhs, rhs } => {
            write_formula(out, &**lhs);
            append(out, " ");
            write_connective(out, *connective);
            append(out, " ");
            let paren = matches!(**rhs, Formula::BinaryFormula { .. });
            write_wrapped_formula(out, &**rhs, paren);
            assert(final(out)@ =~= old(out)@ + formula_text(f@));
        },
    }
}

/// The ILTP text of a formula of the fragment.
pub fn format_formula(f: &Formula) -> (r: String)
    requires
        supported(f@),
    ensures
        r@ == formula_text(f@),
{
    let mut out = String::new();
    write_formula(&mut out, f);
    assert(out@ =~= formula_text(f@));
    out
}

} // verus!
