//! Tightness: no predicate depends positively on itself, and the private
//! predicates neither occur in choice rules nor depend on themselves.

use crate::analyzing::graph::{cyclic, edge_relation, is_cycle, is_cyclic, lemma_cyclic_by_position};
use crate::analyzing::private_recursion::{private_choice, private_dependency, PrivateRecursion};
use crate::convenience::sets::{lemma_push_contains, lemma_set_extend_no_duplicates, lemma_take_next_contains, set_extend, views};
use crate::syntax_tree::asp::{AtomicFormulaModel, HeadModel, LiteralModel, Sign, Predicate, PredicateModel, Program, ProgramModel, RuleModel};
use crate::syntax_tree::asp_ops::{formulas_positive_predicates, formulas_predicates, rules_predicates};
use vstd::prelude::*;

verus! {

/// The rule `r` has the head predicate `a` and `b` in a positive body literal.
pub open spec fn rule_depends_positively(r: RuleModel, a: PredicateModel, b: PredicateModel) -> bool {
    r.head.predicate() == Some(a) && r.body.positive_predicates().contains(b)
}

/// The positive dependency graph of a program: an edge from the head
/// predicate of each rule to each predicate of a positive body literal.
pub open spec fn positive_dependency(p: ProgramModel) -> spec_fn(PredicateModel, PredicateModel) -> bool {
    |a: PredicateModel, b: PredicateModel|
        exists|k: int| 0 <= k < p.rules.len() && #[trigger] rule_depends_positively(p.rules[k], a, b)
}

/// A program is tight if its positive dependency graph has no cycle.
pub open spec fn tight(p: ProgramModel) -> bool {
    !cyclic(positive_dependency(p))
}

/// A program in which no rule has a positive body literal is tight.
pub proof fn lemma_tight_without_positive_bodies(p: ProgramModel)
    requires
        forall|k: int| 0 <= k < p.rules.len() ==> (#[trigger] p.rules[k]).body.positive_predicates().len() == 0,
    ensures
        tight(p),
{
    let rel = positive_dependency(p);
    if cyclic(rel) {
        let path = choose|path: Seq<PredicateModel>| is_cycle(rel, path);
        assert(rel(path[0], path[1]));
        let k = choose|k: int| 0 <= k < p.rules.len() && #[trigger] rule_depends_positively(p.rules[k], path[0], path[1]);
        assert(p.rules[k].body.positive_predicates().len() == 0);
    }
}

/// An unsigned literal is positive whatever the arity of its atom: its
/// predicate is its only positive predicate. A negated literal has none.
pub proof fn lemma_literal_positive_predicates(l: LiteralModel)
    ensures
        l.sign == Sign::NoSign ==> AtomicFormulaModel::Literal(l).positive_predicates() == seq![l.atom.predicate()],
        l.sign != Sign::NoSign ==> AtomicFormulaModel::Literal(l).positive_predicates().len() == 0,
{
}

/// The positive predicates of a body hold those of each of its formulas.
pub proof fn lemma_body_positive_predicates(fs: Seq<AtomicFormulaModel>, i: int, x: PredicateModel)
    requires
        0 <= i < fs.len(),
        fs[i].positive_predicates().contains(x),
    ensures
        formulas_positive_predicates(fs).contains(x),
    decreases fs.len(),
{
    crate::convenience::sets::lemma_set_extend_contains(formulas_positive_predicates(fs.drop_last()), fs.last().positive_predicates());
    if i < fs.len() - 1 {
        lemma_body_positive_predicates(fs.drop_last(), i, x);
    }
}

/// A rule whose body holds an unsigned literal makes its head predicate
/// depend positively on the literal's predicate, whatever their arities.
pub proof fn lemma_unsigned_literal_edge(p: ProgramModel, k: int, i: int, l: LiteralModel)
    requires
        0 <= k < p.rules.len(),
        0 <= i < p.rules[k].body.formulas.len(),
        p.rules[k].body.formulas[i] == AtomicFormulaModel::Literal(l),
        l.sign == Sign::NoSign,
        p.rules[k].head.predicate() is Some,
    ensures
        (positive_dependency(p))(p.rules[k].head.predicate()->Some_0, l.atom.predicate()),
{
    lemma_literal_positive_predicates(l);
    assert(seq![l.atom.predicate()][0] == l.atom.predicate());
    assert(p.rules[k].body.formulas[i].positive_predicates().contains(l.atom.predicate()));
    lemma_body_positive_predicates(p.rules[k].body.formulas, i, l.atom.predicate());
    assert(rule_depends_positively(p.rules[k], p.rules[k].head.predicate()->Some_0, l.atom.predicate()));
}

/// A program with a rule whose head predicate occurs in an unsigned literal
/// of its own body is not tight.
pub proof fn lemma_positive_self_dependency_not_tight(p: ProgramModel, k: int, i: int, l: LiteralModel)
    requires
        0 <= k < p.rules.len(),
        0 <= i < p.rules[k].body.formulas.len(),
        p.rules[k].body.formulas[i] == AtomicFormulaModel::Literal(l),
        l.sign == Sign::NoSign,
        p.rules[k].head.predicate() == Some(l.atom.predicate()),
    ensures
        !tight(p),
{
    lemma_unsigned_literal_edge(p, k, i, l);
    let x = l.atom.predicate();
    let path = seq![x, x];
    assert(is_cycle(positive_dependency(p), path));
}

// ================================================================ what the predicates of a program hold

pub proof fn lemma_formulas_predicates(fs: Seq<AtomicFormulaModel>)
    ensures
        formulas_predicates(fs).no_duplicates(),
        formulas_positive_predicates(fs).no_duplicates(),
        forall|x: PredicateModel| #[trigger] formulas_positive_predicates(fs).contains(x) ==> formulas_predicates(fs).contains(x),
    decreases fs.len(),
{
    if fs.len() > 0 {
        lemma_formulas_predicates(fs.drop_last());
        lemma_set_extend_no_duplicates(formulas_predicates(fs.drop_last()), fs.last().predicates());
        lemma_set_extend_no_duplicates(formulas_positive_predicates(fs.drop_last()), fs.last().positive_predicates());
        assert forall|x: PredicateModel| #[trigger] formulas_positive_predicates(fs).contains(x)
            implies formulas_predicates(fs).contains(x) by {
            if fs.last().positive_predicates().contains(x) {
                assert(fs.last().predicates().contains(x));
            } else {
                assert(formulas_positive_predicates(fs.drop_last()).contains(x));
            }
        }
    }
}

pub proof fn lemma_rule_predicates(r: RuleModel)
    ensures
        r.predicates().no_duplicates(),
        forall|x: PredicateModel| #[trigger] r.predicates().contains(x) <==> (r.body.predicates().contains(x) || r.head.predicates().contains(x)),
        forall|x: PredicateModel| r.body.positive_predicates().contains(x) ==> #[trigger] r.predicates().contains(x),
        forall|x: PredicateModel| r.head.predicate() == Some(x) ==> #[trigger] r.predicates().contains(x),
{
    lemma_formulas_predicates(r.body.formulas);
    lemma_set_extend_no_duplicates(r.body.predicates(), r.head.predicates());
    assert forall|x: PredicateModel| r.head.predicate() == Some(x) implies #[trigger] r.predicates().contains(x) by {
        match r.head {
            HeadModel::Basic(a) => {
                assert(r.head.predicates()[0] == x);
                assert(r.head.predicates().contains(x));
            },
            HeadModel::Choice(a) => {
                assert(r.head.predicates()[0] == x);
                assert(r.head.predicates().contains(x));
            },
            HeadModel::Falsity => {},
        }
    }
}

/// The predicates of a program occur once each, and hold those of every rule.
pub proof fn lemma_program_predicates(rs: Seq<RuleModel>)
    ensures
        rules_predicates(rs).no_duplicates(),
        forall|k: int, x: PredicateModel| 0 <= k < rs.len() && #[trigger] rs[k].predicates().contains(x)
            ==> rules_predicates(rs).contains(x),
    decreases rs.len(),
{
    if rs.len() > 0 {
        lemma_program_predicates(rs.drop_last());
        lemma_set_extend_no_duplicates(rules_predicates(rs.drop_last()), rs.last().predicates());
        assert forall|k: int, x: PredicateModel| 0 <= k < rs.len() && #[trigger] rs[k].predicates().contains(x)
            implies rules_predicates(rs).contains(x) by {
            if k < rs.len() - 1 {
                assert(rs.drop_last()[k] == rs[k]);
            }
        }
    }
}

// ================================================================ positions

/// The position of a predicate among the predicates.
pub(crate) fn position(v: &Vec<Predicate>, x: &Predicate) -> (r: usize)
    requires
        views(v@).contains(x@),
    ensures
        r < v.len(),
        v@[r as int]@ == x@,
{
    let mut i: usize = 0;
    while i < v.len()
        invariant
            i <= v.len(),
            views(v@).contains(x@),
            forall|j: int| 0 <= j < i ==> v@[j]@ != x@,
        decreases v.len() - i,
    {
        if v[i].symbol == x.symbol && v[i].arity == x.arity {
            return i;
        }
        i += 1;
    }
    proof {
        let k = choose|k: int| 0 <= k < views(v@).len() && views(v@)[k] == x@;
        assert(v@[k]@ == x@);
    }
    0
}

/// Adds an edge from `hi` to the position of each of `targets` in `nodes`.
pub(crate) fn push_edges(edges: &mut Vec<(usize, usize)>, nodes: &Vec<Predicate>, hi: usize, targets: &Vec<Predicate>)
    requires
        hi < nodes.len(),
        views(nodes@).no_duplicates(),
        forall|x: PredicateModel| #[trigger] views(targets@).contains(x) ==> views(nodes@).contains(x),
    ensures
        forall|i: usize, j: usize| #[trigger] final(edges)@.contains((i, j)) <==> (old(edges)@.contains((i, j))
            || (i == hi && j < nodes.len() && views(targets@).contains(views(nodes@)[j as int]))),
{
    let ghost ns = views(nodes@);
    let ghost ts = views(targets@);
    let ghost before = edges@;
    let mut m: usize = 0;
    while m < targets.len()
        invariant
            hi < nodes.len(),
            ns == views(nodes@),
            ts == views(targets@),
            ns.no_duplicates(),
            forall|x: PredicateModel| #[trigger] ts.contains(x) ==> ns.contains(x),
            m <= targets.len(),
            forall|i: usize, j: usize| #[trigger] edges@.contains((i, j)) <==> (before.contains((i, j))
                || (i == hi && j < ns.len() && ts.take(m as int).contains(ns[j as int]))),
        decreases targets.len() - m,
    {
        assert(ts[m as int] == targets@[m as int]@);
        assert(ts.contains(ts[m as int]));
        let bi = position(nodes, &targets[m]);
        let ghost old_edges = edges@;
        edges.push((hi, bi));
        proof {
            lemma_take_next_contains(ts, m as int);
            lemma_push_contains(old_edges, (hi, bi));
            assert(edges@ =~= old_edges.push((hi, bi)));
            assert forall|i: usize, j: usize| #[trigger] edges@.contains((i, j)) <==> (before.contains((i, j))
                || (i == hi && j < ns.len() && ts.take(m as int + 1).contains(ns[j as int]))) by {
                if i == hi && j < ns.len() && ns[j as int] == ts[m as int] {
                    assert(ns[j as int] == ns[bi as int]);
                    assert(j == bi);
                }
            }
        }
        m += 1;
    }
    assert(ts.take(targets.len() as int) =~= ts);
}

/// The edges between the positions of the predicates of `p` in `nodes` that
/// stand for the positive dependencies of the first `k` rules.
pub open spec fn positive_edges_up_to(p: ProgramModel, nodes: Seq<PredicateModel>, k: int, i: usize, j: usize) -> bool {
    i < nodes.len() && j < nodes.len()
        && exists|m: int| 0 <= m < k && #[trigger] rule_depends_positively(p.rules[m], nodes[i as int], nodes[j as int])
}

fn positive_dependency_edges(p: &Program, nodes: &Vec<Predicate>) -> (edges: Vec<(usize, usize)>)
    requires
        views(nodes@) == p@.predicates(),
    ensures
        forall|i: usize, j: usize| #[trigger] edges@.contains((i, j))
            <==> (i < nodes.len() && j < nodes.len() && positive_dependency(p@)(views(nodes@)[i as int], views(nodes@)[j as int])),
{
    let ghost ns = views(nodes@);
    proof {
        lemma_program_predicates(p@.rules);
    }
    let mut edges: Vec<(usize, usize)> = Vec::new();
    let mut k: usize = 0;
    while k < p.rules.len()
        invariant
            k <= p.rules.len(),
            ns == views(nodes@),
            ns == p@.predicates(),
            ns.no_duplicates(),
            forall|m: int, x: PredicateModel| 0 <= m < p@.rules.len() && #[trigger] p@.rules[m].predicates().contains(x)
                ==> ns.contains(x),
            forall|i: usize, j: usize| #[trigger] edges@.contains((i, j)) <==> positive_edges_up_to(p@, ns, k as int, i, j),
        decreases p.rules.len() - k,
    {
        let rule = &p.rules[k];
        proof {
            lemma_rule_predicates(rule@);
        }
        let ghost before = edges@;
        match rule.head.predicate() {
            Some(h) => {
                assert(p@.rules[k as int] == rule@);
                assert(rule@.predicates().contains(h@));
                assert(p@.rules[k as int].predicates().contains(h@));
                let hi = position(nodes, &h);
                let bs = rule.body.positive_predicates();
                proof {
                    assert forall|x: PredicateModel| #[trigger] views(bs@).contains(x) implies ns.contains(x) by {
                        assert(rule@.body.positive_predicates().contains(x));
                        assert(p@.rules[k as int].predicates().contains(x));
                    }
                }
                push_edges(&mut edges, nodes, hi, &bs);
                proof {
                    assert forall|i: usize, j: usize| #[trigger] edges@.contains((i, j))
                        <==> positive_edges_up_to(p@, ns, k + 1, i, j) by {
                        if edges@.contains((i, j)) && !before.contains((i, j)) {
                            assert(rule_depends_positively(p@.rules[k as int], ns[i as int], ns[j as int]));
                        }
                        if positive_edges_up_to(p@, ns, k + 1, i, j) {
                            let w = choose|w: int| 0 <= w < k + 1 && #[trigger] rule_depends_positively(p@.rules[w], ns[i as int], ns[j as int]);
                            if w == k {
                                assert(ns[i as int] == ns[hi as int]);
                            } else {
                                assert(positive_edges_up_to(p@, ns, k as int, i, j));
                            }
                        }
                    }
                }
            },
            None => {
                proof {
                    assert forall|i: usize, j: usize| #[trigger] edges@.contains((i, j))
                        <==> positive_edges_up_to(p@, ns, k + 1, i, j) by {
                        if positive_edges_up_to(p@, ns, k + 1, i, j) {
                            let w = choose|w: int| 0 <= w < k + 1 && #[trigger] rule_depends_positively(p@.rules[w], ns[i as int], ns[j as int]);
                            assert(w != k);
                        }
                    }
                }
            },
        }
        k += 1;
    }
    edges
}

/// Checks on the dependency graphs of a program.
pub trait Tightness {
    fn is_tight(&self) -> bool;

    fn private_recursion_free(&self, private_predicates: Vec<Predicate>) -> bool;
}

impl Tightness for Program {
    /// Whether the positive dependency graph of the program has no cycle.
    fn is_tight(&self) -> (r: bool)
        ensures
            r == tight(self@),
    {
        let nodes = self.predicates();
        let edges = positive_dependency_edges(self, &nodes);
        proof {
            lemma_program_predicates(self@.rules);
            let rel = positive_dependency(self@);
            assert forall|a: PredicateModel, b: PredicateModel| #[trigger] rel(a, b)
                implies views(nodes@).contains(a) && views(nodes@).contains(b) by {
                let k = choose|k: int| 0 <= k < self@.rules.len() && #[trigger] rule_depends_positively(self@.rules[k], a, b);
                lemma_rule_predicates(self@.rules[k]);
                assert(self@.rules[k].predicates().contains(a));
                assert(self@.rules[k].predicates().contains(b));
            }
            assert forall|i: usize, j: usize| #[trigger] edges@.contains((i, j))
                <==> (i < views(nodes@).len() && j < views(nodes@).len() && rel(views(nodes@)[i as int], views(nodes@)[j as int])) by {}
            assert(views(nodes@).len() == nodes.len());
            lemma_cyclic_by_position(views(nodes@), rel, edges@);
        }
        !is_cyclic(&edges)
    }

    /// Whether no private predicate occurs in the head of a choice rule or
    /// depends on itself through rules with private heads.
    fn private_recursion_free(&self, private_predicates: Vec<Predicate>) -> (r: bool)
        ensures
            r == !(private_choice(self@, views(private_predicates@))
                || cyclic(private_dependency(self@, views(private_predicates@)))),
    {
        !self.has_private_recursion(&private_predicates)
    }
}

} // verus!
