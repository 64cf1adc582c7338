//! Private recursion: a private predicate in the head of a choice rule, or
//! one that depends on itself through rules with private heads.

use crate::analyzing::graph::{cyclic, is_cyclic, lemma_cyclic_by_position};
use crate::analyzing::tightness::{lemma_program_predicates, lemma_rule_predicates, position, push_edges};
use crate::convenience::sets::{contains, lemma_push_contains, lemma_take_next_contains, views};
use crate::syntax_tree::asp::{Head, HeadModel, Predicate, PredicateModel, Program, ProgramModel, RuleModel};
use vstd::prelude::*;

verus! {

/// The rule is a choice rule for a private predicate.
pub open spec fn choice_of_private(r: RuleModel, private: Seq<PredicateModel>) -> bool {
    r.head matches HeadModel::Choice(a) && private.contains(a.predicate())
}

/// Some choice rule of `p` has a private head predicate.
pub open spec fn private_choice(p: ProgramModel, private: Seq<PredicateModel>) -> bool {
    exists|k: int| 0 <= k < p.rules.len() && #[trigger] choice_of_private(p.rules[k], private)
}

/// The rule `r` has the head predicate `a` and `b` in its body.
pub open spec fn rule_depends(r: RuleModel, a: PredicateModel, b: PredicateModel) -> bool {
    r.head.predicate() == Some(a) && r.body.predicates().contains(b)
}

/// The private dependency graph of a program: an edge from each private head
/// predicate to each private predicate of the rule body.
pub open spec fn private_dependency(p: ProgramModel, private: Seq<PredicateModel>) -> spec_fn(PredicateModel, PredicateModel) -> bool {
    |a: PredicateModel, b: PredicateModel| private.contains(a) && private.contains(b)
        && exists|k: int| 0 <= k < p.rules.len() && #[trigger] rule_depends(p.rules[k], a, b)
}

/// The check for private recursion.
pub trait PrivateRecursion {
    fn has_private_recursion(&self, private_predicates: &Vec<Predicate>) -> bool;
}

/// The predicates of `bs` that are private.
fn private_targets(bs: &Vec<Predicate>, private: &Vec<Predicate>) -> (r: Vec<Predicate>)
    ensures
        forall|x: PredicateModel| #[trigger] views(r@).contains(x) <==> (views(bs@).contains(x) && views(private@).contains(x)),
{
    let ghost b = views(bs@);
    let mut r: Vec<Predicate> = Vec::new();
    let mut m: usize = 0;
    while m < bs.len()
        invariant
            m <= bs.len(),
            b == views(bs@),
            forall|x: PredicateModel| #[trigger] views(r@).contains(x) <==> (b.take(m as int).contains(x) && views(private@).contains(x)),
        decreases bs.len() - m,
    {
        let ghost before = views(r@);
        proof {
            lemma_take_next_contains(b, m as int);
        }
        assert(b[m as int] == bs@[m as int]@);
        if contains(private, &bs[m]) {
            r.push(bs[m].clone());
            assert(views(r@) =~= before.push(b[m as int]));
            proof {
                lemma_push_contains(before, b[m as int]);
            }
        } else {
            assert(views(r@) =~= before);
        }
        m += 1;
    }
    assert(b.take(bs.len() as int) =~= b);
    r
}

/// The edges between the positions of the predicates of `p` in `nodes` that
/// stand for the private dependencies of the first `k` rules.
pub open spec fn private_edges_up_to(p: ProgramModel, nodes: Seq<PredicateModel>, private: Seq<PredicateModel>, k: int, i: usize, j: usize) -> bool {
    i < nodes.len() && j < nodes.len() && private.contains(nodes[i as int]) && private.contains(nodes[j as int])
        && exists|m: int| 0 <= m < k && #[trigger] rule_depends(p.rules[m], nodes[i as int], nodes[j as int])
}

fn private_dependency_edges(p: &Program, nodes: &Vec<Predicate>, private: &Vec<Predicate>) -> (edges: Vec<(usize, usize)>)
    requires
        views(nodes@) == p@.predicates(),
    ensures
        forall|i: usize, j: usize| #[trigger] edges@.contains((i, j))
            <==> (i < nodes.len() && j < nodes.len()
                && private_dependency(p@, views(private@))(views(nodes@)[i as int], views(nodes@)[j as int])),
{
    let ghost ns = views(nodes@);
    let ghost pr = views(private@);
    proof {
        lemma_program_predicates(p@.rules);
    }
    let mut edges: Vec<(usize, usize)> = Vec::new();
    let mut k: usize = 0;
    while k < p.rules.len()
        invariant
            k <= p.rules.len(),
            ns == views(nodes@),
            pr == views(private@),
            ns == p@.predicates(),
            ns.no_duplicates(),
            forall|m: int, x: PredicateModel| 0 <= m < p@.rules.len() && #[trigger] p@.rules[m].predicates().contains(x)
                ==> ns.contains(x),
            forall|i: usize, j: usize| #[trigger] edges@.contains((i, j)) <==> private_edges_up_to(p@, ns, pr, k as int, i, j),
        decreases p.rules.len() - k,
    {
        let rule = &p.rules[k];
        proof {
            lemma_rule_predicates(rule@);
        }
        let ghost before = edges@;
        let head = rule.head.predicate();
        let private_head = match &head {
            Some(h) => contains(private, h),
            None => false,
        };
        if private_head {
            let h = head.unwrap();
            assert(p@.rules[k as int] == rule@);
            assert(rule@.predicates().contains(h@));
            assert(p@.rules[k as int].predicates().contains(h@));
            let hi = position(nodes, &h);
            let bs = rule.body.predicates();
            let targets = private_targets(&bs, private);
            proof {
                assert forall|x: PredicateModel| #[trigger] views(targets@).contains(x) implies ns.contains(x) by {
                    assert(views(bs@).contains(x));
                    assert(rule@.body.predicates().contains(x));
                    assert(p@.rules[k as int].predicates().contains(x));
                }
            }
            push_edges(&mut edges, nodes, hi, &targets);
            proof {
                assert forall|i: usize, j: usize| #[trigger] edges@.contains((i, j))
                    <==> private_edges_up_to(p@, ns, pr, k + 1, i, j) by {
                    if edges@.contains((i, j)) && !before.contains((i, j)) {
                        assert(rule_depends(p@.rules[k as int], ns[i as int], ns[j as int]));
                    }
                    if private_edges_up_to(p@, ns, pr, k + 1, i, j) {
                        let w = choose|w: int| 0 <= w < k + 1 && #[trigger] rule_depends(p@.rules[w], ns[i as int], ns[j as int]);
                        if w == k {
                            assert(ns[i as int] == ns[hi as int]);
                            assert(views(targets@).contains(ns[j as int]));
                        } else {
                            assert(private_edges_up_to(p@, ns, pr, k as int, i, j));
                        }
                    }
                }
            }
        } else {
            proof {
                assert forall|i: usize, j: usize| #[trigger] edges@.contains((i, j))
                    <==> private_edges_up_to(p@, ns, pr, k + 1, i, j) by {
                    if private_edges_up_to(p@, ns, pr, k + 1, i, j) {
                        let w = choose|w: int| 0 <= w < k + 1 && #[trigger] rule_depends(p@.rules[w], ns[i as int], ns[j as int]);
                        if w == k {
                            assert(rule@.head.predicate() == Some(ns[i as int]));
                            assert(false);
                        }
                        assert(private_edges_up_to(p@, ns, pr, k as int, i, j));
                    }
                }
            }
        }
        k += 1;
    }
    edges
}

impl PrivateRecursion for Program {
    /// Whether a private predicate occurs in the head of a choice rule or
    /// depends on itself through rules with private heads.
    fn has_private_recursion(&self, private_predicates: &Vec<Predicate>) -> (r: bool)
        ensures
            r == (private_choice(self@, views(private_predicates@))
                || cyclic(private_dependency(self@, views(private_predicates@)))),
    {
        let ghost pr = views(private_predicates@);
        let mut k: usize = 0;
        while k < self.rules.len()
            invariant
                k <= self.rules.len(),
                pr == views(private_predicates@),
                forall|m: int| 0 <= m < k ==> !#[trigger] choice_of_private(self@.rules[m], pr),
            decreases self.rules.len() - k,
        {
            match &self.rules[k].head {
                Head::Choice(a) => {
                    if contains(private_predicates, &a.predicate()) {
                        assert(choice_of_private(self@.rules[k as int], pr));
                        return true;
                    }
                },
                _ => {},
            }
            k += 1;
        }
        let nodes = self.predicates();
        let edges = private_dependency_edges(self, &nodes, private_predicates);
        proof {
            lemma_program_predicates(self@.rules);
            let rel = private_dependency(self@, pr);
            assert forall|a: PredicateModel, b: PredicateModel| #[trigger] rel(a, b)
                implies views(nodes@).contains(a) && views(nodes@).contains(b) by {
                let k = choose|k: int| 0 <= k < self@.rules.len() && #[trigger] rule_depends(self@.rules[k], a, b);
                lemma_rule_predicates(self@.rules[k]);
                assert(self@.rules[k].body.predicates().contains(b));
                assert(self@.rules[k].predicates().contains(a));
                assert(self@.rules[k].predicates().contains(b));
            }
            assert forall|i: usize, j: usize| #[trigger] edges@.contains((i, j))
                <==> (i < views(nodes@).len() && j < views(nodes@).len() && rel(views(nodes@)[i as int], views(nodes@)[j as int])) by {}
            assert(views(nodes@).len() == nodes.len());
            lemma_cyclic_by_position(views(nodes@), rel, edges@);
        }
        is_cyclic(&edges)
    }
}

} // verus!
