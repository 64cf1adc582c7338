//! Insertion-ordered sets without duplicates, kept in a `Vec`.
//!
//! The model of such a set is the sequence of the views of its elements, in
//! the order in which they were first inserted.

use vstd::prelude::*;

verus! {

/// Values whose equality and duplication are stated over their views.
pub trait ModelEq: View + Sized {
    /// Whether two values have the same view.
    fn same(&self, other: &Self) -> (r: bool)
        ensures
            r == (self@ == other@),
    ;

    /// A copy with the same view.
    fn duplicate(&self) -> (r: Self)
        ensures
            r@ == self@,
    ;
}

impl ModelEq for String {
    fn same(&self, other: &Self) -> (r: bool) {
        *self == *other
    }

    fn duplicate(&self) -> (r: Self) {
        self.clone()
    }
}

/// The views of the elements of a sequence.
pub open spec fn views<T: View>(s: Seq<T>) -> Seq<T::V> {
    s.map_values(|x: T| x@)
}

/// Adds `x` at the end unless it is already there.
pub open spec fn set_insert<A>(s: Seq<A>, x: A) -> Seq<A> {
    if s.contains(x) {
        s
    } else {
        s.push(x)
    }
}

/// Inserts the elements of `t` into `s`, one after another.
pub open spec fn set_extend<A>(s: Seq<A>, t: Seq<A>) -> Seq<A>
    decreases t.len(),
{
    if t.len() == 0 {
        s
    } else {
        set_insert(set_extend(s, t.drop_last()), t.last())
    }
}

/// The elements of `s` that do not occur in `t`, in their order.
pub open spec fn set_difference<A>(s: Seq<A>, t: Seq<A>) -> Seq<A> {
    s.filter(absent_from(t))
}

/// The predicate of not occurring in `t`.
pub open spec fn absent_from<A>(t: Seq<A>) -> spec_fn(A) -> bool {
    |x: A| !t.contains(x)
}

/// The predicate of occurring in `t`.
pub open spec fn present_in<A>(t: Seq<A>) -> spec_fn(A) -> bool {
    |x: A| t.contains(x)
}

/// The elements of `s` that also occur in `t`, in their order.
pub open spec fn set_intersection<A>(s: Seq<A>, t: Seq<A>) -> Seq<A> {
    s.filter(present_in(t))
}

/// The set that holds the elements of `s`, in the order of their first occurrence.
pub open spec fn set_from<A>(s: Seq<A>) -> Seq<A> {
    set_extend(Seq::empty(), s)
}

/// What a sequence with one more element at its end contains.
pub proof fn lemma_push_contains<A>(s: Seq<A>, x: A)
    ensures
        forall|y: A| #[trigger] s.push(x).contains(y) <==> (s.contains(y) || y == x),
{
    assert forall|y: A| #[trigger] s.push(x).contains(y) <==> (s.contains(y) || y == x) by {
        if s.push(x).contains(y) {
            let k = choose|k: int| 0 <= k < s.push(x).len() && s.push(x)[k] == y;
            if k < s.len() {
                assert(s[k] == y);
            }
        }
        if s.contains(y) {
            let k = choose|k: int| 0 <= k < s.len() && s[k] == y;
            assert(s.push(x)[k] == y);
        }
        if y == x {
            assert(s.push(x)[s.len() as int] == y);
        }
    }
}

/// What a prefix one element longer contains.
pub proof fn lemma_take_next_contains<A>(s: Seq<A>, m: int)
    requires
        0 <= m < s.len(),
    ensures
        forall|y: A| #[trigger] s.take(m + 1).contains(y) <==> (s.take(m).contains(y) || y == s[m]),
{
    assert(s.take(m + 1) =~= s.take(m).push(s[m]));
    lemma_push_contains(s.take(m), s[m]);
}

/// What inserting into a sequence leaves in it.
pub proof fn lemma_set_insert_contains<A>(s: Seq<A>, x: A)
    ensures
        forall|y: A| #[trigger] set_insert(s, x).contains(y) <==> (s.contains(y) || y == x),
{
    lemma_push_contains(s, x);
}

/// What extending a sequence leaves in it.
pub proof fn lemma_set_extend_contains<A>(s: Seq<A>, t: Seq<A>)
    ensures
        forall|y: A| #[trigger] set_extend(s, t).contains(y) <==> (s.contains(y) || t.contains(y)),
    decreases t.len(),
{
    if t.len() > 0 {
        lemma_set_extend_contains(s, t.drop_last());
        lemma_set_insert_contains(set_extend(s, t.drop_last()), t.last());
        assert(t =~= t.drop_last().push(t.last()));
        lemma_push_contains(t.drop_last(), t.last());
    }
}

/// Nothing is left of a sequence whose elements all occur in `t` when those of `t` are taken away.
pub proof fn lemma_difference_of_contained<A>(s: Seq<A>, t: Seq<A>)
    requires
        forall|y: A| #[trigger] s.contains(y) ==> t.contains(y),
    ensures
        set_difference(s, t).len() == 0,
{
    let pred = absent_from(t);
    assert forall|i: int| 0 <= i < s.len() implies !#[trigger] pred(s[i]) by {
        assert(s.contains(s[i]));
    }
    assert(s.all(|x: A| !pred(x)));
    s.lemma_all_neg_filter_empty(pred);
}

/// When nothing is left of `s` after taking away `t`, every element of `s` occurs in `t`.
pub proof fn lemma_contained_of_empty_difference<A>(s: Seq<A>, t: Seq<A>)
    requires
        set_difference(s, t).len() == 0,
    ensures
        forall|y: A| #[trigger] s.contains(y) ==> t.contains(y),
{
    let pred = absent_from(t);
    assert forall|y: A| #[trigger] s.contains(y) implies t.contains(y) by {
        let i = choose|i: int| 0 <= i < s.len() && s[i] == y;
        if !t.contains(y) {
            assert(pred(s[i]));
            s.lemma_filter_contains(pred, i);
            assert(set_difference(s, t).contains(s[i]));
        }
    }
}

pub proof fn lemma_set_insert_no_duplicates<A>(s: Seq<A>, x: A)
    requires
        s.no_duplicates(),
    ensures
        set_insert(s, x).no_duplicates(),
        forall|y: A| set_insert(s, x).contains(y) <==> (s.contains(y) || y == x),
{
    if !s.contains(x) {
        assert forall|y: A| set_insert(s, x).contains(y) <==> (s.contains(y) || y == x) by {
            if y == x {
                assert(s.push(x)[s.len() as int] == x);
            }
            if s.contains(y) {
                let k = choose|k: int| 0 <= k < s.len() && s[k] == y;
                assert(s.push(x)[k] == y);
            }
        }
    }
}

pub proof fn lemma_set_extend_no_duplicates<A>(s: Seq<A>, t: Seq<A>)
    requires
        s.no_duplicates(),
    ensures
        set_extend(s, t).no_duplicates(),
        forall|y: A| set_extend(s, t).contains(y) <==> (s.contains(y) || t.contains(y)),
    decreases t.len(),
{
    if t.len() > 0 {
        lemma_set_extend_no_duplicates(s, t.drop_last());
        lemma_set_insert_no_duplicates(set_extend(s, t.drop_last()), t.last());
        assert forall|y: A| set_extend(s, t).contains(y) <==> (s.contains(y) || t.contains(y)) by {
            if t.drop_last().contains(y) {
                let k = choose|k: int| 0 <= k < t.drop_last().len() && t.drop_last()[k] == y;
                assert(t[k] == y);
            }
            if t.contains(y) && y != t.last() {
                let k = choose|k: int| 0 <= k < t.len() && t[k] == y;
                assert(k != t.len() - 1);
                assert(t.drop_last()[k] == y);
            }
            if y == t.last() {
                assert(t[t.len() - 1] == y);
            }
        }
    }
}

/// Whether `x` is in `v`.
pub fn contains<T: ModelEq>(v: &Vec<T>, x: &T) -> (r: bool)
    ensures
        r == views(v@).contains(x@),
{
    let mut i: usize = 0;
    while i < v.len()
        invariant
            i <= v.len(),
            forall|j: int| 0 <= j < i ==> v@[j]@ != x@,
        decreases v.len() - i,
    {
        if v[i].same(x) {
            assert(views(v@)[i as int] == x@);
            return true;
        }
        i += 1;
    }
    proof {
        if views(v@).contains(x@) {
            let k = choose|k: int| 0 <= k < views(v@).len() && views(v@)[k] == x@;
            assert(v@[k]@ == x@);
        }
    }
    false
}

/// Inserts `x` unless an element with the same view is present.
pub fn insert<T: ModelEq>(v: &mut Vec<T>, x: T)
    ensures
        views(final(v)@) == set_insert(views(old(v)@), x@),
{
    if !contains(v, &x) {
        let ghost before = views(v@);
        v.push(x);
        assert(views(v@) =~= before.push(x@));
    }
}

/// Inserts the elements of `w` one after another.
pub fn extend<T: ModelEq>(v: &mut Vec<T>, w: Vec<T>)
    ensures
        views(final(v)@) == set_extend(views(old(v)@), views(w@)),
{
    let ghost start = views(v@);
    let mut i: usize = 0;
    while i < w.len()
        invariant
            i <= w.len(),
            views(v@) == set_extend(start, views(w@).take(i as int)),
        decreases w.len() - i,
    {
        let x = w[i].duplicate();
        insert(v, x);
        proof {
            assert(views(w@).take(i as int + 1).drop_last() =~= views(w@).take(i as int));
            assert(views(w@).take(i as int + 1).last() == w@[i as int]@);
        }
        i += 1;
    }
    assert(views(w@).take(w.len() as int) =~= views(w@));
}

/// A copy of `v` whose elements have the same views.
pub fn duplicate_all<T: ModelEq>(v: &Vec<T>) -> (r: Vec<T>)
    ensures
        views(r@) == views(v@),
{
    let mut r: Vec<T> = Vec::new();
    let mut i: usize = 0;
    while i < v.len()
        invariant
            i <= v.len(),
            views(r@) =~= views(v@).take(i as int),
        decreases v.len() - i,
    {
        let ghost before = views(r@);
        r.push(v[i].duplicate());
        assert(views(r@) =~= before.push(v@[i as int]@));
        assert(views(v@).take(i as int + 1) =~= views(v@).take(i as int).push(v@[i as int]@));
        i += 1;
    }
    assert(views(v@).take(v.len() as int) =~= views(v@));
    r
}

/// The elements of `v` that do not occur in `w`.
pub fn difference<T: ModelEq>(v: &Vec<T>, w: &Vec<T>) -> (r: Vec<T>)
    ensures
        views(r@) == set_difference(views(v@), views(w@)),
{
    let ghost wv = views(w@);
    let mut r: Vec<T> = Vec::new();
    let mut i: usize = 0;
    while i < v.len()
        invariant
            i <= v.len(),
            wv == views(w@),
            views(r@) == views(v@).take(i as int).filter(absent_from(wv)),
        decreases v.len() - i,
    {
        let ghost before = views(r@);
        assert(views(v@).take(i as int + 1).drop_last() =~= views(v@).take(i as int));
        assert(views(v@).take(i as int + 1).last() == v@[i as int]@);
        let ghost s1 = views(v@).take(i as int + 1);
        proof { reveal_with_fuel(Seq::<_>::filter, 1); }
        assert(s1.filter(absent_from(wv)) == (if absent_from(wv)(s1.last()) {
            s1.drop_last().filter(absent_from(wv)).push(s1.last())
        } else {
            s1.drop_last().filter(absent_from(wv))
        }));
        if !contains(w, &v[i]) {
            r.push(v[i].duplicate());
            assert(views(r@) =~= before.push(v@[i as int]@));
        }
        i += 1;
    }
    assert(views(v@).take(v.len() as int) =~= views(v@));
    r
}

/// The elements of `v` that also occur in `w`.
pub fn intersection<T: ModelEq>(v: &Vec<T>, w: &Vec<T>) -> (r: Vec<T>)
    ensures
        views(r@) == set_intersection(views(v@), views(w@)),
{
    let ghost wv = views(w@);
    let mut r: Vec<T> = Vec::new();
    let mut i: usize = 0;
    while i < v.len()
        invariant
            i <= v.len(),
            wv == views(w@),
            views(r@) == views(v@).take(i as int).filter(present_in(wv)),
        decreases v.len() - i,
    {
        let ghost before = views(r@);
        assert(views(v@).take(i as int + 1).drop_last() =~= views(v@).take(i as int));
        assert(views(v@).take(i as int + 1).last() == v@[i as int]@);
        let ghost s1 = views(v@).take(i as int + 1);
        proof { reveal_with_fuel(Seq::<_>::filter, 1); }
        assert(s1.filter(present_in(wv)) == (if present_in(wv)(s1.last()) {
            s1.drop_last().filter(present_in(wv)).push(s1.last())
        } else {
            s1.drop_last().filter(present_in(wv))
        }));
        if contains(w, &v[i]) {
            r.push(v[i].duplicate());
            assert(views(r@) =~= before.push(v@[i as int]@));
        }
        i += 1;
    }
    assert(views(v@).take(v.len() as int) =~= views(v@));
    r
}

} // verus!
