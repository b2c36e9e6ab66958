//! The interval store: the trace's spans, sorted by start timestamp.
//!
//! The sort is stable — spans with equal starts keep their arrival order —
//! which `sort_by_start` pins down as a deterministic spec-level insertion
//! sort. The store also carries the earliest start and the largest stop over
//! all spans; the largest stop is the true maximum, not the stop of the
//! last-by-start span, which may be smaller when intervals nest.

use vstd::prelude::*;
use vstd::seq_lib::group_to_multiset_ensures;
use vstd::seq_lib::lemma_multiset_commutative;
use vstd::multiset::group_multiset_axioms;
use vstd::multiset::Multiset;

use crate::error::ViewError;
use crate::span::Span;

verus! {

/// Whether `s` is sorted by ascending start timestamp.
pub open spec fn sorted_by_start(s: Seq<Span>) -> bool {
    forall|i: int, j: int| 0 <= i <= j < s.len() ==> s[i].start <= s[j].start
}

/// `x` placed after every span of `s` that starts no later than it. On a
/// sorted sequence this inserts at the last fitting position, so spans with
/// equal starts keep their arrival order.
pub open spec fn insert_by_start(s: Seq<Span>, x: Span) -> Seq<Span>
    decreases s.len(),
{
    if s.len() == 0 {
        seq![x]
    } else if s[0].start <= x.start {
        seq![s[0]] + insert_by_start(s.drop_first(), x)
    } else {
        seq![x] + s
    }
}

/// The stable sort of `s` by start timestamp: each span inserted in arrival
/// order.
pub open spec fn sort_by_start(s: Seq<Span>) -> Seq<Span>
    decreases s.len(),
{
    if s.len() == 0 {
        Seq::empty()
    } else {
        insert_by_start(sort_by_start(s.drop_last()), s.last())
    }
}

/// Inserting preserves the spans as a multiset.
pub proof fn lemma_insert_multiset(s: Seq<Span>, x: Span)
    ensures
        insert_by_start(s, x).to_multiset() =~= s.to_multiset().insert(x),
    decreases s.len(),
{
    broadcast use group_multiset_axioms;
    broadcast use group_to_multiset_ensures;

    assert(seq![x] =~= Seq::<Span>::empty().push(x));
    if s.len() == 0 {
        assert(Seq::<Span>::empty().to_multiset() =~= Multiset::<Span>::empty());
    } else if s[0].start <= x.start {
        lemma_insert_multiset(s.drop_first(), x);
        lemma_multiset_commutative(seq![s[0]], insert_by_start(s.drop_first(), x));
        lemma_multiset_commutative(seq![s[0]], s.drop_first());
        assert(seq![s[0]] + s.drop_first() =~= s);
        assert(seq![s[0]].to_multiset() =~= Multiset::<Span>::empty().insert(s[0]));
    } else {
        lemma_multiset_commutative(seq![x], s);
        assert(seq![x].to_multiset() =~= Multiset::<Span>::empty().insert(x));
    }
}

/// The elements of an insertion are those of `s` plus `x`.
pub proof fn lemma_insert_contains(s: Seq<Span>, x: Span)
    ensures
        forall|e: Span| #[trigger]
            insert_by_start(s, x).contains(e) <==> (s.contains(e) || e == x),
{
    broadcast use group_multiset_axioms;
    broadcast use group_to_multiset_ensures;

    lemma_insert_multiset(s, x);
    let r = insert_by_start(s, x);
    assert forall|e: Span| #[trigger] r.contains(e) <==> (s.contains(e) || e == x) by {
        assert(r.to_multiset().count(e) == s.to_multiset().insert(x).count(e));
        assert(s.to_multiset().insert(x).count(e) == s.to_multiset().count(e) + (if e == x {
            1int
        } else {
            0int
        }));
    }
}

/// Inserting into a start-sorted sequence keeps it start-sorted.
pub proof fn lemma_insert_sorted(s: Seq<Span>, x: Span)
    requires
        sorted_by_start(s),
    ensures
        sorted_by_start(insert_by_start(s, x)),
    decreases s.len(),
{
    if s.len() == 0 {
    } else if s[0].start <= x.start {
        assert(sorted_by_start(s.drop_first()));
        lemma_insert_sorted(s.drop_first(), x);
        lemma_insert_contains(s.drop_first(), x);
        let r = seq![s[0]] + insert_by_start(s.drop_first(), x);
        assert forall|i: int, j: int| 0 <= i <= j < r.len() implies r[i].start <= r[j].start by {
            if i == 0 && j > 0 {
                let e = insert_by_start(s.drop_first(), x)[j - 1];
                assert(insert_by_start(s.drop_first(), x).contains(e));
            }
        }
    } else {
    }
}

/// The stable sort preserves the spans as a multiset.
pub proof fn lemma_sort_multiset(s: Seq<Span>)
    ensures
        sort_by_start(s).to_multiset() =~= s.to_multiset(),
    decreases s.len(),
{
    broadcast use group_multiset_axioms;
    broadcast use group_to_multiset_ensures;

    if s.len() == 0 {
        assert(Seq::<Span>::empty().to_multiset() =~= Multiset::<Span>::empty());
    } else {
        lemma_sort_multiset(s.drop_last());
        lemma_insert_multiset(sort_by_start(s.drop_last()), s.last());
        assert(s =~= s.drop_last().push(s.last()));
    }
}

/// The stable sort sorts.
pub proof fn lemma_sort_sorted(s: Seq<Span>)
    ensures
        sorted_by_start(sort_by_start(s)),
    decreases s.len(),
{
    if s.len() == 0 {
    } else {
        lemma_sort_sorted(s.drop_last());
        lemma_insert_sorted(sort_by_start(s.drop_last()), s.last());
    }
}

/// The stable sort keeps exactly the original elements.
pub proof fn lemma_sort_contains(s: Seq<Span>)
    ensures
        forall|e: Span| #[trigger] sort_by_start(s).contains(e) <==> s.contains(e),
        sort_by_start(s).len() == s.len(),
{
    broadcast use group_multiset_axioms;
    broadcast use group_to_multiset_ensures;

    lemma_sort_multiset(s);
    let r = sort_by_start(s);
    assert(r.to_multiset().len() == s.to_multiset().len());
    assert(r.len() == r.to_multiset().len());
    assert(s.len() == s.to_multiset().len());
    assert forall|e: Span| #[trigger] r.contains(e) <==> s.contains(e) by {
        assert(r.to_multiset().count(e) == s.to_multiset().count(e));
    }
}

/// Splits an insertion around a prefix that starts no later than `x`.
proof fn lemma_insert_skip_prefix(s: Seq<Span>, x: Span, k: int)
    requires
        0 <= k <= s.len(),
        forall|j: int| 0 <= j < k ==> s[j].start <= x.start,
    ensures
        insert_by_start(s, x) =~= s.take(k) + insert_by_start(s.skip(k), x),
    decreases k,
{
    if k == 0 {
        assert(s.skip(0) =~= s);
        assert(s.take(0) + insert_by_start(s, x) =~= insert_by_start(s, x));
    } else {
        assert(s[0].start <= x.start);
        lemma_insert_skip_prefix(s.drop_first(), x, k - 1);
        assert(s.drop_first().skip(k - 1) =~= s.skip(k));
        assert(seq![s[0]] + (s.drop_first().take(k - 1) + insert_by_start(s.skip(k), x)) =~= s.take(
            k,
        ) + insert_by_start(s.skip(k), x));
    }
}

/// Inserts `x` into the start-sorted `v`, after every span that starts no
/// later.
fn insert_span(v: Vec<Span>, x: Span) -> (r: Vec<Span>)
    ensures
        r@ == insert_by_start(v@, x),
{
    let ghost s = v@;
    let mut r: Vec<Span> = Vec::new();
    let mut i: usize = 0;
    while i < v.len() && v[i].start <= x.start
        invariant
            0 <= i <= v.len(),
            v@ == s,
            forall|j: int| 0 <= j < i ==> s[j].start <= x.start,
            r@ == s.take(i as int),
        decreases v.len() - i,
    {
        r.push(v[i]);
        proof {
            assert(s.take(i + 1) =~= s.take(i as int).push(s[i as int]));
        }
        i = i + 1;
    }
    proof {
        lemma_insert_skip_prefix(s, x, i as int);
    }
    r.push(x);
    if i == v.len() {
        proof {
            assert(s.skip(i as int) =~= Seq::<Span>::empty());
            assert(insert_by_start(s, x) =~= s.take(i as int).push(x));
        }
        return r;
    }
    proof {
        assert(s.skip(i as int)[0] == s[i as int]);
        assert(insert_by_start(s.skip(i as int), x) =~= seq![x] + s.skip(i as int));
    }
    let mut j: usize = i;
    while j < v.len()
        invariant
            i <= j <= v.len(),
            v@ == s,
            r@ == s.take(i as int).push(x) + s.subrange(i as int, j as int),
        decreases v.len() - j,
    {
        r.push(v[j]);
        proof {
            assert(s.take(i as int).push(x) + s.subrange(i as int, j + 1) =~= (s.take(i as int).push(
                x,
            ) + s.subrange(i as int, j as int)).push(s[j as int]));
        }
        j = j + 1;
    }
    proof {
        assert(s.subrange(i as int, s.len() as int) =~= s.skip(i as int));
        assert(r@ =~= s.take(i as int) + insert_by_start(s.skip(i as int), x));
    }
    r
}

/// Sorts the spans stably by start timestamp.
pub fn sort_spans(spans: &Vec<Span>) -> (r: Vec<Span>)
    ensures
        r@ == sort_by_start(spans@),
        sorted_by_start(r@),
        r@.to_multiset() =~= spans@.to_multiset(),
{
    let ghost s = spans@;
    let mut r: Vec<Span> = Vec::new();
    let mut i: usize = 0;
    while i < spans.len()
        invariant
            0 <= i <= spans.len(),
            spans@ == s,
            r@ == sort_by_start(s.take(i as int)),
        decreases spans.len() - i,
    {
        r = insert_span(r, spans[i]);
        proof {
            let t = s.take(i + 1);
            assert(t.drop_last() =~= s.take(i as int));
            assert(t.last() == s[i as int]);
        }
        i = i + 1;
    }
    proof {
        assert(s.take(s.len() as int) =~= s);
        lemma_sort_sorted(s);
        lemma_sort_multiset(s);
    }
    r
}

/// The sorted, non-empty trace, with its timestamp bounds.
#[derive(Debug)]
pub struct Store {
    /// The spans, sorted ascending by start; ties keep arrival order.
    pub spans: Vec<Span>,
    /// The start of the earliest span.
    pub min_start: u64,
    /// The largest stop over all spans.
    pub max_stop: u64,
}

impl Store {
    /// The store's invariant: non-empty, well-formed spans sorted by start,
    /// with `min_start` the first start and `max_stop` the true maximum stop.
    pub open spec fn wf(self) -> bool {
        &&& self.spans@.len() > 0
        &&& sorted_by_start(self.spans@)
        &&& forall|i: int| 0 <= i < self.spans@.len() ==> (#[trigger] self.spans@[i]).wf()
        &&& self.min_start == self.spans@[0].start
        &&& forall|i: int|
            0 <= i < self.spans@.len() ==> (#[trigger] self.spans@[i]).stop <= self.max_stop
        &&& exists|i: int| 0 <= i < self.spans@.len() && (#[trigger] self.spans@[i]).stop == self.max_stop
    }

    /// Builds the store from the loaded spans: sorts them stably by start and
    /// records the timestamp bounds. Fails exactly when the trace is empty or
    /// some span stops before it starts.
    pub fn new(input: &Vec<Span>) -> (r: Result<Store, ViewError>)
        ensures
            r is Ok <==> (input@.len() > 0 && forall|i: int|
                0 <= i < input@.len() ==> (#[trigger] input@[i]).wf()),
            match r {
                Ok(st) => {
                    &&& st.wf()
                    &&& input@.len() > 0
                    &&& forall|i: int| 0 <= i < input@.len() ==> (#[trigger] input@[i]).wf()
                    &&& st.spans@ == sort_by_start(input@)
                    &&& st.spans@.to_multiset() =~= input@.to_multiset()
                    &&& forall|i: int|
                        0 <= i < input@.len() ==> st.min_start <= (#[trigger] input@[i]).start
                    &&& forall|i: int|
                        0 <= i < input@.len() ==> (#[trigger] input@[i]).stop <= st.max_stop
                },
                Err(e) => {
                    &&& (e == ViewError::EmptyTrace <==> input@.len() == 0)
                    &&& (e == ViewError::MalformedSpan <==> input@.len() > 0 && exists|i: int|
                        0 <= i < input@.len() && !(#[trigger] input@[i]).wf())
                },
            },
    {
        if input.len() == 0 {
            return Err(ViewError::EmptyTrace);
        }
        let mut k: usize = 0;
        while k < input.len()
            invariant
                0 <= k <= input.len(),
                forall|i: int| 0 <= i < k ==> (#[trigger] input@[i]).wf(),
            decreases input.len() - k,
        {
            if input[k].stop < input[k].start {
                return Err(ViewError::MalformedSpan);
            }
            k = k + 1;
        }
        let sorted = sort_spans(input);
        proof {
            lemma_sort_contains(input@);
            assert(sorted@.len() == input@.len());
            assert forall|i: int| 0 <= i < sorted@.len() implies (#[trigger] sorted@[i]).wf() by {
                assert(sorted@.contains(sorted@[i]));
                let w = choose|j: int| 0 <= j < input@.len() && input@[j] == sorted@[i];
                assert(input@[w].wf());
            }
        }
        let min_start = sorted[0].start;
        let mut max_stop: u64 = sorted[0].stop;
        let ghost sq = sorted@;
        let mut m: usize = 1;
        while m < sorted.len()
            invariant
                1 <= m <= sorted.len(),
                sorted@ == sq,
                forall|i: int| 0 <= i < m ==> (#[trigger] sq[i]).stop <= max_stop,
                exists|i: int| 0 <= i < m && (#[trigger] sq[i]).stop == max_stop,
            decreases sorted.len() - m,
        {
            if sorted[m].stop > max_stop {
                max_stop = sorted[m].stop;
            }
            m = m + 1;
        }
        let st = Store { spans: sorted, min_start, max_stop };
        proof {
            assert forall|i: int| 0 <= i < input@.len() implies st.min_start <= (
            #[trigger] input@[i]).start && input@[i].stop <= st.max_stop by {
                assert(input@.contains(input@[i]));
                assert(st.spans@.contains(input@[i]));
                let w = choose|j: int| 0 <= j < st.spans@.len() && st.spans@[j] == input@[i];
                assert(st.spans@[0].start <= st.spans@[w].start);
                assert(st.spans@[w].stop <= st.max_stop);
            }
        }
        Ok(st)
    }

    /// The number of spans.
    pub fn len(&self) -> (n: usize)
        ensures
            n == self.spans@.len(),
    {
        self.spans.len()
    }

    /// The span at `i`.
    pub fn get(&self, i: usize) -> (s: Span)
        requires
            i < self.spans@.len(),
        ensures
            s == self.spans@[i as int],
    {
        self.spans[i]
    }
}

} // verus!
