//! Bounded FIFO set of recently announced content identifiers.
//!
//! The announcer keeps the ids of the most recent announcements here and
//! drops a publication whose id is still in the window, so that a
//! notification delivered twice yields a single announcement. When the
//! window is full, inserting a fresh id evicts the oldest one.

use vstd::prelude::*;

verus! {

/// What one insertion does to the window's contents: a full window drops its
/// oldest entry before the new id is appended.
pub open spec fn spec_insert(s: Seq<Seq<char>>, cap: nat, v: Seq<char>) -> Seq<Seq<char>> {
    if s.len() == cap {
        s.drop_first().push(v)
    } else {
        s.push(v)
    }
}

/// Fixed-capacity FIFO buffer over content ids, oldest entry first.
pub struct Buffer {
    capacity: usize,
    inner: Vec<String>,
}

impl View for Buffer {
    type V = Seq<Seq<char>>;

    closed spec fn view(&self) -> Seq<Seq<char>> {
        self.inner@.map_values(|s: String| s@)
    }
}

impl Buffer {
    /// The capacity the buffer was created with.
    pub closed spec fn cap(&self) -> nat {
        self.capacity as nat
    }

    pub closed spec fn wf(&self) -> bool {
        self.capacity > 0 && self.inner@.len() <= self.capacity
    }

    /// An empty buffer. Construction with a zero capacity fails fast, so it
    /// is excluded here.
    pub fn new(capacity: usize) -> (r: Buffer)
        requires
            capacity > 0,
        ensures
            r.wf(),
            r.cap() == capacity,
            r@ == Seq::<Seq<char>>::empty(),
    {
        let r = Buffer { capacity, inner: Vec::new() };
        assert(r@ =~= Seq::<Seq<char>>::empty());
        r
    }

    /// Append `value`; a full buffer first evicts and returns its oldest
    /// entry.
    pub fn insert(&mut self, value: String) -> (evicted: Option<String>)
        requires
            old(self).wf(),
        ensures
            final(self).wf(),
            final(self).cap() == old(self).cap(),
            final(self)@ == spec_insert(old(self)@, old(self).cap(), value@),
            old(self)@.len() == old(self).cap() ==> (evicted matches Some(e) && e@ == old(self)@[0]),
            old(self)@.len() < old(self).cap() ==> evicted is None,
    {
        let evicted: Option<String> = if self.inner.len() == self.capacity {
            Some(self.inner.remove(0))
        } else {
            None
        };
        self.inner.push(value);
        proof {
            assert(final(self)@ =~= spec_insert(old(self)@, old(self).cap(), value@));
        }
        evicted
    }

    /// Linear membership test over the window.
    pub fn contains(&self, x: &String) -> (r: bool)
        ensures
            r == self@.contains(x@),
    {
        let n = self.inner.len();
        let mut i: usize = 0;
        while i < n
            invariant
                n == self.inner@.len(),
                i <= n,
                forall|j: int| 0 <= j < i ==> self@[j] != x@,
            decreases n - i,
        {
            if self.inner[i] == *x {
                assert(self@[i as int] == x@);
                return true;
            }
            i = i + 1;
        }
        assert(!self@.contains(x@));
        false
    }
}

/// Inserting a list of ids, oldest first.
pub open spec fn spec_fill(s: Seq<Seq<char>>, cap: nat, vs: Seq<Seq<char>>) -> Seq<Seq<char>>
    decreases vs.len(),
{
    if vs.len() == 0 {
        s
    } else {
        spec_fill(spec_insert(s, cap, vs[0]), cap, vs.drop_first())
    }
}

/// As long as the window has room, insertions simply append.
proof fn lemma_fill_under_capacity(s: Seq<Seq<char>>, cap: nat, vs: Seq<Seq<char>>)
    requires
        s.len() + vs.len() <= cap,
    ensures
        spec_fill(s, cap, vs) == s + vs,
    decreases vs.len(),
{
    if vs.len() == 0 {
        assert(s + vs =~= s);
    } else {
        lemma_fill_under_capacity(s.push(vs[0]), cap, vs.drop_first());
        assert(s.push(vs[0]) + vs.drop_first() =~= s + vs);
    }
}

/// Insertions can be split into two runs.
proof fn lemma_fill_append(s: Seq<Seq<char>>, cap: nat, a: Seq<Seq<char>>, b: Seq<Seq<char>>)
    ensures
        spec_fill(s, cap, a + b) == spec_fill(spec_fill(s, cap, a), cap, b),
    decreases a.len(),
{
    if a.len() == 0 {
        assert(a + b =~= b);
    } else {
        assert((a + b)[0] == a[0]);
        assert((a + b).drop_first() =~= a.drop_first() + b);
        lemma_fill_append(spec_insert(s, cap, a[0]), cap, a.drop_first(), b);
    }
}

/// Deduplication window eviction: inserting `cap + 1` distinct ids into an
/// empty window of capacity `cap` leaves exactly the last `cap` of them, so
/// the window no longer contains the first id while containing each of the
/// others.
pub proof fn lemma_dedup_eviction(cap: nat, vs: Seq<Seq<char>>)
    requires
        cap > 0,
        vs.len() == cap + 1,
        forall|i: int, j: int| 0 <= i < j < vs.len() ==> vs[i] != vs[j],
    ensures
        spec_fill(Seq::<Seq<char>>::empty(), cap, vs) == vs.drop_first(),
        !spec_fill(Seq::<Seq<char>>::empty(), cap, vs).contains(vs[0]),
        forall|i: int|
            1 <= i < vs.len() ==> spec_fill(Seq::<Seq<char>>::empty(), cap, vs).contains(vs[i]),
{
    let empty = Seq::<Seq<char>>::empty();
    let front = vs.take(cap as int);
    let lastv = vs[cap as int];
    assert(vs =~= front + seq![lastv]);
    lemma_fill_append(empty, cap, front, seq![lastv]);
    lemma_fill_under_capacity(empty, cap, front);
    assert(empty + front =~= front);
    let full = spec_fill(empty, cap, vs);
    assert(full == spec_fill(front, cap, seq![lastv]));
    assert(seq![lastv].drop_first() =~= Seq::<Seq<char>>::empty());
    assert(seq![lastv][0] == lastv);
    assert(spec_fill(front, cap, seq![lastv]) == spec_fill(
        spec_insert(front, cap, lastv),
        cap,
        Seq::<Seq<char>>::empty(),
    ));
    assert(spec_fill(spec_insert(front, cap, lastv), cap, Seq::<Seq<char>>::empty())
        == spec_insert(front, cap, lastv));
    assert(full == spec_insert(front, cap, lastv));
    assert(full =~= vs.drop_first());
    assert forall|j: int| 0 <= j < full.len() implies full[j] != vs[0] by {
        assert(full[j] == vs[j + 1]);
    }
    assert forall|i: int| 1 <= i < vs.len() implies full.contains(vs[i]) by {
        assert(full[i - 1] == vs[i]);
    }
}

} // verus!
