//! Byte strings, and how the path of an URL falls into segments.
use vstd::prelude::*;

verus! {

/// The byte that separates the segments of a path.
pub const SLASH: u8 = 0x2f;

/// The segments of `s`: a new segment, empty at first, starts behind each `/`.
pub open spec fn split(s: Seq<u8>) -> Seq<Seq<u8>>
    decreases s.len(),
{
    if s.len() == 0 {
        seq![Seq::empty()]
    } else {
        let before = split(s.drop_last());
        if s.last() == SLASH {
            before.push(Seq::empty())
        } else {
            before.drop_last().push(before.last().push(s.last()))
        }
    }
}

/// The segments `segments` with a `/` between each two of them.
pub open spec fn join(segments: Seq<Seq<u8>>) -> Seq<u8>
    decreases segments.len(),
{
    if segments.len() == 0 {
        Seq::empty()
    } else if segments.len() == 1 {
        segments[0]
    } else {
        join(segments.drop_last()).push(SLASH) + segments.last()
    }
}

/// `split` takes a byte string apart at its separators, and at nothing
/// else: there is at least one segment, no segment holds a `/`, and the
/// segments with a `/` between each two of them are the byte string again.
pub proof fn lemma_split_is_inverse_of_join(s: Seq<u8>)
    ensures
        split(s).len() >= 1,
        forall|i: int, j: int|
            0 <= i < split(s).len() && 0 <= j < split(s)[i].len() ==> split(s)[i][j] != SLASH,
        join(split(s)) == s,
    decreases s.len(),
{
    if s.len() == 0 {
        assert(join(split(s)) =~= s);
    } else {
        let t = s.drop_last();
        let before = split(t);
        lemma_split_is_inverse_of_join(t);
        let now = split(s);
        if s.last() == SLASH {
            assert(now.drop_last() =~= before);
            assert(join(now) =~= t.push(SLASH));
        } else {
            let grown = before.last().push(s.last());
            assert(now.last() == grown);
            if before.len() == 1 {
                assert(now.len() == 1);
                assert(before[0] == t);
                assert(join(now) =~= t.push(s.last()));
            } else {
                assert(now.drop_last() =~= before.drop_last());
                assert(join(before) == join(before.drop_last()).push(SLASH) + before.last());
                assert(join(now) == join(before.drop_last()).push(SLASH) + grown);
                assert(join(now) =~= join(before).push(s.last()));
            }
        }
        assert(t.push(s.last()) =~= s);
    }
}

/// The views of the byte strings in `v`.
pub open spec fn views(v: Seq<Vec<u8>>) -> Seq<Seq<u8>> {
    Seq::new(v.len(), |i: int| v[i]@)
}

/// Whether two byte strings are equal.
pub fn bytes_eq(a: &[u8], b: &[u8]) -> (r: bool)
    ensures
        r == (a@ == b@),
{
    if a.len() != b.len() {
        return false;
    }
    let mut i: usize = 0;
    while i < a.len()
        invariant
            a.len() == b.len(),
            i <= a.len(),
            forall|k: int| 0 <= k < i ==> a@[k] == b@[k],
        decreases a.len() - i,
    {
        if a[i] != b[i] {
            return false;
        }
        i += 1;
    }
    assert(a@ =~= b@);
    true
}

/// Splits `bytes`, from the index `from` on, at each `/`.
pub fn split_segments(bytes: &[u8], from: usize) -> (segments: Vec<Vec<u8>>)
    requires
        from <= bytes.len(),
    ensures
        views(segments@) == split(bytes@.skip(from as int)),
{
    let ghost s = bytes@.skip(from as int);
    let mut done: Vec<Vec<u8>> = Vec::new();
    let mut current: Vec<u8> = Vec::new();
    let mut i: usize = from;
    proof {
        assert(s.take(0) =~= Seq::<u8>::empty());
        assert(views(done@).push(current@) =~= split(s.take(0)));
    }
    while i < bytes.len()
        invariant
            from <= i <= bytes.len(),
            s == bytes@.skip(from as int),
            views(done@).push(current@) == split(s.take(i - from)),
        decreases bytes.len() - i,
    {
        let ghost before = s.take(i - from);
        let ghost now = s.take(i + 1 - from);
        let b = bytes[i];
        proof {
            assert(now.drop_last() =~= before);
            assert(now.last() == b);
        }
        if b == SLASH {
            let ghost old_done = done@;
            done.push(current);
            current = Vec::new();
            proof {
                assert(views(done@) =~= views(old_done).push(done@[done@.len() - 1]@));
                assert(views(done@).push(current@) =~= split(now));
            }
        } else {
            let ghost old_current = current@;
            current.push(b);
            proof {
                assert(views(done@).push(old_current).drop_last() =~= views(done@));
                assert(views(done@).push(current@) =~= split(now));
            }
        }
        i += 1;
    }
    let ghost old_done = done@;
    let ghost last = current@;
    done.push(current);
    proof {
        assert(s.take(i - from) =~= s);
        assert(views(done@) =~= views(old_done).push(last));
    }
    done
}

/// A sequence is a prefix of another where their heads are equal and its
/// tail is a prefix of the other tail.
pub proof fn lemma_prefix_cons<A>(q: Seq<A>, rest: Seq<A>)
    requires
        q.len() > 0,
        rest.len() > 0,
    ensures
        q.is_prefix_of(rest) <==> (q[0] == rest[0] && q.skip(1).is_prefix_of(rest.skip(1))),
{
    if q.is_prefix_of(rest) {
        assert(q[0] == rest.subrange(0, q.len() as int)[0]);
        assert forall|k: int| 0 <= k < q.len() - 1 implies q.skip(1)[k] == rest.skip(1)[k] by {
            assert(q[k + 1] == rest.subrange(0, q.len() as int)[k + 1]);
        }
        assert(q.skip(1) =~= rest.skip(1).subrange(0, q.len() - 1));
    }
    if q[0] == rest[0] && q.skip(1).is_prefix_of(rest.skip(1)) {
        assert forall|k: int| 0 <= k < q.len() implies q[k] == rest[k] by {
            if k > 0 {
                assert(q.skip(1)[k - 1] == rest.skip(1).subrange(0, q.len() - 1)[k - 1]);
            }
        }
        assert(q =~= rest.subrange(0, q.len() as int));
    }
}

/// Two sequences are equal where their heads and their tails are.
pub proof fn lemma_eq_cons<A>(q: Seq<A>, rest: Seq<A>)
    requires
        q.len() > 0,
        rest.len() > 0,
    ensures
        q == rest <==> (q[0] == rest[0] && q.skip(1) == rest.skip(1)),
{
    if q[0] == rest[0] && q.skip(1) == rest.skip(1) {
        assert(q.len() == q.skip(1).len() + 1);
        assert(rest.len() == rest.skip(1).len() + 1);
        assert forall|k: int| 0 <= k < q.len() implies q[k] == rest[k] by {
            if k > 0 {
                assert(q.skip(1)[k - 1] == q[k]);
                assert(rest.skip(1)[k - 1] == rest[k]);
            }
        }
        assert(q =~= rest);
    }
}

/// A copy of `bytes`.
pub fn copy_bytes(bytes: &[u8]) -> (r: Vec<u8>)
    ensures
        r@ == bytes@,
{
    let mut r: Vec<u8> = Vec::new();
    let mut i: usize = 0;
    while i < bytes.len()
        invariant
            i <= bytes.len(),
            r@ == bytes@.take(i as int),
        decreases bytes.len() - i,
    {
        r.push(bytes[i]);
        proof {
            assert(r@ =~= bytes@.take(i + 1));
        }
        i += 1;
    }
    proof {
        assert(bytes@.take(i as int) =~= bytes@);
    }
    r
}

} // verus!
