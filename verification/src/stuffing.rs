//! Byte stuffing for self-delimiting frames.
//!
//! The frame terminator byte never occurs in a stuffed payload: a payload
//! `0x00` is written as the pair `0x01 0x02` and a payload `0x01` as
//! `0x01 0x03`, so `0x00` on the wire always marks the end of a frame.

use vstd::prelude::*;

verus! {

/// Sentinel byte that terminates every frame.
pub const FRAME_TERMINATOR: u8 = 0;

/// Escape byte introducing a two-byte stuffed pair.
pub const FRAME_ESCAPE: u8 = 1;

/// Second byte of the pair standing for a payload `0x00`.
pub const ESCAPED_TERMINATOR: u8 = 2;

/// Second byte of the pair standing for a payload `0x01`.
pub const ESCAPED_ESCAPE: u8 = 3;

/// The stuffed form of payload bytes: terminator-free on every input.
pub open spec fn stuff(p: Seq<u8>) -> Seq<u8>
    decreases p.len(),
{
    if p.len() == 0 {
        Seq::<u8>::empty()
    } else {
        let head = if p[0] == FRAME_TERMINATOR {
            seq![FRAME_ESCAPE, ESCAPED_TERMINATOR]
        } else if p[0] == FRAME_ESCAPE {
            seq![FRAME_ESCAPE, ESCAPED_ESCAPE]
        } else {
            seq![p[0]]
        };
        head + stuff(p.drop_first())
    }
}

/// The payload read back from stuffed bytes; `None` on a dangling or
/// unknown escape.
pub open spec fn unstuff(s: Seq<u8>) -> Option<Seq<u8>>
    decreases s.len(),
{
    if s.len() == 0 {
        Some(Seq::<u8>::empty())
    } else if s[0] == FRAME_ESCAPE {
        if s.len() >= 2 && (s[1] == ESCAPED_TERMINATOR || s[1] == ESCAPED_ESCAPE) {
            let orig = if s[1] == ESCAPED_TERMINATOR {
                FRAME_TERMINATOR
            } else {
                FRAME_ESCAPE
            };
            match unstuff(s.skip(2)) {
                Some(rest) => Some(seq![orig] + rest),
                None => None,
            }
        } else {
            None
        }
    } else {
        match unstuff(s.skip(1)) {
            Some(rest) => Some(seq![s[0]] + rest),
            None => None,
        }
    }
}

/// Stuffed bytes never contain the frame terminator.
pub proof fn lemma_stuff_no_terminator(p: Seq<u8>)
    ensures
        forall|i: int| 0 <= i < stuff(p).len() ==> stuff(p)[i] != FRAME_TERMINATOR,
    decreases p.len(),
{
    if p.len() > 0 {
        lemma_stuff_no_terminator(p.drop_first());
        let head = if p[0] == FRAME_TERMINATOR {
            seq![FRAME_ESCAPE, ESCAPED_TERMINATOR]
        } else if p[0] == FRAME_ESCAPE {
            seq![FRAME_ESCAPE, ESCAPED_ESCAPE]
        } else {
            seq![p[0]]
        };
        assert(stuff(p) == head + stuff(p.drop_first()));
        assert forall|i: int| 0 <= i < stuff(p).len() implies stuff(p)[i] != FRAME_TERMINATOR by {
            if i >= head.len() {
                assert(stuff(p)[i] == stuff(p.drop_first())[i - head.len()]);
            }
        }
    }
}

/// Stuffing distributes over concatenation.
pub proof fn lemma_stuff_append(a: Seq<u8>, b: Seq<u8>)
    ensures
        stuff(a + b) == stuff(a) + stuff(b),
    decreases a.len(),
{
    if a.len() == 0 {
        assert(a + b =~= b);
        assert(stuff(a) + stuff(b) =~= stuff(b));
    } else {
        assert((a + b).drop_first() =~= a.drop_first() + b);
        lemma_stuff_append(a.drop_first(), b);
        assert(stuff(a + b) =~= stuff(a) + stuff(b));
    }
}

/// Unstuffing undoes stuffing.
pub proof fn lemma_unstuff_stuff(p: Seq<u8>)
    ensures
        unstuff(stuff(p)) == Some(p),
    decreases p.len(),
{
    if p.len() == 0 {
    } else {
        let rest = p.drop_first();
        lemma_unstuff_stuff(rest);
        let s = stuff(p);
        if p[0] == FRAME_TERMINATOR || p[0] == FRAME_ESCAPE {
            assert(s.skip(2) =~= stuff(rest));
            assert(seq![p[0]] + rest =~= p);
        } else {
            assert(s.skip(1) =~= stuff(rest));
            assert(seq![p[0]] + rest =~= p);
        }
    }
}

/// Index of the first terminator byte in `w`, or `w.len()` if none occurs.
pub open spec fn first_terminator(w: Seq<u8>) -> int
    decreases w.len(),
{
    if w.len() == 0 {
        0
    } else if w[0] == FRAME_TERMINATOR {
        0
    } else {
        1 + first_terminator(w.drop_first())
    }
}

pub proof fn lemma_first_terminator(w: Seq<u8>)
    ensures
        0 <= first_terminator(w) <= w.len(),
        first_terminator(w) < w.len() ==> w[first_terminator(w)] == FRAME_TERMINATOR,
        forall|j: int| 0 <= j < first_terminator(w) ==> w[j] != FRAME_TERMINATOR,
    decreases w.len(),
{
    if w.len() > 0 && w[0] != FRAME_TERMINATOR {
        lemma_first_terminator(w.drop_first());
        assert forall|j: int| 0 <= j < first_terminator(w) implies w[j] != FRAME_TERMINATOR by {
            if j > 0 {
                assert(w[j] == w.drop_first()[j - 1]);
            }
        }
    }
}

/// The characterization pins `first_terminator` down: a position with no
/// terminator before it, holding one itself or closing the window.
pub proof fn lemma_first_terminator_is(w: Seq<u8>, i: int)
    requires
        0 <= i <= w.len(),
        i < w.len() ==> w[i] == FRAME_TERMINATOR,
        forall|j: int| 0 <= j < i ==> w[j] != FRAME_TERMINATOR,
    ensures
        first_terminator(w) == i,
    decreases w.len(),
{
    if w.len() > 0 && w[0] != FRAME_TERMINATOR {
        lemma_first_terminator_is(w.drop_first(), i - 1);
    }
}

/// Concatenation of a sequence and an option of one; `None` swallows all.
pub open spec fn prepend_bytes(pre: Seq<u8>, o: Option<Seq<u8>>) -> Option<Seq<u8>> {
    match o {
        Some(rest) => Some(pre + rest),
        None => None,
    }
}

pub proof fn lemma_prepend_bytes_empty(o: Option<Seq<u8>>)
    ensures
        prepend_bytes(Seq::<u8>::empty(), o) == o,
{
    match o {
        Some(rest) => {
            assert(Seq::<u8>::empty() + rest =~= rest);
        },
        None => {},
    }
}

pub proof fn lemma_prepend_bytes_assoc(a: Seq<u8>, b: Seq<u8>, o: Option<Seq<u8>>)
    ensures
        prepend_bytes(a, prepend_bytes(b, o)) == prepend_bytes(a + b, o),
{
    match o {
        Some(rest) => {
            assert(a + (b + rest) =~= (a + b) + rest);
        },
        None => {},
    }
}

/// Stuffs payload bytes for the wire.
pub fn stuff_bytes(p: &[u8]) -> (out: Vec<u8>)
    ensures
        out@ == stuff(p@),
{
    let n = p.len();
    let mut out: Vec<u8> = Vec::new();
    let mut i: usize = 0;
    while i < n
        invariant
            i <= n,
            n == p@.len(),
            out@ == stuff(p@.take(i as int)),
        decreases n - i,
    {
        let b = p[i];
        proof {
            assert(p@.take(i + 1) =~= p@.take(i as int) + seq![p@[i as int]]);
            lemma_stuff_append(p@.take(i as int), seq![p@[i as int]]);
            let single = seq![p@[i as int]];
            assert(single.drop_first() =~= Seq::<u8>::empty());
            assert(stuff(single.drop_first()) =~= Seq::<u8>::empty());
            assert(stuff(single) =~= (if single[0] == FRAME_TERMINATOR {
                seq![FRAME_ESCAPE, ESCAPED_TERMINATOR]
            } else if single[0] == FRAME_ESCAPE {
                seq![FRAME_ESCAPE, ESCAPED_ESCAPE]
            } else {
                seq![single[0]]
            }));
        }
        if b == FRAME_TERMINATOR {
            out.push(FRAME_ESCAPE);
            out.push(ESCAPED_TERMINATOR);
        } else if b == FRAME_ESCAPE {
            out.push(FRAME_ESCAPE);
            out.push(ESCAPED_ESCAPE);
        } else {
            out.push(b);
        }
        assert(out@ =~= stuff(p@.take(i + 1)));
        i = i + 1;
    }
    proof {
        assert(p@.take(n as int) =~= p@);
    }
    out
}

/// Unstuffs wire bytes back to the payload; `None` exactly where `unstuff`
/// rejects them.
pub fn unstuff_bytes(s: &[u8]) -> (r: Option<Vec<u8>>)
    ensures
        r matches Some(v) ==> unstuff(s@) == Some(v@),
        r is None ==> unstuff(s@) is None,
{
    let n = s.len();
    let mut out: Vec<u8> = Vec::new();
    let mut i: usize = 0;
    proof {
        assert(s@.skip(0) =~= s@);
        lemma_prepend_bytes_empty(unstuff(s@));
    }
    while i < n
        invariant
            i <= n,
            n == s@.len(),
            prepend_bytes(out@, unstuff(s@.skip(i as int))) == unstuff(s@),
        decreases n - i,
    {
        let ghost pre = out@;
        let ghost tail = s@.skip(i as int);
        let b = s[i];
        if b == FRAME_ESCAPE {
            if i + 1 >= n {
                proof {
                    assert(tail.len() == 1);
                    assert(unstuff(tail) is None);
                }
                return None;
            }
            let b2 = s[i + 1];
            if b2 == ESCAPED_TERMINATOR || b2 == ESCAPED_ESCAPE {
                let orig = if b2 == ESCAPED_TERMINATOR {
                    FRAME_TERMINATOR
                } else {
                    FRAME_ESCAPE
                };
                out.push(orig);
                proof {
                    assert(tail[0] == FRAME_ESCAPE);
                    assert(tail[1] == b2);
                    assert(tail.skip(2) =~= s@.skip(i + 2));
                    assert(unstuff(tail) == prepend_bytes(seq![orig], unstuff(s@.skip(i + 2))));
                    lemma_prepend_bytes_assoc(pre, seq![orig], unstuff(s@.skip(i + 2)));
                    assert(pre + seq![orig] =~= out@);
                }
                i = i + 2;
            } else {
                proof {
                    assert(unstuff(tail) is None);
                }
                return None;
            }
        } else {
            out.push(b);
            proof {
                assert(tail[0] == b);
                assert(tail.skip(1) =~= s@.skip(i + 1));
                assert(unstuff(tail) == prepend_bytes(seq![b], unstuff(s@.skip(i + 1))));
                lemma_prepend_bytes_assoc(pre, seq![b], unstuff(s@.skip(i + 1)));
                assert(pre + seq![b] =~= out@);
            }
            i = i + 1;
        }
    }
    proof {
        assert(s@.skip(n as int) =~= Seq::<u8>::empty());
        assert(out@ + Seq::<u8>::empty() =~= out@);
    }
    Some(out)
}

/// Scans a window for the first frame terminator.
pub fn find_terminator(w: &[u8]) -> (i: usize)
    ensures
        i == first_terminator(w@),
{
    let n = w.len();
    let mut i: usize = 0;
    while i < n
        invariant
            i <= n,
            n == w@.len(),
            forall|j: int| 0 <= j < i ==> w@[j] != FRAME_TERMINATOR,
        decreases n - i,
    {
        if w[i] == FRAME_TERMINATOR {
            proof {
                lemma_first_terminator_is(w@, i as int);
            }
            return i;
        }
        i = i + 1;
    }
    proof {
        lemma_first_terminator_is(w@, n as int);
    }
    n
}

} // verus!
