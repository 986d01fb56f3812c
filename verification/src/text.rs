//! Byte-level text helpers shared by the port-spec and target parsers:
//! whitespace removal and splitting on a separator byte.

use vstd::prelude::*;

verus! {

/// ASCII whitespace, the characters the parsers ignore.
pub open spec fn is_ws(b: u8) -> bool {
    b == 32 || b == 9 || b == 10 || b == 13
}

/// `s` with every whitespace byte removed.
pub open spec fn strip_ws(s: Seq<u8>) -> Seq<u8>
    decreases s.len(),
{
    if s.len() == 0 {
        Seq::empty()
    } else if is_ws(s.last()) {
        strip_ws(s.drop_last())
    } else {
        strip_ws(s.drop_last()).push(s.last())
    }
}

/// `s` cut at every occurrence of `sep`: one piece more than there are
/// separators, pieces in order, separators not kept. Empty pieces stay.
pub open spec fn split_on(s: Seq<u8>, sep: u8) -> Seq<Seq<u8>>
    decreases s.len(),
{
    if s.len() == 0 {
        seq![Seq::<u8>::empty()]
    } else {
        let r = split_on(s.drop_last(), sep);
        if s.last() == sep {
            r.push(Seq::<u8>::empty())
        } else {
            r.update(r.len() - 1, r.last().push(s.last()))
        }
    }
}

pub proof fn lemma_split_on_len(s: Seq<u8>, sep: u8)
    ensures
        split_on(s, sep).len() >= 1,
    decreases s.len(),
{
    if s.len() > 0 {
        lemma_split_on_len(s.drop_last(), sep);
    }
}

/// Index of the first occurrence of `b` in `s`, or -1 if there is none.
pub open spec fn find_byte(s: Seq<u8>, b: u8) -> int
    decreases s.len(),
{
    if s.len() == 0 {
        -1
    } else if s[0] == b {
        0
    } else {
        let r = find_byte(s.drop_first(), b);
        if r == -1 {
            -1
        } else {
            r + 1
        }
    }
}

pub proof fn lemma_find_byte(s: Seq<u8>, b: u8)
    ensures
        find_byte(s, b) == -1 ==> forall|i: int| 0 <= i < s.len() ==> s[i] != b,
        find_byte(s, b) != -1 ==> {
            &&& 0 <= find_byte(s, b) < s.len()
            &&& s[find_byte(s, b)] == b
            &&& forall|i: int| 0 <= i < find_byte(s, b) ==> s[i] != b
        },
    decreases s.len(),
{
    if s.len() > 0 && s[0] != b {
        let rest = s.drop_first();
        lemma_find_byte(rest, b);
        assert(forall|i: int| 1 <= i < s.len() ==> s[i] == #[trigger] rest[i - 1]);
        let r = find_byte(rest, b);
        if r == -1 {
            assert(forall|i: int| 0 <= i < s.len() ==> s[i] != b) by {
                assert(forall|i: int| 1 <= i < s.len() ==> #[trigger] s[i] == rest[i - 1]
                    && rest[i - 1] != b);
            }
        } else {
            assert(s[r + 1] == rest[r]);
            assert(forall|i: int| 1 <= i < r + 1 ==> #[trigger] s[i] == rest[i - 1]
                && rest[i - 1] != b);
        }
    }
}

/// `s` with whitespace removed.
pub fn clean_bytes(s: &[u8]) -> (r: Vec<u8>)
    ensures
        r@ == strip_ws(s@),
{
    let mut out: Vec<u8> = Vec::new();
    let n = s.len();
    for i in 0..n
        invariant
            n == s@.len(),
            out@ == strip_ws(s@.take(i as int)),
    {
        let b = s[i];
        proof {
            assert(s@.take(i + 1).drop_last() =~= s@.take(i as int));
            assert(s@.take(i + 1).last() == s@[i as int]);
        }
        if !(b == 32 || b == 9 || b == 10 || b == 13) {
            out.push(b);
        }
    }
    proof {
        assert(s@.take(n as int) =~= s@);
    }
    out
}

/// `s` split at every occurrence of `sep`.
pub fn split_bytes(s: &[u8], sep: u8) -> (r: Vec<Vec<u8>>)
    ensures
        r@.map_values(|t: Vec<u8>| t@) == split_on(s@, sep),
        r@.len() >= 1,
{
    let mut res: Vec<Vec<u8>> = Vec::new();
    let mut cur: Vec<u8> = Vec::new();
    let n = s.len();
    for i in 0..n
        invariant
            n == s@.len(),
            res@.map_values(|t: Vec<u8>| t@).push(cur@) == split_on(s@.take(i as int), sep),
    {
        let b = s[i];
        proof {
            assert(s@.take(i + 1).drop_last() =~= s@.take(i as int));
            assert(s@.take(i + 1).last() == s@[i as int]);
        }
        if b == sep {
            let ghost prev_res = res@;
            let ghost prev_cur = cur@;
            res.push(cur);
            cur = Vec::new();
            proof {
                assert(res@.map_values(|t: Vec<u8>| t@).push(cur@) =~= prev_res.map_values(
                    |t: Vec<u8>| t@,
                ).push(prev_cur).push(Seq::<u8>::empty()));
            }
        } else {
            let ghost prev = res@.map_values(|t: Vec<u8>| t@).push(cur@);
            cur.push(b);
            proof {
                lemma_split_on_len(s@.take(i as int), sep);
                assert(res@.map_values(|t: Vec<u8>| t@).push(cur@) =~= prev.update(
                    prev.len() - 1,
                    prev.last().push(b),
                ));
            }
        }
    }
    proof {
        assert(s@.take(n as int) =~= s@);
    }
    let ghost final_views = res@.map_values(|t: Vec<u8>| t@).push(cur@);
    res.push(cur);
    proof {
        assert(res@.map_values(|t: Vec<u8>| t@) =~= final_views);
    }
    res
}

} // verus!
