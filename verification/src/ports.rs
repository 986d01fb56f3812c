//! The port-spec parser: a comma-separated list of ports and inclusive
//! ascending ranges (`"21,80-83,443"`) expanded, in input order, into the
//! sequence of port numbers. A segment that is not one or two dash-separated
//! decimal fields, a non-numeric field, a value above 65535 or a descending
//! range is a configuration error.

use vstd::prelude::*;
use vstd::string::StringSliceAdditionalSpecFns;

use crate::text::{clean_bytes, find_byte, lemma_find_byte, split_bytes, split_on, strip_ws};
use crate::ConfigError;

verus! {

pub open spec fn is_digit(b: u8) -> bool {
    48 <= b && b <= 57
}

pub open spec fn all_digits(s: Seq<u8>) -> bool {
    forall|i: int| 0 <= i < s.len() ==> is_digit(#[trigger] s[i])
}

/// The number the decimal digit string `s` denotes.
pub open spec fn digits_val(s: Seq<u8>) -> int
    decreases s.len(),
{
    if s.len() == 0 {
        0
    } else {
        digits_val(s.drop_last()) * 10 + s.last() - 48
    }
}

/// A non-empty all-digit field whose value fits a port number.
pub open spec fn field_ok(s: Seq<u8>) -> bool {
    s.len() > 0 && all_digits(s) && digits_val(s) <= 65535
}

/// The ports `lo..=hi`, ascending.
pub open spec fn range_seq(lo: u16, hi: u16) -> Seq<u16> {
    Seq::new((hi - lo + 1) as nat, |i: int| (lo + i) as u16)
}

/// The ports one comma-separated segment denotes, or `None` if it is
/// malformed: a single field gives that port, two dash-separated fields an
/// ascending inclusive range, anything else is an error.
pub open spec fn seg_ports(seg: Seq<u8>) -> Option<Seq<u16>> {
    let j = find_byte(seg, 45);
    if j == -1 {
        if field_ok(seg) {
            Some(seq![digits_val(seg) as u16])
        } else {
            None
        }
    } else {
        let a = seg.take(j);
        let b = seg.skip(j + 1);
        if find_byte(b, 45) == -1 && field_ok(a) && field_ok(b) && digits_val(a) <= digits_val(b) {
            Some(range_seq(digits_val(a) as u16, digits_val(b) as u16))
        } else {
            None
        }
    }
}

/// The concatenation of every segment's ports, or `None` if any segment is
/// malformed.
pub open spec fn join_segs(segs: Seq<Seq<u8>>) -> Option<Seq<u16>>
    decreases segs.len(),
{
    if segs.len() == 0 {
        Some(Seq::empty())
    } else {
        match (join_segs(segs.drop_last()), seg_ports(segs.last())) {
            (Some(acc), Some(ps)) => Some(acc + ps),
            _ => None,
        }
    }
}

/// What a whole port specification denotes: whitespace is ignored, the rest
/// is comma-separated segments.
pub open spec fn spec_ports_parse(s: Seq<u8>) -> Option<Seq<u16>> {
    join_segs(split_on(strip_ws(s), 44))
}

proof fn lemma_digits_val_nonneg(s: Seq<u8>)
    requires
        all_digits(s),
    ensures
        digits_val(s) >= 0,
    decreases s.len(),
{
    if s.len() > 0 {
        assert(all_digits(s.drop_last())) by {
            assert(forall|i: int|
                0 <= i < s.len() - 1 ==> #[trigger] s.drop_last()[i] == s[i]);
        }
        lemma_digits_val_nonneg(s.drop_last());
    }
}

/// The value of a digit string is at least the value of any of its prefixes.
proof fn lemma_digits_val_prefix(s: Seq<u8>, k: int)
    requires
        all_digits(s),
        0 <= k <= s.len(),
    ensures
        digits_val(s.take(k)) <= digits_val(s),
    decreases s.len() - k,
{
    if k < s.len() {
        assert(s.take(k + 1).drop_last() =~= s.take(k));
        assert(all_digits(s.take(k))) by {
            assert(forall|i: int| 0 <= i < k ==> #[trigger] s.take(k)[i] == s[i]);
        }
        lemma_digits_val_nonneg(s.take(k));
        assert(is_digit(s.take(k + 1).last()));
        assert(digits_val(s.take(k)) <= digits_val(s.take(k + 1)));
        lemma_digits_val_prefix(s, k + 1);
    } else {
        assert(s.take(k) =~= s);
    }
}

/// Parses the decimal field `seg[start..end]` as a port number.
fn parse_field(seg: &Vec<u8>, start: usize, end: usize) -> (r: Option<u16>)
    requires
        start <= end <= seg@.len(),
    ensures
        ({
            let f = seg@.subrange(start as int, end as int);
            match r {
                Some(v) => field_ok(f) && v == digits_val(f),
                None => !field_ok(f),
            }
        }),
{
    let ghost f = seg@.subrange(start as int, end as int);
    if start == end {
        return None;
    }
    let mut acc: u32 = 0;
    let mut i: usize = start;
    while i < end
        invariant
            start <= i <= end <= seg@.len(),
            f == seg@.subrange(start as int, end as int),
            all_digits(f.take(i - start)),
            acc == digits_val(f.take(i - start)),
            acc <= 65535,
        decreases end - i,
    {
        let b = seg[i];
        proof {
            assert(f[i - start] == seg@[i as int]);
            assert(f.take(i - start + 1).drop_last() =~= f.take(i - start));
            assert(f.take(i - start + 1).last() == f[i - start]);
        }
        if !(48 <= b && b <= 57) {
            assert(!all_digits(f));
            return None;
        }
        let acc2: u32 = acc * 10 + (b - 48) as u32;
        if acc2 > 65535 {
            proof {
                if all_digits(f) {
                    lemma_digits_val_prefix(f, i - start + 1);
                }
            }
            return None;
        }
        acc = acc2;
        i = i + 1;
    }
    proof {
        assert(f.take(end - start) =~= f);
    }
    Some(acc as u16)
}

/// Parses one segment: a single port or an inclusive ascending range.
fn parse_segment(seg: &Vec<u8>) -> (r: Option<Vec<u16>>)
    ensures
        match r {
            Some(v) => seg_ports(seg@) == Some(v@),
            None => seg_ports(seg@) is None,
        },
{
    let n = seg.len();
    let mut j: usize = 0;
    while j < n && seg[j] != 45
        invariant
            0 <= j <= n == seg@.len(),
            forall|k: int| 0 <= k < j ==> seg@[k] != 45,
        decreases n - j,
    {
        j = j + 1;
    }
    proof {
        lemma_find_byte(seg@, 45);
    }
    if j == n {
        // No dash: a single port field.
        assert(find_byte(seg@, 45) == -1);
        proof {
            assert(seg@.subrange(0, n as int) =~= seg@);
        }
        match parse_field(seg, 0, n) {
            Some(v) => {
                let mut out: Vec<u16> = Vec::new();
                out.push(v);
                proof {
                    assert(out@ =~= seq![digits_val(seg@) as u16]);
                }
                Some(out)
            },
            None => None,
        }
    } else {
        assert(seg@[j as int] == 45);
        assert(find_byte(seg@, 45) == j);
        let ghost a = seg@.take(j as int);
        let ghost bpart = seg@.skip(j + 1);
        // Look for a second dash after the first.
        let mut j2: usize = j + 1;
        while j2 < n && seg[j2] != 45
            invariant
                j + 1 <= j2 <= n == seg@.len(),
                forall|k: int| j + 1 <= k < j2 ==> seg@[k] != 45,
            decreases n - j2,
        {
            j2 = j2 + 1;
        }
        proof {
            lemma_find_byte(bpart, 45);
            assert(forall|k: int|
                0 <= k < bpart.len() ==> #[trigger] bpart[k] == seg@[k + j + 1]);
        }
        if j2 < n {
            assert(bpart[j2 - j - 1] == 45);
            assert(find_byte(bpart, 45) != -1);
            return None;
        }
        assert(find_byte(bpart, 45) == -1);
        proof {
            assert(seg@.subrange(0, j as int) =~= a);
            assert(seg@.subrange(j + 1, n as int) =~= bpart);
        }
        let lo = match parse_field(seg, 0, j) {
            Some(v) => v,
            None => {
                return None;
            },
        };
        let hi = match parse_field(seg, j + 1, n) {
            Some(v) => v,
            None => {
                return None;
            },
        };
        if lo > hi {
            return None;
        }
        let cnt: usize = hi as usize - lo as usize + 1;
        let mut out: Vec<u16> = Vec::new();
        for k in 0..cnt
            invariant
                cnt == hi - lo + 1,
                lo <= hi <= 65535,
                out@ == range_seq(lo, hi).take(k as int),
        {
            out.push((lo as usize + k) as u16);
            proof {
                assert(out@ =~= range_seq(lo, hi).take(k + 1));
            }
        }
        proof {
            assert(range_seq(lo, hi).take(cnt as int) =~= range_seq(lo, hi));
        }
        Some(out)
    }
}

/// If any segment is malformed the whole list is.
proof fn lemma_join_none(segs: Seq<Seq<u8>>, i: int)
    requires
        0 <= i < segs.len(),
        seg_ports(segs[i]) is None,
    ensures
        join_segs(segs) is None,
    decreases segs.len(),
{
    if i < segs.len() - 1 {
        assert(segs.drop_last()[i] == segs[i]);
        lemma_join_none(segs.drop_last(), i);
    }
}

/// Parses a comma-separated port specification (`"21,80-83,443"`) into the
/// ordered, duplicate-preserving sequence of ports it denotes. Whitespace is
/// ignored. A malformed specification is a configuration error.
pub fn ports_parse(ports: &str) -> (r: Result<Vec<u16>, ConfigError>)
    ensures
        match r {
            Ok(v) => spec_ports_parse(ports.spec_bytes()) == Some(v@),
            Err(e) => spec_ports_parse(ports.spec_bytes()) is None && e
                == ConfigError::MalformedPortSpec,
        },
{
    let bytes = ports.as_bytes();
    let cleaned = clean_bytes(bytes);
    let segs = split_bytes(cleaned.as_slice(), 44);
    let ghost segviews = segs@.map_values(|t: Vec<u8>| t@);
    let mut out: Vec<u16> = Vec::new();
    let n = segs.len();
    for i in 0..n
        invariant
            n == segs@.len(),
            segviews == segs@.map_values(|t: Vec<u8>| t@),
            segviews == split_on(strip_ws(ports.spec_bytes()), 44),
            join_segs(segviews.take(i as int)) == Some(out@),
    {
        proof {
            assert(segviews.take(i + 1).drop_last() =~= segviews.take(i as int));
            assert(segviews.take(i + 1).last() == segviews[i as int]);
            assert(segviews[i as int] == segs@[i as int]@);
        }
        match parse_segment(&segs[i]) {
            Some(ps) => {
                let ghost prev = out@;
                let mut k: usize = 0;
                let m = ps.len();
                while k < m
                    invariant
                        m == ps@.len(),
                        out@ == prev + ps@.take(k as int),
                        0 <= k <= m,
                    decreases m - k,
                {
                    out.push(ps[k]);
                    proof {
                        assert(out@ =~= prev + ps@.take(k + 1));
                    }
                    k = k + 1;
                }
                proof {
                    assert(prev + ps@.take(m as int) =~= prev + ps@);
                }
            },
            None => {
                proof {
                    lemma_join_none(segviews, i as int);
                }
                return Err(ConfigError::MalformedPortSpec);
            },
        }
    }
    proof {
        assert(segviews.take(n as int) =~= segviews);
    }
    Ok(out)
}

} // verus!
