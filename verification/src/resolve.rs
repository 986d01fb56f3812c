//! The pure part of target resolution: a comma-separated list of address
//! tokens, each a CIDR block or a literal address, expanded in token order
//! into the addresses it denotes. A token that is neither (a hostname or a
//! file path) is handed back untouched: resolving it takes name lookups or
//! file reads, which belong to the caller.

use vstd::prelude::*;
use vstd::string::StringSliceAdditionalSpecFns;

use vstd::arithmetic::div_mod::lemma_fundamental_div_mod;
use vstd::arithmetic::power2::{
    lemma2_to64, lemma_pow2_adds, lemma_pow2_pos, lemma_pow2_strictly_increases, pow2,
};

use crate::ip::Ip;
use crate::text::{clean_bytes, split_bytes, split_on, strip_ws};

verus! {

/// A parsed CIDR block: the network base address (host part zero), the
/// prefix length, and which address family it belongs to. A bare literal
/// address parses as a full-length block of one address.
#[derive(Clone, Copy, Debug, PartialEq, Eq, Structural)]
pub struct CidrBlock {
    pub v4: bool,
    pub base: u128,
    pub prefix: u8,
}

impl CidrBlock {
    /// The address width of the block's family.
    pub open spec fn bits(&self) -> int {
        if self.v4 {
            32
        } else {
            128
        }
    }

    /// The prefix is in range, the base fits the family and its host part
    /// is zero.
    pub open spec fn wf(&self) -> bool {
        &&& self.prefix <= self.bits()
        &&& self.base < pow2(self.bits() as nat)
        &&& self.base % (pow2((self.bits() - self.prefix) as nat) as u128) == 0
    }

    /// How many addresses the block spans.
    pub open spec fn count(&self) -> nat {
        pow2((self.bits() - self.prefix) as nat)
    }
}

/// The `i`-th address of the block.
pub open spec fn block_ip(b: CidrBlock, i: int) -> Ip {
    if b.v4 {
        Ip::V4((b.base + i) as u32)
    } else {
        Ip::V6((b.base + i) as u128)
    }
}

/// Every address of the block, ascending.
pub open spec fn cidr_seq(b: CidrBlock) -> Seq<Ip> {
    Seq::new(b.count(), |i: int| block_ip(b, i))
}

/// What the CIDR parser returns for a given token: a block for a CIDR in
/// slash notation (host part zero) or for a bare literal address, nothing
/// otherwise.
pub uninterp spec fn parsed_cidr(s: Seq<u8>) -> Option<CidrBlock>;

/// Relies on cidr::IpCidr::from_str (re-exported by cidr-utils): a bare
/// address parses as a host block, `addr/len` as a network whose host part
/// must be zero and whose length fits the family; the stored first address
/// is the aligned network base. The result depends on the token alone.
#[verifier::external_body]
fn cidr_parse(token: &[u8]) -> (r: Option<CidrBlock>)
    ensures
        r == parsed_cidr(token@),
        r matches Some(b) ==> b.wf(),
{
    let s = String::from_utf8_lossy(token);
    match <cidr_utils::cidr::IpCidr as core::str::FromStr>::from_str(s.as_ref()) {
        Ok(cidr_utils::cidr::IpCidr::V4(c)) => Some(
            CidrBlock {
                v4: true,
                base: u32::from(c.first_address()) as u128,
                prefix: c.network_length(),
            },
        ),
        Ok(cidr_utils::cidr::IpCidr::V6(c)) => Some(
            CidrBlock { v4: false, base: u128::from(c.first_address()), prefix: c.network_length() },
        ),
        Err(_) => None,
    }
}

/// An aligned base leaves room for the whole block below the family bound.
proof fn lemma_block_fits(base: int, hb: nat, bits: nat)
    requires
        hb <= bits,
        0 <= base < pow2(bits),
        base % (pow2(hb) as int) == 0,
    ensures
        base + pow2(hb) <= pow2(bits),
{
    let c = pow2(hb) as int;
    let total = pow2(bits) as int;
    let m = pow2((bits - hb) as nat) as int;
    lemma_pow2_pos(hb);
    lemma_pow2_pos((bits - hb) as nat);
    lemma_pow2_adds((bits - hb) as nat, hb);
    assert(total == m * c);
    lemma_fundamental_div_mod(base, c);
    let q = base / c;
    assert(base == q * c);
    assert(q < m) by (nonlinear_arith)
        requires
            c > 0,
            base == q * c,
            total == m * c,
            base < total,
    ;
    assert((q + 1) * c <= m * c) by (nonlinear_arith)
        requires
            c > 0,
            q + 1 <= m,
    ;
    assert(base + c == (q + 1) * c) by (nonlinear_arith)
        requires
            base == q * c,
    ;
}

/// Expands a block into its addresses, unless it spans more than a vector
/// can hold.
pub fn cidr_ips(b: &CidrBlock) -> (r: Option<Vec<Ip>>)
    requires
        b.wf(),
    ensures
        match r {
            Some(v) => b.count() <= usize::MAX && v@ == cidr_seq(*b),
            None => b.count() > usize::MAX,
        },
{
    let host_bits: u16 = (if b.v4 {
        32u16
    } else {
        128u16
    }) - b.prefix as u16;
    let ghost hb = host_bits as nat;
    let mut c: usize = 1;
    let mut k: u16 = 0;
    proof {
        assert(pow2(0) == 1) by {
            lemma2_to64();
        }
    }
    while k < host_bits
        invariant
            k <= host_bits,
            c == pow2(k as nat),
            hb == host_bits as nat,
            b.wf(),
            host_bits as int == b.bits() - b.prefix,
        decreases host_bits - k,
    {
        if c > usize::MAX / 2 {
            proof {
                // The block spans at least 2^(k+1), which already overflows.
                assert(pow2((k + 1) as nat) == pow2(k as nat) * 2) by {
                    lemma_pow2_adds(k as nat, 1);
                    lemma2_to64();
                }
                assert(2 * c > usize::MAX);
                if ((k + 1) as nat) < hb {
                    lemma_pow2_strictly_increases((k + 1) as nat, hb);
                }
                assert(pow2(hb) >= pow2((k + 1) as nat));
                assert(host_bits as int == b.bits() - b.prefix);
                assert(b.count() == pow2(hb));
                assert(b.count() > usize::MAX);
            }
            return None;
        }
        c = c * 2;
        k = k + 1;
        proof {
            lemma_pow2_adds((k - 1) as nat, 1);
            lemma2_to64();
        }
    }
    let ghost cnt = b.count();
    proof {
        assert(cnt == pow2(hb));
        lemma_block_fits(b.base as int, hb, b.bits() as nat);
        if b.v4 {
            lemma2_to64();
        } else {
            vstd::layout::unsigned_int_max_values();
        }
    }
    let mut out: Vec<Ip> = Vec::new();
    let mut i: usize = 0;
    while i < c
        invariant
            i <= c,
            c == cnt,
            cnt == b.count(),
            b.wf(),
            b.base + c <= pow2(b.bits() as nat),
            b.v4 ==> pow2(b.bits() as nat) == 0x1_0000_0000,
            !b.v4 ==> pow2(b.bits() as nat) == u128::MAX as nat + 1,
            out@ == cidr_seq(*b).take(i as int),
        decreases c - i,
    {
        let addr: u128 = b.base + i as u128;
        let ip = if b.v4 {
            Ip::V4(addr as u32)
        } else {
            Ip::V6(addr)
        };
        proof {
            assert(block_ip(*b, i as int) == ip);
        }
        out.push(ip);
        proof {
            assert(out@ =~= cidr_seq(*b).take(i + 1));
        }
        i = i + 1;
    }
    proof {
        assert(cidr_seq(*b).take(c as int) =~= cidr_seq(*b));
    }
    Some(out)
}

/// The addresses one token contributes: a parseable block's addresses, or
/// none for a token that needs outside resolution (or spans more addresses
/// than a vector can hold).
pub open spec fn token_ips(tok: Seq<u8>) -> Seq<Ip> {
    match parsed_cidr(tok) {
        Some(b) => if b.count() <= usize::MAX {
            cidr_seq(b)
        } else {
            Seq::empty()
        },
        None => Seq::empty(),
    }
}

/// The concatenation of every token's addresses, in token order.
pub open spec fn tokens_ips(toks: Seq<Seq<u8>>) -> Seq<Ip>
    decreases toks.len(),
{
    if toks.len() == 0 {
        Seq::empty()
    } else {
        tokens_ips(toks.drop_last()) + token_ips(toks.last())
    }
}

/// What a whole address specification denotes, ignoring whitespace and
/// skipping tokens that need outside resolution.
pub open spec fn spec_addresses(s: Seq<u8>) -> Seq<Ip> {
    tokens_ips(split_on(strip_ws(s), 44))
}

/// What became of one address token.
#[derive(Clone, Debug, PartialEq, Eq)]
pub enum TokenResult {
    /// The token was a CIDR block or literal address: its addresses.
    Resolved(Vec<Ip>),
    /// The token needs name resolution or file reading: handed back as is.
    Unknown(Vec<u8>),
}

/// The resolution this library owes a single token.
pub open spec fn token_result_ok(tok: Seq<u8>, tr: TokenResult) -> bool {
    match parsed_cidr(tok) {
        Some(b) => if b.count() <= usize::MAX {
            tr matches TokenResult::Resolved(v) && v@ == cidr_seq(b)
        } else {
            tr matches TokenResult::Unknown(u) && u@ == tok
        },
        None => tr matches TokenResult::Unknown(u) && u@ == tok,
    }
}

/// Splits a comma-separated address specification into tokens (whitespace
/// ignored) and resolves each that is a CIDR block or literal address;
/// every other token comes back untouched for the caller's resolution
/// chain.
pub fn resolve_tokens(addresses: &str) -> (r: Vec<TokenResult>)
    ensures
        ({
            let toks = split_on(strip_ws(addresses.spec_bytes()), 44);
            &&& r@.len() == toks.len()
            &&& forall|i: int| 0 <= i < toks.len() ==> token_result_ok(toks[i], #[trigger] r@[i])
        }),
{
    let bytes = addresses.as_bytes();
    let cleaned = clean_bytes(bytes);
    let mut segs = split_bytes(cleaned.as_slice(), 44);
    let ghost toks = segs@.map_values(|t: Vec<u8>| t@);
    let mut out: Vec<TokenResult> = Vec::new();
    let n = segs.len();
    let mut i: usize = 0;
    while i < n
        invariant
            n == segs@.len(),
            toks == segs@.map_values(|t: Vec<u8>| t@),
            toks == split_on(strip_ws(addresses.spec_bytes()), 44),
            i <= n,
            out@.len() == i,
            forall|j: int| 0 <= j < i ==> token_result_ok(toks[j], #[trigger] out@[j]),
        decreases n - i,
    {
        let tok = segs[i].clone();
        proof {
            assert(toks[i as int] == segs@[i as int]@);
            assert(tok@ == segs@[i as int]@);
        }
        match cidr_parse(tok.as_slice()) {
            Some(block) => {
                match cidr_ips(&block) {
                    Some(v) => out.push(TokenResult::Resolved(v)),
                    None => out.push(TokenResult::Unknown(tok)),
                }
            },
            None => out.push(TokenResult::Unknown(tok)),
        }
        i = i + 1;
    }
    out
}

/// Resolves an address specification's CIDR and literal tokens into one
/// address list, in token order; tokens needing outside resolution
/// contribute nothing here.
pub fn addresses_parse(addresses: &str) -> (r: Vec<Ip>)
    ensures
        r@ == spec_addresses(addresses.spec_bytes()),
{
    let ghost toks = split_on(strip_ws(addresses.spec_bytes()), 44);
    let results = resolve_tokens(addresses);
    let mut out: Vec<Ip> = Vec::new();
    let n = results.len();
    let mut i: usize = 0;
    while i < n
        invariant
            n == results@.len() == toks.len(),
            toks == split_on(strip_ws(addresses.spec_bytes()), 44),
            forall|j: int| 0 <= j < n ==> token_result_ok(toks[j], #[trigger] results@[j]),
            i <= n,
            out@ == tokens_ips(toks.take(i as int)),
        decreases n - i,
    {
        proof {
            assert(toks.take(i + 1).drop_last() =~= toks.take(i as int));
            assert(toks.take(i + 1).last() == toks[i as int]);
            assert(token_result_ok(toks[i as int], results@[i as int]));
        }
        let ghost prev = out@;
        match &results[i] {
            TokenResult::Resolved(v) => {
                let m = v.len();
                let mut k: usize = 0;
                while k < m
                    invariant
                        m == v@.len(),
                        k <= m,
                        out@ == prev + v@.take(k as int),
                    decreases m - k,
                {
                    out.push(v[k]);
                    proof {
                        assert(out@ =~= prev + v@.take(k + 1));
                    }
                    k = k + 1;
                }
                proof {
                    assert(prev + v@.take(m as int) =~= prev + v@);
                    assert(out@ =~= tokens_ips(toks.take(i + 1)));
                }
            },
            TokenResult::Unknown(_) => {
                proof {
                    assert(out@ =~= tokens_ips(toks.take(i + 1)));
                }
            },
        }
        i = i + 1;
    }
    proof {
        assert(toks.take(n as int) =~= toks);
    }
    out
}

} // verus!
