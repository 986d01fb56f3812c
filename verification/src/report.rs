//! Result reporting: the console print modes and the textual form of
//! addresses, targets and outcomes. The scheduler emits one settled outcome
//! at a time; these functions decide what, if anything, each mode prints for
//! it, and what the end-of-run summary holds. The caller does the actual
//! printing.

use vstd::prelude::*;
use vstd::string::StringExecFns;

use crate::ip::Ip;
use crate::{ConfigError, PortState, ScanOutcome, ScanTask};

verus! {

/// How results reach the console.
#[derive(Clone, Copy, Debug, PartialEq, Eq, Structural)]
pub enum PrintMode {
    /// No console output at all.
    Suppressed,
    /// At run end, one line per open target.
    SummaryOpen,
    /// At run end, one line per target with its state.
    SummaryAll,
    /// One line per open target the moment it settles.
    LiveOpen,
    /// One line per target, with its state, the moment it settles.
    LiveAll,
}

/// The print mode a console verbosity level denotes; a level above 4 is a
/// configuration error.
pub fn print_mode_of_level(level: u8) -> (r: Result<PrintMode, ConfigError>)
    ensures
        match r {
            Ok(m) => {
                &&& (level == 0 <==> m == PrintMode::Suppressed)
                &&& (level == 1 <==> m == PrintMode::SummaryOpen)
                &&& (level == 2 <==> m == PrintMode::SummaryAll)
                &&& (level == 3 <==> m == PrintMode::LiveOpen)
                &&& (level == 4 <==> m == PrintMode::LiveAll)
            },
            Err(e) => level > 4 && e == ConfigError::InvalidPrintLevel,
        },
{
    match level {
        0 => Ok(PrintMode::Suppressed),
        1 => Ok(PrintMode::SummaryOpen),
        2 => Ok(PrintMode::SummaryAll),
        3 => Ok(PrintMode::LiveOpen),
        4 => Ok(PrintMode::LiveAll),
        _ => Err(ConfigError::InvalidPrintLevel),
    }
}

/// The decimal digit `d` as a character.
pub open spec fn digit_char(d: int) -> char {
    if d == 0 {
        '0'
    } else if d == 1 {
        '1'
    } else if d == 2 {
        '2'
    } else if d == 3 {
        '3'
    } else if d == 4 {
        '4'
    } else if d == 5 {
        '5'
    } else if d == 6 {
        '6'
    } else if d == 7 {
        '7'
    } else if d == 8 {
        '8'
    } else {
        '9'
    }
}

/// `n` in decimal, without leading zeroes (a lone zero for 0).
pub open spec fn dec_chars(n: int) -> Seq<char>
    decreases n,
{
    if n < 10 {
        seq![digit_char(n)]
    } else {
        dec_chars(n / 10).push(digit_char(n % 10))
    }
}

fn digit_str(d: u32) -> (r: &'static str)
    requires
        d < 10,
    ensures
        r@ == seq![digit_char(d as int)],
{
    proof {
        reveal_strlit("0");
        reveal_strlit("1");
        reveal_strlit("2");
        reveal_strlit("3");
        reveal_strlit("4");
        reveal_strlit("5");
        reveal_strlit("6");
        reveal_strlit("7");
        reveal_strlit("8");
        reveal_strlit("9");
    }
    let r = match d {
        0 => "0",
        1 => "1",
        2 => "2",
        3 => "3",
        4 => "4",
        5 => "5",
        6 => "6",
        7 => "7",
        8 => "8",
        _ => "9",
    };
    proof {
        assert(r@ =~= seq![digit_char(d as int)]);
    }
    r
}

/// `n` in decimal.
pub fn dec_string(n: u32) -> (r: String)
    ensures
        r@ == dec_chars(n as int),
    decreases n,
{
    if n < 10 {
        String::from_str(digit_str(n))
    } else {
        let mut s = dec_string(n / 10);
        s.append(digit_str(n % 10));
        proof {
            assert(s@ =~= dec_chars(n as int));
        }
        s
    }
}

/// The hexadecimal digit `d` as a (lower-case) character.
pub open spec fn hex_char(d: int) -> char {
    if d < 10 {
        digit_char(d)
    } else if d == 10 {
        'a'
    } else if d == 11 {
        'b'
    } else if d == 12 {
        'c'
    } else if d == 13 {
        'd'
    } else if d == 14 {
        'e'
    } else {
        'f'
    }
}

fn hex_str(d: u16) -> (r: &'static str)
    requires
        d < 16,
    ensures
        r@ == seq![hex_char(d as int)],
{
    if d < 10 {
        digit_str(d as u32)
    } else {
        proof {
            reveal_strlit("a");
            reveal_strlit("b");
            reveal_strlit("c");
            reveal_strlit("d");
            reveal_strlit("e");
            reveal_strlit("f");
        }
        let r = match d {
            10 => "a",
            11 => "b",
            12 => "c",
            13 => "d",
            14 => "e",
            _ => "f",
        };
        proof {
            assert(r@ =~= seq![hex_char(d as int)]);
        }
        r
    }
}

/// A 16-bit group as four fixed-width hexadecimal digits.
pub open spec fn hex4_chars(g: int) -> Seq<char> {
    seq![
        hex_char(g / 4096 % 16),
        hex_char(g / 256 % 16),
        hex_char(g / 16 % 16),
        hex_char(g % 16),
    ]
}

fn hex4_string(g: u16) -> (r: String)
    ensures
        r@ == hex4_chars(g as int),
{
    let mut s = String::from_str(hex_str(g / 4096 % 16));
    s.append(hex_str(g / 256 % 16));
    s.append(hex_str(g / 16 % 16));
    s.append(hex_str(g % 16));
    proof {
        assert(s@ =~= hex4_chars(g as int));
    }
    s
}

/// A v4 address in dotted-quad form.
pub open spec fn v4_chars(a: u32) -> Seq<char> {
    dec_chars((a >> 24u32) as int) + seq!['.'] + dec_chars(((a >> 16u32) & 0xFF) as int)
        + seq!['.'] + dec_chars(((a >> 8u32) & 0xFF) as int) + seq!['.'] + dec_chars(
        (a & 0xFF) as int,
    )
}

/// A v6 address as eight fixed-width hexadecimal groups.
pub open spec fn v6_chars(a: u128) -> Seq<char> {
    hex4_chars(((a >> 112u128) & 0xFFFF) as int) + seq![':'] + hex4_chars(
        ((a >> 96u128) & 0xFFFF) as int,
    ) + seq![':'] + hex4_chars(((a >> 80u128) & 0xFFFF) as int) + seq![':'] + hex4_chars(
        ((a >> 64u128) & 0xFFFF) as int,
    ) + seq![':'] + hex4_chars(((a >> 48u128) & 0xFFFF) as int) + seq![':'] + hex4_chars(
        ((a >> 32u128) & 0xFFFF) as int,
    ) + seq![':'] + hex4_chars(((a >> 16u128) & 0xFFFF) as int) + seq![':'] + hex4_chars(
        (a & 0xFFFF) as int,
    )
}

/// An address's textual form.
pub open spec fn ip_chars(ip: Ip) -> Seq<char> {
    match ip {
        Ip::V4(a) => v4_chars(a),
        Ip::V6(a) => v6_chars(a),
    }
}

/// Writes an address: dotted quad for v4, eight fixed-width hexadecimal
/// groups for v6.
pub fn ip_to_string(ip: &Ip) -> (r: String)
    ensures
        r@ == ip_chars(*ip),
{
    proof {
        reveal_strlit(".");
        reveal_strlit(":");
    }
    match ip {
        Ip::V4(a) => {
            let a = *a;
            proof {
                assert((a >> 24u32) < 256) by (bit_vector);
                assert(((a >> 16u32) & 0xFF) < 256) by (bit_vector);
                assert(((a >> 8u32) & 0xFF) < 256) by (bit_vector);
                assert((a & 0xFF) < 256) by (bit_vector);
            }
            let mut s = dec_string(a >> 24u32);
            s.append(".");
            let s2 = dec_string((a >> 16u32) & 0xFF);
            s.append(s2.as_str());
            s.append(".");
            let s3 = dec_string((a >> 8u32) & 0xFF);
            s.append(s3.as_str());
            s.append(".");
            let s4 = dec_string(a & 0xFF);
            s.append(s4.as_str());
            proof {
                assert(s@ =~= v4_chars(a));
            }
            s
        },
        Ip::V6(a) => {
            let a = *a;
            proof {
                assert(((a >> 112u128) & 0xFFFF) < 65536) by (bit_vector);
                assert(((a >> 96u128) & 0xFFFF) < 65536) by (bit_vector);
                assert(((a >> 80u128) & 0xFFFF) < 65536) by (bit_vector);
                assert(((a >> 64u128) & 0xFFFF) < 65536) by (bit_vector);
                assert(((a >> 48u128) & 0xFFFF) < 65536) by (bit_vector);
                assert(((a >> 32u128) & 0xFFFF) < 65536) by (bit_vector);
                assert(((a >> 16u128) & 0xFFFF) < 65536) by (bit_vector);
                assert((a & 0xFFFF) < 65536) by (bit_vector);
            }
            let mut s = hex4_string(((a >> 112u128) & 0xFFFF) as u16);
            let g = hex4_string(((a >> 96u128) & 0xFFFF) as u16);
            s.append(":");
            s.append(g.as_str());
            let g = hex4_string(((a >> 80u128) & 0xFFFF) as u16);
            s.append(":");
            s.append(g.as_str());
            let g = hex4_string(((a >> 64u128) & 0xFFFF) as u16);
            s.append(":");
            s.append(g.as_str());
            let g = hex4_string(((a >> 48u128) & 0xFFFF) as u16);
            s.append(":");
            s.append(g.as_str());
            let g = hex4_string(((a >> 32u128) & 0xFFFF) as u16);
            s.append(":");
            s.append(g.as_str());
            let g = hex4_string(((a >> 16u128) & 0xFFFF) as u16);
            s.append(":");
            s.append(g.as_str());
            let g = hex4_string((a & 0xFFFF) as u16);
            s.append(":");
            s.append(g.as_str());
            proof {
                assert(s@ =~= v6_chars(a));
            }
            s
        },
    }
}

/// A target's textual form: `ip:port`, the address bracketed for v6.
pub open spec fn task_chars(t: ScanTask) -> Seq<char> {
    match t.ip {
        Ip::V4(_) => ip_chars(t.ip) + seq![':'] + dec_chars(t.port as int),
        Ip::V6(_) => seq!['['] + ip_chars(t.ip) + seq![']'] + seq![':'] + dec_chars(
            t.port as int,
        ),
    }
}

/// Writes a target as `ip:port` (`[ip]:port` for v6).
pub fn task_to_string(t: &ScanTask) -> (r: String)
    ensures
        r@ == task_chars(*t),
{
    proof {
        reveal_strlit("[");
        reveal_strlit("]");
        reveal_strlit(":");
    }
    let ip_s = ip_to_string(&t.ip);
    let port_s = dec_string(t.port as u32);
    let mut s = match &t.ip {
        Ip::V4(_) => String::from_str(ip_s.as_str()),
        Ip::V6(_) => {
            let mut b = String::from_str("[");
            b.append(ip_s.as_str());
            b.append("]");
            b
        },
    };
    s.append(":");
    s.append(port_s.as_str());
    proof {
        assert(s@ =~= task_chars(*t));
    }
    s
}

/// An outcome's textual form: the target with its explicit state.
pub open spec fn outcome_chars(o: ScanOutcome) -> Seq<char> {
    match o.state {
        PortState::Open => task_chars(o.task) + seq![':', 'O', 'P', 'E', 'N'],
        PortState::Closed => task_chars(o.task) + seq![':', 'C', 'L', 'O', 'S', 'E', 'D'],
    }
}

/// Writes an outcome as `ip:port:OPEN` or `ip:port:CLOSED`.
pub fn outcome_to_string(o: &ScanOutcome) -> (r: String)
    ensures
        r@ == outcome_chars(*o),
{
    proof {
        reveal_strlit(":OPEN");
        reveal_strlit(":CLOSED");
    }
    let mut s = task_to_string(&o.task);
    match o.state {
        PortState::Open => s.append(":OPEN"),
        PortState::Closed => s.append(":CLOSED"),
    }
    proof {
        assert(s@ =~= outcome_chars(*o));
    }
    s
}

/// What, if anything, a mode prints the moment an outcome settles.
pub fn live_line(mode: PrintMode, o: &ScanOutcome) -> (r: Option<String>)
    ensures
        mode == PrintMode::LiveAll ==> (r matches Some(s) && s@ == outcome_chars(*o)),
        mode == PrintMode::LiveOpen && o.state == PortState::Open ==> (r matches Some(s) && s@
            == task_chars(o.task)),
        mode == PrintMode::LiveOpen && o.state == PortState::Closed ==> r is None,
        mode == PrintMode::Suppressed || mode == PrintMode::SummaryOpen || mode
            == PrintMode::SummaryAll ==> r is None,
{
    match mode {
        PrintMode::LiveAll => Some(outcome_to_string(o)),
        PrintMode::LiveOpen => {
            if matches!(o.state, PortState::Open) {
                Some(task_to_string(&o.task))
            } else {
                None
            }
        },
        _ => None,
    }
}

/// The lines a mode prints at run end for the settled outcomes, in order:
/// the open targets for the open-summary mode, every target with its state
/// for the full-summary mode, nothing otherwise.
pub open spec fn summary_chars(mode: PrintMode, os: Seq<ScanOutcome>) -> Seq<Seq<char>>
    decreases os.len(),
{
    if os.len() == 0 {
        Seq::empty()
    } else {
        let prev = summary_chars(mode, os.drop_last());
        let last = os.last();
        match mode {
            PrintMode::SummaryOpen => if last.state == PortState::Open {
                prev.push(task_chars(last.task))
            } else {
                prev
            },
            PrintMode::SummaryAll => prev.push(outcome_chars(last)),
            _ => prev,
        }
    }
}

/// Writes the end-of-run summary for a mode.
pub fn summary_lines(mode: PrintMode, outcomes: &Vec<ScanOutcome>) -> (r: Vec<String>)
    ensures
        r@.map_values(|s: String| s@) == summary_chars(mode, outcomes@),
{
    let mut out: Vec<String> = Vec::new();
    let n = outcomes.len();
    let mut i: usize = 0;
    while i < n
        invariant
            n == outcomes@.len(),
            i <= n,
            out@.map_values(|s: String| s@) == summary_chars(mode, outcomes@.take(i as int)),
        decreases n - i,
    {
        proof {
            assert(outcomes@.take(i + 1).drop_last() =~= outcomes@.take(i as int));
            assert(outcomes@.take(i + 1).last() == outcomes@[i as int]);
        }
        let ghost prev = out@.map_values(|s: String| s@);
        let o = &outcomes[i];
        match mode {
            PrintMode::SummaryOpen => {
                if matches!(o.state, PortState::Open) {
                    let line = task_to_string(&o.task);
                    let ghost line_view = line@;
                    out.push(line);
                    proof {
                        assert(out@.map_values(|s: String| s@) =~= prev.push(line_view));
                    }
                }
            },
            PrintMode::SummaryAll => {
                let line = outcome_to_string(o);
                let ghost line_view = line@;
                out.push(line);
                proof {
                    assert(out@.map_values(|s: String| s@) =~= prev.push(line_view));
                }
            },
            _ => {},
        }
        i = i + 1;
    }
    proof {
        assert(outcomes@.take(n as int) =~= outcomes@);
    }
    out
}

} // verus!
