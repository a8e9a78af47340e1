use vstd::prelude::*;
use vstd::slice::slice_subrange;
use vstd::string::StringSliceAdditionalSpecFns;

verus! {

use crate::text::spec_split;
use crate::text::{all_digits, bytes_same, dec_val, parse_u64_on_bytes, spec_tokens, tokenize_ws};

// ---------------------------------------------------------------------------
// Host memory counters: the kernel's meminfo file.
// ---------------------------------------------------------------------------

#[derive(Debug, Clone, PartialEq)]
pub enum MemInfoError {
    IOError(String),
    EntryNotFound(String),
    InvalidEntry(String),
}

/// One reading of the host memory counters, all in kilobytes.
#[derive(Debug, Clone, Copy, PartialEq)]
pub struct MemInfo {
    pub total: u64,
    pub free: u64,
    pub available: u64,
    pub buffers: u64,
    pub cached: u64,
    pub swap_cached: u64,
    pub active: u64,
    pub inactive: u64,
    pub active_anon: u64,
    pub inactive_anon: u64,
    pub active_file: u64,
    pub inactive_file: u64,
    pub unevictable: u64,
    pub mlocked: u64,
    pub swap_total: u64,
    pub swap_free: u64,
    pub dirty: u64,
    pub writeback: u64,
}

pub open spec fn is_prefix(sig: Seq<u8>, l: Seq<u8>) -> bool {
    sig.len() <= l.len() && l.take(sig.len() as int) == sig
}

/// The first line that starts with `sig`.
pub open spec fn spec_find_line(lines: Seq<Seq<u8>>, sig: Seq<u8>) -> Option<Seq<u8>>
    decreases lines.len(),
{
    if lines.len() == 0 {
        None
    } else if is_prefix(sig, lines[0]) {
        Some(lines[0])
    } else {
        spec_find_line(lines.drop_first(), sig)
    }
}

/// The value of token `i`, when it exists and parses as an unsigned
/// decimal.
pub open spec fn tok_u64(toks: Seq<Seq<u8>>, i: int) -> Option<u64> {
    if 0 <= i < toks.len() && toks[i].len() > 0 && all_digits(toks[i]) && dec_val(toks[i])
        <= u64::MAX {
        Some(dec_val(toks[i]) as u64)
    } else {
        None
    }
}

/// The counter a meminfo document records under `sig`: on the first line
/// starting with `sig`, the first token must be exactly `sig` and the
/// second token is the value.
pub open spec fn spec_mem_field(s: Seq<u8>, sig: Seq<u8>) -> Option<u64> {
    match spec_find_line(spec_split(s, 10), sig) {
        None => None,
        Some(l) => {
            let toks = spec_tokens(l);
            if toks.len() >= 2 && toks[0] == sig {
                tok_u64(toks, 1)
            } else {
                None
            }
        },
    }
}

proof fn lemma_find_line_skip(lines: Seq<Seq<u8>>, sig: Seq<u8>, i: int)
    requires
        0 <= i <= lines.len(),
        forall|j: int| 0 <= j < i ==> !is_prefix(sig, #[trigger] lines[j]),
    ensures
        spec_find_line(lines, sig) == spec_find_line(lines.skip(i), sig),
    decreases i,
{
    if i == 0 {
        assert(lines.skip(0) =~= lines);
    } else {
        assert(lines.len() > 0);
        assert(!is_prefix(sig, lines[0]));
        assert forall|j: int| 0 <= j < i - 1 implies !is_prefix(
            sig,
            #[trigger] lines.drop_first()[j],
        ) by {
            assert(lines.drop_first()[j] == lines[j + 1]);
        }
        lemma_find_line_skip(lines.drop_first(), sig, i - 1);
        assert(lines.drop_first().skip(i - 1) =~= lines.skip(i));
    }
}

/// Reads the counter recorded under `signature` out of the split lines
/// of a meminfo document.
pub fn parse_line(lines: &Vec<Vec<u8>>, signature: &str) -> (r: Result<u64, MemInfoError>)
    ensures
        r is Ok <==> spec_mem_field_lines(
            lines@.map_values(|v: Vec<u8>| v@),
            signature.spec_bytes(),
        ) is Some,
        r is Ok ==> r.unwrap() == spec_mem_field_lines(
            lines@.map_values(|v: Vec<u8>| v@),
            signature.spec_bytes(),
        ).unwrap(),
{
    let ghost lv = lines@.map_values(|v: Vec<u8>| v@);
    let ghost sig = signature.spec_bytes();
    let sig_bytes = signature.as_bytes();
    let m = sig_bytes.len();
    let n = lines.len();
    let mut i: usize = 0;
    loop
        invariant
            0 <= i <= n,
            n == lv.len(),
            m == sig.len(),
            sig_bytes@ == sig,
            sig == signature.spec_bytes(),
            lv == lines@.map_values(|v: Vec<u8>| v@),
            forall|j: int| 0 <= j < i ==> !is_prefix(sig, #[trigger] lv[j]),
        decreases n - i,
    {
        proof {
            lemma_find_line_skip(lv, sig, i as int);
        }
        if i == n {
            proof {
                assert(lv.skip(i as int).len() == 0);
            }
            return Err(MemInfoError::EntryNotFound(signature.to_owned()));
        }
        proof {
            assert(lv.skip(i as int)[0] == lv[i as int]);
            assert(lv[i as int] == lines@[i as int]@);
        }
        let line = &lines[i];
        let pref: bool = if m <= line.len() {
            bytes_same(slice_subrange(line.as_slice(), 0, m), sig_bytes)
        } else {
            false
        };
        proof {
            if m <= line@.len() {
                assert(line@.subrange(0, m as int) =~= line@.take(m as int));
                if !pref && is_prefix(sig, lv[i as int]) {
                    assert(line@.take(m as int) == sig);
                }
            }
            assert(pref == is_prefix(sig, lv[i as int]));
        }
        if pref {
            proof {
                assert(is_prefix(sig, lv.skip(i as int)[0]));
                assert(spec_find_line(lv.skip(i as int), sig) == Some(lv.skip(i as int)[0]));
                assert(spec_find_line(lv, sig) == Some(lv[i as int]));
            }
            let toks = tokenize_ws(line.as_slice());
            let ghost tv = spec_tokens(lv[i as int]);
            proof {
                assert(toks@.map_values(|v: Vec<u8>| v@) =~= tv);
            }
            if toks.len() < 2 {
                return Err(MemInfoError::EntryNotFound(signature.to_owned()));
            }
            proof {
                assert(toks@.map_values(|v: Vec<u8>| v@)[0] == toks@[0]@);
                assert(toks@.map_values(|v: Vec<u8>| v@)[1] == toks@[1]@);
            }
            if !bytes_same(toks[0].as_slice(), sig_bytes) {
                return Err(MemInfoError::EntryNotFound(signature.to_owned()));
            }
            match parse_u64_on_bytes(toks[1].as_slice()) {
                Some(v) => {
                    return Ok(v);
                },
                None => {
                    return Err(MemInfoError::InvalidEntry(signature.to_owned()));
                },
            }
        }
        i = i + 1;
    }
}

/// `spec_mem_field` over already-split lines.
pub open spec fn spec_mem_field_lines(lines: Seq<Seq<u8>>, sig: Seq<u8>) -> Option<u64> {
    match spec_find_line(lines, sig) {
        None => None,
        Some(l) => {
            let toks = spec_tokens(l);
            if toks.len() >= 2 && toks[0] == sig {
                tok_u64(toks, 1)
            } else {
                None
            }
        },
    }
}

impl MemInfo {
    /// Parses a whole meminfo document: each counter is read from the
    /// first line that starts with its label, wherever that line stands.
    pub fn parse(s: &str) -> (r: Result<MemInfo, MemInfoError>)
        ensures
            ({
                let lines = spec_split(s.spec_bytes(), 10);
                &&& (r is Ok <==> {
                    &&& spec_mem_field_lines(lines, "MemTotal:".spec_bytes()) is Some
                    &&& spec_mem_field_lines(lines, "MemFree:".spec_bytes()) is Some
                    &&& spec_mem_field_lines(lines, "MemAvailable:".spec_bytes()) is Some
                    &&& spec_mem_field_lines(lines, "Buffers:".spec_bytes()) is Some
                    &&& spec_mem_field_lines(lines, "Cached:".spec_bytes()) is Some
                    &&& spec_mem_field_lines(lines, "SwapCached:".spec_bytes()) is Some
                    &&& spec_mem_field_lines(lines, "Active:".spec_bytes()) is Some
                    &&& spec_mem_field_lines(lines, "Inactive:".spec_bytes()) is Some
                    &&& spec_mem_field_lines(lines, "Active(anon):".spec_bytes()) is Some
                    &&& spec_mem_field_lines(lines, "Inactive(anon):".spec_bytes()) is Some
                    &&& spec_mem_field_lines(lines, "Active(file):".spec_bytes()) is Some
                    &&& spec_mem_field_lines(lines, "Inactive(file):".spec_bytes()) is Some
                    &&& spec_mem_field_lines(lines, "Unevictable:".spec_bytes()) is Some
                    &&& spec_mem_field_lines(lines, "Mlocked:".spec_bytes()) is Some
                    &&& spec_mem_field_lines(lines, "SwapTotal:".spec_bytes()) is Some
                    &&& spec_mem_field_lines(lines, "SwapFree:".spec_bytes()) is Some
                    &&& spec_mem_field_lines(lines, "Dirty:".spec_bytes()) is Some
                    &&& spec_mem_field_lines(lines, "Writeback:".spec_bytes()) is Some
                })
                &&& (r is Ok ==> {
                    let m = r.unwrap();
                    &&& m.total == spec_mem_field_lines(lines, "MemTotal:".spec_bytes()).unwrap()
                    &&& m.free == spec_mem_field_lines(lines, "MemFree:".spec_bytes()).unwrap()
                    &&& m.available == spec_mem_field_lines(
                        lines,
                        "MemAvailable:".spec_bytes(),
                    ).unwrap()
                    &&& m.swap_total == spec_mem_field_lines(
                        lines,
                        "SwapTotal:".spec_bytes(),
                    ).unwrap()
                    &&& m.swap_free == spec_mem_field_lines(
                        lines,
                        "SwapFree:".spec_bytes(),
                    ).unwrap()
                })
            }),
    {
        let lines = crate::text::split_bytes(s.as_bytes(), 10);
        proof {
            assert(lines@.map_values(|v: Vec<u8>| v@) =~= spec_split(s.spec_bytes(), 10));
        }
        Ok(
            MemInfo {
                total: parse_line(&lines, "MemTotal:")?,
                free: parse_line(&lines, "MemFree:")?,
                available: parse_line(&lines, "MemAvailable:")?,
                buffers: parse_line(&lines, "Buffers:")?,
                cached: parse_line(&lines, "Cached:")?,
                swap_cached: parse_line(&lines, "SwapCached:")?,
                active: parse_line(&lines, "Active:")?,
                inactive: parse_line(&lines, "Inactive:")?,
                active_anon: parse_line(&lines, "Active(anon):")?,
                inactive_anon: parse_line(&lines, "Inactive(anon):")?,
                active_file: parse_line(&lines, "Active(file):")?,
                inactive_file: parse_line(&lines, "Inactive(file):")?,
                unevictable: parse_line(&lines, "Unevictable:")?,
                mlocked: parse_line(&lines, "Mlocked:")?,
                swap_total: parse_line(&lines, "SwapTotal:")?,
                swap_free: parse_line(&lines, "SwapFree:")?,
                dirty: parse_line(&lines, "Dirty:")?,
                writeback: parse_line(&lines, "Writeback:")?,
            },
        )
    }
}

} // verus!
