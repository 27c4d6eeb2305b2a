//! Total-memory detection: the parsing of what each platform reports, and
//! the fallback when nothing usable was reported.

use vstd::prelude::*;
use crate::text::{
    has_prefix, parse_u64, parse_u64_spec, split_on, split_on_char, starts_with,
    whitespace_tokens, ws_tokens, views,
};

verus! {

/// The total assumed when detection fails: 1 GiB, in KiB.
pub const FALLBACK_MEMORY_KB: u64 = 1048576;

/// The value of a `MemTotal:` line: its second whitespace-separated token as a number.
pub open spec fn meminfo_line_value(line: Seq<char>) -> Option<u64> {
    if has_prefix(line, "MemTotal:"@) && ws_tokens(line).len() > 1 {
        parse_u64_spec(ws_tokens(line)[1])
    } else {
        None
    }
}

/// The value of the first line that gives one.
pub open spec fn first_line_value(lines: Seq<Seq<char>>) -> Option<u64>
    decreases lines.len(),
{
    if lines.len() == 0 {
        None
    } else {
        match meminfo_line_value(lines[0]) {
            Some(v) => Some(v),
            None => first_line_value(lines.drop_first()),
        }
    }
}

/// The total in KiB that a memory-information text gives.
pub open spec fn meminfo_total(contents: Seq<char>) -> Option<u64> {
    first_line_value(split_on(contents, '\n'))
}

/// Reads the total memory in KiB from the text of a memory-information
/// pseudo-file: the first `MemTotal:` line whose second token is a number.
pub fn parse_meminfo_total_kb(contents: &str) -> (r: Option<u64>)
    ensures
        r == meminfo_total(contents@),
{
    let lines = split_on_char(contents, '\n');
    let ghost ls = views(lines@);
    let mut k: usize = 0;
    assert(ls.subrange(0, ls.len() as int) == ls);
    while k < lines.len()
        invariant
            ls == views(lines@),
            ls == split_on(contents@, '\n'),
            k <= lines.len(),
            first_line_value(ls) == first_line_value(ls.subrange(k as int, ls.len() as int)),
        decreases lines.len() - k,
    {
        let line = lines[k].as_str();
        let ghost rest = ls.subrange(k as int, ls.len() as int);
        assert(rest[0] == line@);
        assert(rest.drop_first() == ls.subrange(k + 1, ls.len() as int));
        if starts_with(line, "MemTotal:") {
            let toks = whitespace_tokens(line);
            if toks.len() > 1 {
                assert(views(toks@)[1] == toks@[1]@);
                match parse_u64(toks[1].as_str()) {
                    Some(v) => {
                        return Some(v);
                    },
                    None => {},
                }
            }
        }
        k = k + 1;
    }
    None
}

/// The total in KiB that a `hw.memsize` report gives: its last token as a
/// number of bytes, divided by 1024.
pub open spec fn memsize_total(out: Seq<char>) -> Option<u64> {
    let toks = ws_tokens(out);
    if toks.len() > 0 {
        match parse_u64_spec(toks.last()) {
            Some(b) => Some(b / 1024),
            None => None,
        }
    } else {
        None
    }
}

/// Reads the total memory in KiB from a system-utility report of the
/// memory size in bytes (`hw.memsize: <bytes>`).
pub fn parse_memsize_kb(out: &str) -> (r: Option<u64>)
    ensures
        r == memsize_total(out@),
{
    let toks = whitespace_tokens(out);
    if toks.len() == 0 {
        return None;
    }
    let last = toks.len() - 1;
    assert(views(toks@).last() == toks@[last as int]@);
    match parse_u64(toks[last].as_str()) {
        Some(b) => Some(b / 1024),
        None => None,
    }
}

/// The total that the memory generator works with.
#[derive(Clone, Copy, Debug, PartialEq, Eq, Structural)]
pub struct MemoryTotal {
    /// Total memory in KiB.
    pub kb: u64,
    /// Whether detection failed and `kb` is the fallback.
    pub is_fallback: bool,
}

/// The total memory from what detection found: a detected total above zero,
/// else the 1 GiB fallback. The result is never zero.
pub fn total_memory_kb(detected: Option<u64>) -> (r: MemoryTotal)
    ensures
        r.kb > 0,
        r.is_fallback == !(detected matches Some(k) && k > 0),
        r.is_fallback ==> r.kb == FALLBACK_MEMORY_KB,
        !r.is_fallback ==> detected == Some(r.kb),
{
    match detected {
        Some(k) if k > 0 => MemoryTotal { kb: k, is_fallback: false },
        _ => MemoryTotal { kb: FALLBACK_MEMORY_KB, is_fallback: true },
    }
}

} // verus!
