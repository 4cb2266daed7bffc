//! Reading symbol maps: the line-oriented text listing of named regions and
//! their addresses.
//!
//! A record line holds, after two blanks, an 8-character field, a blank, a
//! 6-character length, a blank, an 8-character hex address, four more
//! characters (the flag column), the name, and then two blanks before the
//! member name.

use vstd::prelude::*;
use vstd::string::StrSliceExecFns;
use crate::symbols::SymbolTable;
use crate::text::{find_char, find_from, is_whitespace, is_ws};

verus! {

/// Whether `c` is a word character in the Unicode sense that regular
/// expressions give `\w`: Alphabetic, Join_Control, Decimal_Number, Mark or
/// Connector_Punctuation. The fixed-width fields are made of these.
pub uninterp spec fn is_word(c: char) -> bool;

/// Relies on `regex_syntax::is_word_character`: the Unicode word-character
/// test of regular expressions; it panics only without the crate's default
/// `unicode-perl` feature, which is on.
#[verifier::external_body]
fn word_character(c: char) -> (r: bool)
    ensures
        r == is_word(c),
{
    regex_syntax::is_word_character(c)
}

/// Whether `l[a..a + n]` holds only field characters.
pub open spec fn words(l: Seq<char>, a: int, n: int) -> bool {
    forall|i: int| a <= i < a + n ==> is_word(#[trigger] l[i])
}

/// Whether the fixed-width part of a record starts at `p` in `l`.
pub open spec fn record_prefix_at(l: Seq<char>, p: int) -> bool {
    &&& 0 <= p
    &&& p + 30 <= l.len()
    &&& is_ws(l[p])
    &&& is_ws(l[p + 1])
    &&& words(l, p + 2, 8)
    &&& is_ws(l[p + 10])
    &&& words(l, p + 11, 6)
    &&& is_ws(l[p + 17])
    &&& words(l, p + 18, 8)
}

/// The first index at or after `p` where a record's fixed part starts, or -1.
pub open spec fn first_record(l: Seq<char>, p: int) -> int
    decreases l.len() - p,
{
    if p < 0 || p + 30 > l.len() {
        -1
    } else if record_prefix_at(l, p) {
        p
    } else {
        first_record(l, p + 1)
    }
}

/// The last index `j` in `lo..=hi` where two blanks start, or -1.
pub open spec fn last_blank_pair(l: Seq<char>, lo: int, hi: int) -> int
    decreases hi - lo + 1,
{
    if hi < lo {
        -1
    } else if 0 <= hi && hi + 1 < l.len() && is_ws(l[hi]) && is_ws(l[hi + 1]) {
        hi
    } else {
        last_blank_pair(l, lo, hi - 1)
    }
}

/// The name and the address field of a record line, if `l` is one.
pub open spec fn map_record(l: Seq<char>) -> Option<(Seq<char>, Seq<char>)> {
    let p = first_record(l, 0);
    if p < 0 {
        None
    } else {
        let q = last_blank_pair(l, p + 30, l.len() - 2);
        if q < 0 {
            None
        } else {
            Some((l.subrange(p + 30, q), l.subrange(p + 18, p + 26)))
        }
    }
}

/// The value of a hex digit.
pub open spec fn hex_digit(c: char) -> Option<nat> {
    if '0' <= c && c <= '9' {
        Some((c as nat - '0' as nat) as nat)
    } else if 'a' <= c && c <= 'f' {
        Some((c as nat - 'a' as nat + 10) as nat)
    } else if 'A' <= c && c <= 'F' {
        Some((c as nat - 'A' as nat + 10) as nat)
    } else {
        None
    }
}

/// The value of a string of hex digits.
pub open spec fn hex_value(s: Seq<char>) -> Option<nat>
    decreases s.len(),
{
    if s.len() == 0 {
        Some(0)
    } else {
        match (hex_value(s.drop_last()), hex_digit(s.last())) {
            (Some(a), Some(d)) => Some(a * 16 + d),
            _ => None,
        }
    }
}

/// The symbols of the first lines of a map: each record whose name does not
/// start with `.` binds its name to its address, later records winning;
/// `None` when a bound record's address is not hex.
pub open spec fn symbols_of(lines: Seq<Seq<char>>) -> Option<Map<Seq<char>, u32>>
    decreases lines.len(),
{
    if lines.len() == 0 {
        Some(Map::empty())
    } else {
        match symbols_of(lines.drop_last()) {
            None => None,
            Some(m) => match map_record(lines.last()) {
                None => Some(m),
                Some((name, address)) => if name.len() > 0 && name[0] == '.' {
                    Some(m)
                } else {
                    match hex_value(address) {
                        Some(v) => Some(m.insert(name, v as u32)),
                        None => None,
                    }
                },
            },
        }
    }
}

/// A line without the `\r` of a `\r\n` ending.
pub open spec fn strip_cr(l: Seq<char>) -> Seq<char> {
    if l.len() > 0 && l.last() == '\r' {
        l.drop_last()
    } else {
        l
    }
}

/// The lines of a text as `str::lines` splits it: at `\n` or `\r\n`, with an
/// optional final line ending.
pub open spec fn lines_of(s: Seq<char>) -> Seq<Seq<char>>
    decreases s.len(),
    via lines_of_decreases
{
    if s.len() == 0 {
        seq![]
    } else {
        let k = find_from(s, '\n', 0);
        if k >= s.len() {
            seq![s]
        } else {
            seq![strip_cr(s.take(k))] + lines_of(s.skip(k + 1))
        }
    }
}

pub(crate) proof fn lemma_find_from_bounds(s: Seq<char>, c: char, i: int)
    requires
        0 <= i,
    ensures
        i <= find_from(s, c, i) || find_from(s, c, i) == s.len(),
        0 <= find_from(s, c, i) <= s.len(),
    decreases s.len() - i,
{
    if i < s.len() && s[i] != c {
        lemma_find_from_bounds(s, c, i + 1);
    }
}

#[via_fn]
proof fn lines_of_decreases(s: Seq<char>) {
    lemma_find_from_bounds(s, '\n', 0);
}

} // verus!

verus! {

/// `16` to the power `n`.
pub open spec fn pow16(n: nat) -> nat
    decreases n,
{
    if n == 0 {
        1
    } else {
        16 * pow16((n - 1) as nat)
    }
}

/// Why a symbol map could not be read.
#[derive(Clone, Copy, Debug, PartialEq, Eq)]
pub enum MapError {
    /// A record that names a symbol has an address field that is not hex.
    InvalidAddress,
}

pub(crate) proof fn lemma_find_skip(s: Seq<char>, c: char, p: int, j: int)
    requires
        0 <= p <= s.len(),
        0 <= j,
    ensures
        find_from(s.skip(p), c, j) + p == find_from(s, c, p + j),
    decreases s.len() - p - j,
{
    if p + j < s.len() && s[p + j] != c {
        lemma_find_skip(s, c, p, j + 1);
    }
}

/// Splits `text` into lines as `str::lines` does.
pub fn split_lines(text: &str) -> (r: Vec<&str>)
    ensures
        crate::assembler::line_views(r@) == lines_of(text@),
{
    let n = text.unicode_len();
    let mut out: Vec<&str> = Vec::new();
    let mut pos: usize = 0;
    proof {
        assert(text@.skip(0) =~= text@);
        assert(crate::assembler::line_views(out@) =~= seq![]);
        assert(seq![] + lines_of(text@) =~= lines_of(text@));
    }
    while pos < n
        invariant
            n == text@.len(),
            pos <= n,
            crate::assembler::line_views(out@) + lines_of(text@.skip(pos as int)) == lines_of(
                text@,
            ),
        decreases n - pos,
    {
        let ghost s = text@.skip(pos as int);
        let ghost before = crate::assembler::line_views(out@);
        let k = find_char(text, '\n', pos);
        proof {
            lemma_find_skip(text@, '\n', pos as int, 0);
        }
        if k >= n {
            let line = text.substring_char(pos, n);
            assert(line@ =~= s);
            out.push(line);
            assert(crate::assembler::line_views(out@) =~= before + seq![s]);
            pos = n;
            assert(lines_of(text@.skip(pos as int)) =~= seq![]);
        } else {
            let e = if k > pos && text.get_char(k - 1) == '\r' {
                k - 1
            } else {
                k
            };
            let line = text.substring_char(pos, e);
            assert(line@ =~= strip_cr(s.take(k - pos)));
            out.push(line);
            assert(crate::assembler::line_views(out@) =~= before + seq![line@]);
            assert(s.skip(k - pos + 1) =~= text@.skip(k + 1));
            pos = k + 1;
            assert(before + (seq![line@] + lines_of(text@.skip(pos as int))) =~= before + seq![
                line@,
            ] + lines_of(text@.skip(pos as int)));
        }
    }
    proof {
        assert(text@.skip(pos as int) =~= seq![]);
        assert(crate::assembler::line_views(out@) + seq![] =~= crate::assembler::line_views(
            out@,
        ));
    }
    out
}

/// Whether `l[a..a + n]` holds only field characters.
fn all_words(l: &str, a: usize, n: usize) -> (r: bool)
    requires
        a + n <= l@.len() <= usize::MAX,
    ensures
        r == words(l@, a as int, n as int),
{
    let mut i: usize = 0;
    while i < n
        invariant
            a + n <= l@.len() <= usize::MAX,
            i <= n,
            words(l@, a as int, i as int),
        decreases n - i,
    {
        let c = l.get_char(a + i);
        if !word_character(c) {
            assert(!is_word(l@[a + i]));
            return false;
        }
        i = i + 1;
    }
    true
}

/// Where the fixed part of a record starts in `l`, if anywhere.
fn record_start(l: &str) -> (r: Option<usize>)
    ensures
        r matches Some(p) ==> p as int == first_record(l@, 0) && p + 30 <= l@.len(),
        r is None ==> first_record(l@, 0) < 0,
{
    let n = l.unicode_len();
    if n < 30 {
        return None;
    }
    let mut p: usize = 0;
    while p <= n - 30
        invariant
            n == l@.len(),
            n >= 30,
            first_record(l@, p as int) == first_record(l@, 0),
        decreases n - p,
    {
        if is_whitespace(l.get_char(p)) && is_whitespace(l.get_char(p + 1)) && all_words(l, p + 2, 8)
            && is_whitespace(l.get_char(p + 10)) && all_words(l, p + 11, 6) && is_whitespace(
            l.get_char(p + 17),
        ) && all_words(l, p + 18, 8) {
            return Some(p);
        }
        p = p + 1;
    }
    None
}

/// The last index in `lo..=hi` where two blanks start, if any.
fn last_pair(l: &str, lo: usize, hi: usize) -> (r: Option<usize>)
    requires
        hi + 1 < l@.len() <= usize::MAX,
    ensures
        r matches Some(j) ==> j as int == last_blank_pair(l@, lo as int, hi as int),
        r is None ==> last_blank_pair(l@, lo as int, hi as int) < 0,
{
    let mut j1: usize = hi + 1;
    while j1 > lo
        invariant
            hi + 1 < l@.len() <= usize::MAX,
            j1 <= hi + 1,
            last_blank_pair(l@, lo as int, j1 - 1) == last_blank_pair(l@, lo as int, hi as int),
        decreases j1,
    {
        let j = j1 - 1;
        if is_whitespace(l.get_char(j)) && is_whitespace(l.get_char(j + 1)) {
            return Some(j);
        }
        j1 = j;
    }
    None
}

/// The name and the address field of a record line.
pub fn parse_record(l: &str) -> (r: Option<(&str, &str)>)
    ensures
        r matches Some((name, address)) ==> map_record(l@) == Some((name@, address@)),
        r is None ==> map_record(l@) is None,
{
    let n = l.unicode_len();
    let p = match record_start(l) {
        Some(p) => p,
        None => {
            return None;
        },
    };
    let q = match last_pair(l, p + 30, n - 2) {
        Some(q) => q,
        None => {
            return None;
        },
    };
    proof {
        lemma_last_blank_pair_bounds(l@, p + 30, n - 2);
    }
    let name = l.substring_char(p + 30, q);
    let address = l.substring_char(p + 18, p + 26);
    Some((name, address))
}

/// The value of a field of at most eight hex digits.
pub fn parse_hex_field(s: &str) -> (r: Option<u32>)
    requires
        s@.len() <= 8,
    ensures
        r matches Some(v) ==> hex_value(s@) == Some(v as nat),
        r is None ==> hex_value(s@) is None,
{
    let n = s.unicode_len();
    let mut acc: u64 = 0;
    let mut i: usize = 0;
    proof {
        assert(s@.take(0) =~= seq![]);
        lemma_pow16_mono(0, 8);
    }
    while i < n
        invariant
            n == s@.len(),
            n <= 8,
            i <= n,
            hex_value(s@.take(i as int)) == Some(acc as nat),
            acc < pow16(i as nat),
            pow16(i as nat) <= pow16(8),
        decreases n - i,
    {
        let c = s.get_char(i);
        let d: u64 = if '0' <= c && c <= '9' {
            (c as u64) - ('0' as u64)
        } else if 'a' <= c && c <= 'f' {
            (c as u64) - ('a' as u64) + 10
        } else if 'A' <= c && c <= 'F' {
            (c as u64) - ('A' as u64) + 10
        } else {
            proof {
                assert(s@.take(i + 1).drop_last() =~= s@.take(i as int));
                lemma_hex_value_prefix(s@, i + 1);
            }
            return None;
        };
        assert(s@.take(i + 1).drop_last() =~= s@.take(i as int));
        assert(pow16(8) == 0x1_0000_0000) by {
            reveal_with_fuel(pow16, 9);
        }
        assert(acc * 16 + d < pow16(i as nat) * 16) by (nonlinear_arith)
            requires
                acc < pow16(i as nat),
                d < 16,
        ;
        acc = acc * 16 + d;
        proof {
            if i + 1 <= 8 {
                lemma_pow16_mono((i + 1) as nat, 8);
            }
        }
        i = i + 1;
    }
    proof {
        assert(s@.take(n as int) =~= s@);
        assert(pow16(8) == 0x1_0000_0000) by {
            reveal_with_fuel(pow16, 9);
        }
    }
    Some(acc as u32)
}

proof fn lemma_last_blank_pair_bounds(l: Seq<char>, lo: int, hi: int)
    ensures
        last_blank_pair(l, lo, hi) == -1 || lo <= last_blank_pair(l, lo, hi) <= hi,
    decreases hi - lo + 1,
{
    if hi >= lo && !(0 <= hi && hi + 1 < l.len() && is_ws(l[hi]) && is_ws(l[hi + 1])) {
        lemma_last_blank_pair_bounds(l, lo, hi - 1);
    }
}

proof fn lemma_hex_value_prefix(s: Seq<char>, k: int)
    requires
        0 <= k <= s.len(),
        hex_value(s.take(k)) is None,
    ensures
        hex_value(s) is None,
    decreases s.len() - k,
{
    if k < s.len() {
        assert(s.take(k + 1).drop_last() =~= s.take(k));
        lemma_hex_value_prefix(s, k + 1);
    } else {
        assert(s.take(k) =~= s);
    }
}

proof fn lemma_symbols_of_failure_sticks(lines: Seq<Seq<char>>, k: int)
    requires
        0 <= k <= lines.len(),
        symbols_of(lines.take(k)) is None,
    ensures
        symbols_of(lines) is None,
    decreases lines.len() - k,
{
    if k < lines.len() {
        assert(lines.take(k + 1).drop_last() =~= lines.take(k));
        lemma_symbols_of_failure_sticks(lines, k + 1);
    } else {
        assert(lines.take(k) =~= lines);
    }
}

pub(crate) proof fn lemma_pow16_mono(a: nat, b: nat)
    requires
        a <= b,
    ensures
        pow16(a) <= pow16(b),
    decreases b - a,
{
    if a < b {
        lemma_pow16_mono(a, (b - 1) as nat);
    }
}

/// Reads the symbols of a map: every record line whose name does not start
/// with `.` binds that name to its address.
pub fn parse(text: &str) -> (r: Result<SymbolTable, MapError>)
    ensures
        r matches Ok(t) ==> symbols_of(lines_of(text@)) == Some(t@),
        r is Err ==> symbols_of(lines_of(text@)) is None,
{
    let lines = split_lines(text);
    let ghost views = crate::assembler::line_views(lines@);
    let mut table = SymbolTable::new();
    let mut i: usize = 0;
    proof {
        assert(views.take(0) =~= seq![]);
    }
    while i < lines.len()
        invariant
            i <= lines@.len(),
            views == crate::assembler::line_views(lines@),
            views == lines_of(text@),
            views.len() == lines@.len(),
            symbols_of(views.take(i as int)) == Some(table@),
        decreases lines@.len() - i,
    {
        let line = lines[i];
        proof {
            assert(views.take(i + 1).drop_last() =~= views.take(i as int));
            assert(views.take(i + 1).last() == line@);
        }
        match parse_record(line) {
            None => {},
            Some((name, address)) => {
                let dot = name.unicode_len() > 0 && name.get_char(0) == '.';
                if !dot {
                    match parse_hex_field(address) {
                        Some(v) => {
                            table.insert(name, v);
                        },
                        None => {
                            proof {
                                let t = views.take(i + 1);
                                assert(t.drop_last() =~= views.take(i as int));
                                assert(t.last() == line@);
                                assert(!(name@.len() > 0 && name@[0] == '.'));
                                assert(symbols_of(t) is None);
                                lemma_symbols_of_failure_sticks(views, i + 1);
                            }
                            return Err(MapError::InvalidAddress);
                        },
                    }
                }
            },
        }
        i = i + 1;
    }
    proof {
        assert(views.take(i as int) =~= views);
    }
    Ok(table)
}

} // verus!
