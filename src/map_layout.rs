//! Writing symbol maps: one fixed-width line per linked section, optionally
//! followed by the lines of the game's own map.

use vstd::prelude::*;
use vstd::string::StrSliceExecFns;
use crate::symbol_map::{lines_of, pow16, split_lines};
use crate::text::{has_prefix, starts_with};

verus! {

/// What a linked section holds.
#[derive(Clone, Copy, Debug, PartialEq, Eq, Structural)]
pub enum SectionKind {
    TextSection,
    DataSection,
    Other,
}

/// A named, addressed chunk of compiled code or data placed into the image.
#[derive(Clone, Debug)]
pub struct LinkedSection {
    pub section_name: String,
    pub member_name: String,
    pub address: u32,
    pub len: u32,
    pub sym_offset: u32,
    pub kind: SectionKind,
}

/// The readable form of a Rust symbol as `rustc_demangle` renders it; the
/// text itself when it is not a mangled symbol.
pub uninterp spec fn rust_demangled(s: Seq<char>) -> Seq<char>;

/// Relies on `rustc_demangle::demangle` and its `Display` form: the readable
/// name of a mangled Rust symbol (with its `::h` hash suffix), which depends
/// on the text alone.
#[verifier::external_body]
fn demangle_rust(s: &str) -> (r: String)
    ensures
        r@ == rust_demangled(s@),
{
    rustc_demangle::demangle(s).to_string()
}

/// Relies on `String::push_str`: appends `t`.
#[verifier::external_body]
fn push_str(s: &mut String, t: &str)
    ensures
        final(s)@ == old(s)@ + t@,
{
    s.push_str(t)
}

/// Relies on `String::push`: appends `c`.
#[verifier::external_body]
fn push_char(s: &mut String, c: char)
    ensures
        final(s)@ == old(s)@.push(c),
{
    s.push(c)
}

/// The lowercase hex digit of `d` (below 16).
pub open spec fn hex_char(d: nat) -> char {
    if d < 10 {
        (('0' as nat) + d) as char
    } else {
        (('a' as nat) + d - 10) as char
    }
}

/// The number of digits that `{:0w$x}` prints for `v`: `w`, or more when `v`
/// needs them.
pub open spec fn hex_width(v: u32, w: nat) -> nat
    decreases 8 - w,
{
    if w >= 8 || (v as nat) < pow16(w) {
        w
    } else {
        hex_width(v, w + 1)
    }
}

/// The last `k` hex digits of `v`, most significant first.
pub open spec fn hex_fixed(v: nat, k: nat) -> Seq<char> {
    Seq::new(k, |i: int| hex_char((v / pow16((k - 1 - i) as nat)) % 16))
}

/// `v` in lowercase hex, zero-padded to `w` digits.
pub open spec fn hex_padded(v: u32, w: nat) -> Seq<char> {
    hex_fixed(v as nat, hex_width(v, w))
}

/// A demangled name without the `::h` and 16 hex digits of its hash.
pub open spec fn strip_hash(d: Seq<char>) -> Seq<char> {
    if d.len() >= 19 && d.subrange(d.len() - 19, d.len() - 16) == seq![':', ':', 'h'] {
        d.take(d.len() - 19)
    } else {
        d
    }
}

/// The name a section is listed under: text sections named `.text.<symbol>`
/// appear as the demangled symbol.
pub open spec fn display_name(name: Seq<char>, kind: SectionKind) -> Seq<char> {
    if starts_with(name, seq!['.', 't', 'e', 'x', 't', '.']) && kind == SectionKind::TextSection {
        strip_hash(rust_demangled(name.skip(6)))
    } else {
        name
    }
}

/// The map line of a section.
pub open spec fn section_line(s: LinkedSection) -> Seq<char> {
    seq![' ', ' ', '0', '0', '0', '0', '0', '0', '0', '0', ' '] + hex_padded(
        s.len.wrapping_sub(s.sym_offset),
        6,
    ) + seq![' '] + hex_padded(s.address.wrapping_add(s.sym_offset), 8) + seq![' ', ' ', '4', ' ']
        + display_name(s.section_name@, s.kind) + seq![' ', '\t'] + s.member_name@ + seq!['\n']
}

/// The lines of all sections, in order.
pub open spec fn sections_text(sections: Seq<LinkedSection>) -> Seq<char>
    decreases sections.len(),
{
    if sections.len() == 0 {
        seq![]
    } else {
        sections_text(sections.drop_last()) + section_line(sections.last())
    }
}

/// Lines, each followed by a line feed.
pub open spec fn lines_text(lines: Seq<Seq<char>>) -> Seq<char>
    decreases lines.len(),
{
    if lines.len() == 0 {
        seq![]
    } else {
        lines_text(lines.drop_last()) + lines.last() + seq!['\n']
    }
}

/// The header line of a map.
pub open spec fn map_header() -> Seq<char> {
    seq![
        '.', 't', 'e', 'x', 't', ' ', 's', 'e', 'c', 't', 'i', 'o', 'n', ' ', 'l', 'a', 'y', 'o',
        'u', 't', '\n'
    ]
}

/// The whole map: the header, one line per section, and, when the game's
/// own map is given, two blank lines and its lines.
pub open spec fn map_text(sections: Seq<LinkedSection>, game_map: Option<Seq<char>>) -> Seq<char> {
    map_header() + sections_text(sections) + match game_map {
        Some(o) => seq!['\n', '\n'] + lines_text(lines_of(o)),
        None => seq![],
    }
}

proof fn lemma_pow16_step(k: nat)
    requires
        k > 0,
    ensures
        pow16((k - 1) as nat) == pow16(k) / 16,
        pow16(k) == 16 * pow16((k - 1) as nat),
{
}

proof fn lemma_pow16_positive(k: nat)
    ensures
        pow16(k) >= 1,
    decreases k,
{
    if k > 0 {
        lemma_pow16_positive((k - 1) as nat);
    }
}

proof fn lemma_pow16_8()
    ensures
        pow16(8) == 0x1_0000_0000,
{
    reveal_with_fuel(pow16, 9);
}

proof fn lemma_hex_width_bounds(v: u32, w: nat)
    requires
        w <= 8,
    ensures
        w <= hex_width(v, w) <= 8,
    decreases 8 - w,
{
    if !(w >= 8 || (v as nat) < pow16(w)) {
        lemma_hex_width_bounds(v, w + 1);
    }
}

/// Appends `v` in lowercase hex, zero-padded to `w` digits.
fn push_hex(out: &mut String, v: u32, w: usize)
    requires
        w <= 8,
    ensures
        final(out)@ == old(out)@ + hex_padded(v, w as nat),
{
    let mut k = w;
    let mut p: u64 = 1;
    let mut j: usize = 0;
    while j < k
        invariant
            j <= k,
            k == w,
            w <= 8,
            p as nat == pow16(j as nat),
            p <= 0x1_0000_0000,
        decreases k - j,
    {
        proof {
            crate::symbol_map::lemma_pow16_mono((j + 1) as nat, 8);
            lemma_pow16_8();
        }
        p = p * 16;
        j = j + 1;
    }
    proof {
        lemma_hex_width_bounds(v, w as nat);
    }
    while k < 8 && (v as u64) >= p
        invariant
            w <= k <= 8,
            p as nat == pow16(k as nat),
            hex_width(v, k as nat) == hex_width(v, w as nat),
        decreases 8 - k,
    {
        proof {
            crate::symbol_map::lemma_pow16_mono((k + 1) as nat, 8);
            lemma_pow16_8();
        }
        p = p * 16;
        k = k + 1;
    }
    let ghost start = out@;
    let ghost target = hex_fixed(v as nat, k as nat);
    assert(hex_width(v, k as nat) == k);
    let mut i: usize = 0;
    proof {
        lemma_pow16_positive(k as nat);
    }
    while i < k
        invariant
            i <= k <= 8,
            p as nat == pow16((k - i) as nat),
            target == hex_fixed(v as nat, k as nat),
            out@ == start + target.take(i as int),
        decreases k - i,
    {
        proof {
            lemma_pow16_step((k - i) as nat);
            lemma_pow16_positive((k - i - 1) as nat);
        }
        p = p / 16;
        let d = ((v as u64) / p) % 16;
        let c = if d < 10 {
            (('0' as u8) + (d as u8)) as char
        } else {
            (('a' as u8) + (d as u8) - 10) as char
        };
        assert(c == hex_char(d as nat));
        push_char(out, c);
        proof {
            assert(target[i as int] == c);
            assert(target.take(i + 1) =~= target.take(i as int).push(c));
        }
        i = i + 1;
    }
    assert(target.take(k as int) =~= target);
}

/// The name a section is listed under.
pub fn section_display_name(section: &LinkedSection) -> (r: String)
    ensures
        r@ == display_name(section.section_name@, section.kind),
{
    let name = section.section_name.as_str();
    proof {
        reveal_strlit(".text.");
        assert(".text."@ =~= seq!['.', 't', 'e', 'x', 't', '.']);
    }
    if has_prefix(name, ".text.") && section.kind == SectionKind::TextSection {
        let n = name.unicode_len();
        let rest = name.substring_char(6, n);
        assert(rest@ =~= name@.skip(6));
        let d = demangle_rust(rest);
        let dn = d.as_str().unicode_len();
        if dn >= 19 && d.as_str().get_char(dn - 19) == ':' && d.as_str().get_char(dn - 18) == ':'
            && d.as_str().get_char(dn - 17) == 'h' {
            proof {
                assert(d@.subrange(dn - 19, dn - 16) =~= seq![':', ':', 'h']);
            }
            let kept = d.as_str().substring_char(0, dn - 19);
            proof {
                assert(kept@ =~= d@.take(dn - 19));
            }
            kept.to_owned()
        } else {
            proof {
                if d@.len() >= 19 && d@.subrange(d@.len() - 19, d@.len() - 16) == seq![':', ':', 'h'] {
                    assert(d@.subrange(dn - 19, dn - 16)[0] == d@[dn - 19]);
                    assert(d@.subrange(dn - 19, dn - 16)[1] == d@[dn - 18]);
                    assert(d@.subrange(dn - 19, dn - 16)[2] == d@[dn - 17]);
                }
            }
            d
        }
    } else {
        name.to_owned()
    }
}

/// Writes the map text: the header line, one line per section (length and
/// address in hex, counted from the symbol offset, then the listed name and
/// the member name) and, when the game's own map is given, two blank lines and
/// its lines.
pub fn write_map(sections: &[LinkedSection], game_map: Option<&str>) -> (r: String)
    ensures
        r@ == map_text(
            sections@,
            match game_map {
                Some(o) => Some(o@),
                None => None,
            },
        ),
{
    let mut out = String::new();
    proof {
        reveal_strlit(".text section layout\n");
        reveal_strlit("  00000000 ");
        reveal_strlit(" ");
        reveal_strlit("  4 ");
        reveal_strlit(" \t");
        reveal_strlit("\n");
        reveal_strlit("\n\n");
    }
    push_str(&mut out, ".text section layout\n");
    assert(out@ =~= map_header());
    let mut i: usize = 0;
    while i < sections.len()
        invariant
            i <= sections@.len(),
            out@ == map_header() + sections_text(sections@.take(i as int)),
        decreases sections@.len() - i,
    {
        let s = &sections[i];
        let ghost before = out@;
        push_str(&mut out, "  00000000 ");
        push_hex(&mut out, s.len.wrapping_sub(s.sym_offset), 6);
        push_str(&mut out, " ");
        push_hex(&mut out, s.address.wrapping_add(s.sym_offset), 8);
        push_str(&mut out, "  4 ");
        let name = section_display_name(s);
        push_str(&mut out, name.as_str());
        push_str(&mut out, " \t");
        push_str(&mut out, s.member_name.as_str());
        push_str(&mut out, "\n");
        proof {
            reveal_strlit("  00000000 ");
            reveal_strlit(" ");
            reveal_strlit("  4 ");
            reveal_strlit(" \t");
            reveal_strlit("\n");
            assert("  00000000 "@ =~= seq![' ', ' ', '0', '0', '0', '0', '0', '0', '0', '0', ' ']);
            assert(" "@ =~= seq![' ']);
            assert("  4 "@ =~= seq![' ', ' ', '4', ' ']);
            assert(" \t"@ =~= seq![' ', '\t']);
            assert("\n"@ =~= seq!['\n']);
            assert(out@ =~= before + section_line(*s));
            assert(sections@.take(i + 1).drop_last() =~= sections@.take(i as int));
            assert(sections@.take(i + 1).last() == *s);
        }
        i = i + 1;
    }
    assert(sections@.take(i as int) =~= sections@);
    if let Some(o) = game_map {
        push_str(&mut out, "\n\n");
        assert("\n\n"@ =~= seq!['\n', '\n']);
        let ghost base = out@;
        let lines = split_lines(o);
        let ghost views = crate::assembler::line_views(lines@);
        let mut j: usize = 0;
        assert(views.take(0) =~= seq![]);
        while j < lines.len()
            invariant
                j <= lines@.len(),
                views == crate::assembler::line_views(lines@),
                views.len() == lines@.len(),
                out@ == base + lines_text(views.take(j as int)),
            decreases lines@.len() - j,
        {
            push_str(&mut out, lines[j]);
            push_str(&mut out, "\n");
            proof {
                reveal_strlit("\n");
                assert("\n"@ =~= seq!['\n']);
                assert(views.take(j + 1).drop_last() =~= views.take(j as int));
                assert(views.take(j + 1).last() == lines@[j as int]@);
            }
            j = j + 1;
        }
        assert(views.take(j as int) =~= views);
        assert(out@ =~= map_header() + sections_text(sections@) + (seq!['\n', '\n'] + lines_text(
            lines_of(o@),
        )));
    } else {
        assert(out@ =~= map_header() + sections_text(sections@) + seq![]);
    }
    out
}

} // verus!
