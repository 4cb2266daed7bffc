use geckolib::map_layout::{section_display_name, write_map, LinkedSection, SectionKind};
use geckolib::symbol_map::{parse, parse_hex_field, parse_record, split_lines, MapError};

const SAMPLE: &str = ".text section layout\n  00000000 000010 80003100  4 main \tmain.o\n  00000000 000004 80003200  4 .text \tfoo.o\n  00000000 000008 8000abcd  4 helper \tutil.o\r\nnot a record\n";

#[test]
fn parse_reads_named_records() {
    let table = parse(SAMPLE).unwrap();
    assert_eq!(table.len(), 2);
    assert_eq!(table.get("main"), Some(0x8000_3100));
    assert_eq!(table.get("helper"), Some(0x8000_ABCD));
    assert_eq!(table.get(".text"), None);
}

#[test]
fn parse_rejects_non_hex_address() {
    let text = "  00000000 000010 8000zz00  4 main \tmain.o\n";
    assert_eq!(parse(text).err(), Some(MapError::InvalidAddress));
}

#[test]
fn parse_of_empty_text_is_empty() {
    assert_eq!(parse("").unwrap().len(), 0);
}

#[test]
fn later_records_replace_earlier_ones() {
    let text = "  00000000 000010 00000001  4 f \ta.o\n  00000000 000010 00000002  4 f \tb.o\n";
    assert_eq!(parse(text).unwrap().get("f"), Some(2));
}

#[test]
fn record_fields() {
    assert_eq!(
        parse_record("  00000000 000010 80003100  4 main \tmain.o"),
        Some(("main", "80003100"))
    );
    assert_eq!(parse_record("  00000000 000010 80003100  4 main"), None);
    assert_eq!(parse_record("short"), None);
    assert_eq!(
        parse_record("  0000000\u{e9} 000010 80003100  4 main \tmain.o"),
        Some(("main", "80003100"))
    );
    assert_eq!(parse_record("  0000000- 000010 80003100  4 main \tmain.o"), None);
}

#[test]
fn hex_fields() {
    assert_eq!(parse_hex_field("8000abcd"), Some(0x8000_ABCD));
    assert_eq!(parse_hex_field("FFFFFFFF"), Some(0xFFFF_FFFF));
    assert_eq!(parse_hex_field("12g4"), None);
}

#[test]
fn lines_split_like_std() {
    assert_eq!(split_lines("a\r\nb\n"), vec!["a", "b"]);
    assert_eq!(split_lines("a\n\nb"), vec!["a", "", "b"]);
    assert_eq!(split_lines("x\r"), vec!["x\r"]);
    assert!(split_lines("").is_empty());
}

fn section(name: &str, member: &str, address: u32, len: u32, sym_offset: u32, kind: SectionKind) -> LinkedSection {
    LinkedSection {
        section_name: name.to_string(),
        member_name: member.to_string(),
        address,
        len,
        sym_offset,
        kind,
    }
}

#[test]
fn map_lines_are_fixed_width() {
    let s = [section(".data", "lib.o", 0x8040_0000, 0x20, 0, SectionKind::DataSection)];
    assert_eq!(
        write_map(&s, None),
        ".text section layout\n  00000000 000020 80400000  4 .data \tlib.o\n"
    );
}

#[test]
fn map_counts_from_symbol_offset() {
    let s = [section(".text.init", "lib.o", 0x8040_1000, 0x40, 0x10, SectionKind::TextSection)];
    assert_eq!(
        write_map(&s, None),
        ".text section layout\n  00000000 000030 80401010  4 init \tlib.o\n"
    );
}

#[test]
fn wide_lengths_are_not_truncated() {
    let s = [section("big", "m.o", 0, 0x123_4567, 0, SectionKind::Other)];
    assert_eq!(
        write_map(&s, None),
        ".text section layout\n  00000000 1234567 00000000  4 big \tm.o\n"
    );
}

#[test]
fn text_sections_are_demangled_without_hash() {
    let s = section(
        ".text._ZN4core3fmt5write17h0123456789abcdefE",
        "core.o",
        0,
        4,
        0,
        SectionKind::TextSection,
    );
    assert_eq!(section_display_name(&s), "core::fmt::write");
    let data = section(".text._ZN4core3fmt5write17h0123456789abcdefE", "core.o", 0, 4, 0, SectionKind::DataSection);
    assert_eq!(section_display_name(&data), ".text._ZN4core3fmt5write17h0123456789abcdefE");
}

#[test]
fn game_map_follows_after_two_blank_lines() {
    assert_eq!(write_map(&[], Some("x\r\ny")), ".text section layout\n\n\nx\ny\n");
}
