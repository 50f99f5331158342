use edit_core::document::Document;
use edit_core::{PathBuffer, ReadableDocument, WriteableDocument};

const SAMPLE: &str = "h\u{e9}llo \u{1F980}!";

fn check_reads<D: ReadableDocument>(d: &D, all: &[u8]) {
    let n = all.len();
    // At or past the end: nothing forward, everything backward.
    assert_eq!(d.read_forward(n), b"");
    assert_eq!(d.read_forward(n + 7), b"");
    assert_eq!(d.read_backward(n), all);
    assert_eq!(d.read_backward(usize::MAX), all);
    // At the start: everything forward, nothing backward.
    assert_eq!(d.read_forward(0), all);
    assert_eq!(d.read_backward(0), b"");
    // Offsets inside a character never split it.
    for off in 0..=n {
        let f = d.read_forward(off);
        let b = d.read_backward(off);
        assert!(std::str::from_utf8(f).is_ok(), "forward split at {}", off);
        assert!(std::str::from_utf8(b).is_ok(), "backward split at {}", off);
        if off < n {
            assert!(!f.is_empty());
        }
        if off > 0 {
            assert!(!b.is_empty());
        }
    }
}

#[test]
fn reads_are_clamped_and_keep_characters_whole() {
    let s = SAMPLE.to_string();
    check_reads(&s, SAMPLE.as_bytes());
    let raw: &[u8] = SAMPLE.as_bytes();
    check_reads(&raw, SAMPLE.as_bytes());
    let p = PathBuffer::new(SAMPLE.to_string());
    check_reads(&p, SAMPLE.as_bytes());
    let d = Document::from_string(SAMPLE.to_string(), "notes.txt");
    check_reads(&d, SAMPLE.as_bytes());
}

#[test]
fn read_inside_two_byte_character_moves_to_its_edges() {
    let s = SAMPLE.to_string();
    // byte 1 starts "é" (two bytes), byte 2 is inside it
    assert_eq!(s.read_forward(2), "\u{e9}llo \u{1F980}!".as_bytes());
    assert_eq!(s.read_backward(2), "h\u{e9}".as_bytes());
}

#[test]
fn read_inside_four_byte_character_moves_to_its_edges() {
    let s = SAMPLE.to_string();
    // the crab starts at byte 7 and spans four bytes
    assert_eq!(s.read_forward(9), "\u{1F980}!".as_bytes());
    assert_eq!(s.read_backward(9), "h\u{e9}llo \u{1F980}".as_bytes());
}

fn check_replace<D: WriteableDocument>(mut d: D, text: impl Fn(&D) -> String) {
    d.replace(0..1, b"J");
    assert_eq!(text(&d), "J\u{e9}llo \u{1F980}!");
    d.replace(3..5, b"");
    assert_eq!(text(&d), "J\u{e9}o \u{1F980}!");
    // invalid bytes are replaced by U+FFFD
    d.replace(0..0, &[0xff, b'a', 0xc3]);
    assert_eq!(text(&d), "\u{FFFD}a\u{FFFD}J\u{e9}o \u{1F980}!");
    // out-of-range ranges are clamped
    d.replace(100..200, b"?");
    assert!(text(&d).ends_with("!?"));
    // an end before the start inserts at the start
    d.replace(3..1, b"-");
    assert!(text(&d).starts_with("\u{FFFD}-a"));
}

#[test]
fn replace_sanitizes_and_clamps_on_every_backend() {
    check_replace(SAMPLE.to_string(), |s: &String| s.clone());
    check_replace(PathBuffer::new(SAMPLE.to_string()), |p: &PathBuffer| p.as_str().to_string());
    check_replace(Document::from_string(SAMPLE.to_string(), "a.txt"), |d: &Document| {
        String::from_utf8(d.read_forward(0).to_vec()).unwrap()
    });
}

#[test]
fn replace_with_only_invalid_bytes_leaves_valid_text() {
    let mut s = String::from("ab");
    s.replace(1..1, &[0x80, 0x80, 0xfe]);
    assert!(std::str::from_utf8(s.read_forward(0)).is_ok());
    assert_eq!(s, "a\u{FFFD}\u{FFFD}\u{FFFD}b");
}

#[test]
fn path_buffer_renames_in_place() {
    let mut p = PathBuffer::new("src/main.rs".to_string());
    p.replace(4..8, b"lib");
    assert_eq!(p.as_str(), "src/lib.rs");
}
