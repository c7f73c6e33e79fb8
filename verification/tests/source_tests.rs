use phtm::source::Source;

#[test]
pub fn read_code_removes_comments() {
    let sp_code = "# The spatial pooler\n\
                   # Initialization\n\
                   BP0\n\
                   ( NUM_COLUMNS INTEGER.DEFINE )\n\
                   ( POTENTIAL_PCT FLOAT.DEFINE ) # potential percentage\n\
                   BP1\n\
                   ( COLUMN_IDS INTVECTOR.DEFINE )\n"
        .to_string();
    let sp_sources = Source::read_debug_code(sp_code);
    assert!(!sp_sources.contains("#"));
}

#[test]
fn read_code_drops_marker_lines_and_debug_keeps_them() {
    let code = "# comment\nBP0\nA B\nBP1\nC\n";
    assert_eq!(Source::read_code(code.to_string()), "A B C ");
    assert_eq!(Source::read_debug_code(code.to_string()), "BP0 A B BP1 C ");
}

#[test]
fn read_code_strips_trailing_comments_and_tabs() {
    let code = "A\tB # trailing words\nC\n";
    assert_eq!(Source::read_code(code.to_string()), "AB  C ");
    assert_eq!(Source::read_code("a\tb\n".to_string()), "ab ");
}

#[test]
fn read_code_handles_crlf_and_missing_final_newline() {
    assert_eq!(Source::read_code("a\r\nb".to_string()), "a b ");
    assert_eq!(Source::read_code("".to_string()), "");
    assert_eq!(Source::read_code("\n\n".to_string()), "  ");
}

#[test]
fn remove_suffix_cuts_at_first_occurrence() {
    assert_eq!(Source::remove_suffix("abc#def", "#"), "abc");
    assert_eq!(Source::remove_suffix("abc", "#"), "abc");
    assert_eq!(Source::remove_suffix("a#b#c", "#"), "a");
    assert_eq!(Source::remove_suffix("x <- y <- z", " <- "), "x");
    assert_eq!(Source::remove_suffix("", "#"), "");
}
