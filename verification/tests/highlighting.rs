//! Colours of script lines.
use akrs::highlight::{
    highlight_code, line_base_color, AkrsHighlightSettings, AkrsHighlighter, Piece,
};
use akrs::palette::{
    COLOR_CHOICE, COLOR_COMMAND, COLOR_COMMENT, COLOR_DEFAULT, COLOR_DIRECTION, COLOR_FLOW,
    COLOR_SECTION, COLOR_STRING, COLOR_VARIABLE,
};

#[test]
fn line_base_color_classification() {
    assert_eq!(line_base_color("# Title"), COLOR_SECTION);
    assert_eq!(line_base_color("=> Sub"), COLOR_FLOW);
    assert_eq!(line_base_color("<="), COLOR_FLOW);
    assert_eq!(line_base_color("@bg school"), COLOR_COMMAND);
    assert_eq!(line_base_color("+ Aki"), COLOR_DIRECTION);
    assert_eq!(line_base_color("- Aki"), COLOR_DIRECTION);
    assert_eq!(line_base_color("$x = 1"), COLOR_VARIABLE);
    assert_eq!(line_base_color("? \"q\""), COLOR_CHOICE);
    assert_eq!(line_base_color("| \"a\""), COLOR_CHOICE);
    assert_eq!(line_base_color("// comment"), COLOR_COMMENT);
    assert_eq!(line_base_color("ending \"id\""), COLOR_FLOW);
    assert_eq!(line_base_color("plain text"), COLOR_DEFAULT);
}

fn text_of(pieces: &[Piece]) -> String {
    let mut out = String::new();
    for p in pieces {
        out.push_str(&p.text);
    }
    out
}

#[test]
fn highlight_preserves_text() {
    for src in [
        "",
        "hello",
        "# Title\nAki: \"Hi\"\n// comment\n$x = 1\n",
        "多行\n中文 \"字\" 符\n",
    ] {
        let job = highlight_code(src, &[]);
        assert_eq!(text_of(&job), src, "mismatch for {:?}", src);
    }
}

fn check_cover(line: &str) {
    let h = AkrsHighlighter::new(&AkrsHighlightSettings);
    let mut at = 0;
    for s in &h.highlight_line(line) {
        assert_eq!(s.start, at);
        assert!(s.end > s.start);
        assert!(line.get(s.start..s.end).is_some());
        at = s.end;
    }
    assert_eq!(at, line.len());
}

#[test]
fn spans_cover_the_line_in_bytes() {
    let h = AkrsHighlighter::new(&AkrsHighlightSettings);
    let line = "秋: \"你好\" 好";
    check_cover(line);
    let spans = h.highlight_line(line);
    assert!(spans.iter().any(|s| s.color == COLOR_STRING && &line[s.start..s.end] == "\"你好\""));
    let noted = "秋: \"你好\" // 注";
    check_cover(noted);
    let spans = h.highlight_line(noted);
    assert_eq!(spans.len(), 2);
    assert_eq!(spans[1].color, COLOR_COMMENT);
    assert_eq!(&noted[spans[1].start..spans[1].end], "// 注");
    assert!(h.highlight_line("").is_empty());
}

#[test]
fn open_quotes_color_what_is_left() {
    let h = AkrsHighlighter::new(&AkrsHighlightSettings);
    let spans = h.highlight_line("ab \"cd");
    assert_eq!(spans.len(), 2);
    assert_eq!((spans[0].start, spans[0].end, spans[0].color), (0, 3, COLOR_DEFAULT));
    assert_eq!((spans[1].start, spans[1].end, spans[1].color), (0, 6, COLOR_STRING));
    let spans = h.highlight_line("\"a\" b \"c");
    assert_eq!(spans.len(), 3);
    assert_eq!((spans[0].start, spans[0].end, spans[0].color), (0, 3, COLOR_STRING));
    assert_eq!((spans[1].start, spans[1].end, spans[1].color), (3, 6, COLOR_DEFAULT));
    assert_eq!((spans[2].start, spans[2].end, spans[2].color), (3, 8, COLOR_STRING));
}

#[test]
fn the_highlighter_keeps_its_line() {
    let mut h = AkrsHighlighter::new(&AkrsHighlightSettings);
    assert_eq!(h.current_line(), 0);
    h.change_line(7);
    h.update(&AkrsHighlightSettings);
    assert_eq!(h.current_line(), 7);
}

#[test]
fn marked_pairs_are_shown() {
    let pieces = highlight_code("=> A\n<=\n", &[(0, 2), (5, 7)]);
    let marked: Vec<&str> =
        pieces.iter().filter(|p| p.marked).map(|p| p.text.as_str()).collect();
    assert_eq!(marked.concat(), "=><=");
    assert_eq!(text_of(&pieces), "=> A\n<=\n");
}
