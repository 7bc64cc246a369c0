use akrs::flow::{compute_flow_pairs, mark_at_cursor, scan_flow_marks, FlowKind};

#[test]
fn flow_flow_marks_scan_visit_and_return() {
    let src = "# Main\nAki: \"Hi\"\n=> Sub\nAki: \"in sub\"\n<=\nAki: \"back\"\n";
    let marks = scan_flow_marks(src);
    assert_eq!(marks.len(), 2);
    assert_eq!(marks[0].kind, FlowKind::Visit);
    assert_eq!(marks[0].target.as_deref(), Some("Sub"));
    assert_eq!(marks[0].line, 2);
    assert_eq!(marks[1].kind, FlowKind::Return);
    assert_eq!(marks[1].target, None);
    assert_eq!(marks[1].line, 4);
    assert_eq!(marks[0].char_start, 17);
    assert_eq!(marks[0].char_end, 19);
}

#[test]
fn flow_flow_marks_ignore_expression_leq() {
    let src = "$x = 1\nif a <= b then\n  Aki: \"ok\"\nend\n";
    let marks = scan_flow_marks(src);
    assert!(marks.is_empty(), "表达式中的 <= 不应被识别为返回标记");
}

#[test]
fn flow_flow_marks_leading_whitespace() {
    let src = "  => Sub\n  <=\n";
    let marks = scan_flow_marks(src);
    assert_eq!(marks.len(), 2);
    assert_eq!(marks[0].char_start, 2);
    assert_eq!(marks[0].char_end, 4);
}

#[test]
fn flow_flow_pairs_basic() {
    let src = "=> A\n<=\n=> B\n<=\n";
    let marks = scan_flow_marks(src);
    let pairs = compute_flow_pairs(&marks);
    assert_eq!(pairs, vec![Some(1), Some(0), Some(3), Some(2)]);
}

#[test]
fn flow_flow_pairs_nested() {
    let src = "=> Outer\n=> Inner\n<=\n<=\n";
    let marks = scan_flow_marks(src);
    let pairs = compute_flow_pairs(&marks);
    assert_eq!(pairs[0], Some(3));
    assert_eq!(pairs[1], Some(2));
    assert_eq!(pairs[2], Some(1));
    assert_eq!(pairs[3], Some(0));
}

#[test]
fn flow_flow_pairs_unbalanced() {
    let src = "<=\n=> A\n<=\n=> B\n";
    let marks = scan_flow_marks(src);
    let pairs = compute_flow_pairs(&marks);
    assert_eq!(pairs[0], None);
    assert_eq!(pairs[1], Some(2));
    assert_eq!(pairs[2], Some(1));
    assert_eq!(pairs[3], None);
}

#[test]
fn flow_flow_mark_at_cursor() {
    let src = "=> Sub\n<=\n";
    let marks = scan_flow_marks(src);
    assert_eq!(mark_at_cursor(&marks, 0), Some(0));
    assert_eq!(mark_at_cursor(&marks, 1), Some(0));
    assert_eq!(mark_at_cursor(&marks, 2), Some(0));
    assert_eq!(mark_at_cursor(&marks, 3), None);
    assert_eq!(mark_at_cursor(&marks, 8), Some(1));
    assert_eq!(mark_at_cursor(&marks, 9), Some(1));
}

#[test]
fn lib_flow_marks_scan_visit_and_return() {
    let src = "# Main\nAki: \"Hi\"\n=> Sub\nAki: \"in sub\"\n<=\nAki: \"back\"\n";
    let marks = scan_flow_marks(src);
    assert_eq!(marks.len(), 2);
    assert_eq!(marks[0].kind, FlowKind::Visit);
    assert_eq!(marks[0].target.as_deref(), Some("Sub"));
    assert_eq!(marks[0].line, 2);
    assert_eq!(marks[1].kind, FlowKind::Return);
    assert_eq!(marks[1].target, None);
    assert_eq!(marks[1].line, 4);
    assert_eq!(marks[0].char_start, 17);
    assert_eq!(marks[0].char_end, 19);
}

#[test]
fn lib_flow_marks_ignore_expression_leq() {
    let src = "$x = 1\nif a <= b then\n  Aki: \"ok\"\nend\n";
    let marks = scan_flow_marks(src);
    assert!(marks.is_empty(), "表达式中的 <= 不应被识别为返回标记");
}

#[test]
fn lib_flow_marks_leading_whitespace() {
    let src = "  => Sub\n  <=\n";
    let marks = scan_flow_marks(src);
    assert_eq!(marks.len(), 2);
    assert_eq!(marks[0].char_start, 2);
    assert_eq!(marks[0].char_end, 4);
}

#[test]
fn lib_flow_pairs_basic() {
    let src = "=> A\n<=\n=> B\n<=\n";
    let marks = scan_flow_marks(src);
    let pairs = compute_flow_pairs(&marks);
    assert_eq!(pairs, vec![Some(1), Some(0), Some(3), Some(2)]);
}

#[test]
fn lib_flow_pairs_nested() {
    let src = "=> Outer\n=> Inner\n<=\n<=\n";
    let marks = scan_flow_marks(src);
    let pairs = compute_flow_pairs(&marks);
    assert_eq!(pairs[0], Some(3));
    assert_eq!(pairs[1], Some(2));
    assert_eq!(pairs[2], Some(1));
    assert_eq!(pairs[3], Some(0));
}

#[test]
fn lib_flow_pairs_unbalanced() {
    let src = "<=\n=> A\n<=\n=> B\n";
    let marks = scan_flow_marks(src);
    let pairs = compute_flow_pairs(&marks);
    assert_eq!(pairs[0], None);
    assert_eq!(pairs[1], Some(2));
    assert_eq!(pairs[2], Some(1));
    assert_eq!(pairs[3], None);
}

#[test]
fn lib_flow_mark_at_cursor() {
    let src = "=> Sub\n<=\n";
    let marks = scan_flow_marks(src);
    assert_eq!(mark_at_cursor(&marks, 0), Some(0));
    assert_eq!(mark_at_cursor(&marks, 1), Some(0));
    assert_eq!(mark_at_cursor(&marks, 2), Some(0));
    assert_eq!(mark_at_cursor(&marks, 3), None);
    assert_eq!(mark_at_cursor(&marks, 8), Some(1));
    assert_eq!(mark_at_cursor(&marks, 9), Some(1));
}

#[test]
fn mark_without_target() {
    let marks = scan_flow_marks("=>\n=>   \n\t=> a b \r\n");
    assert_eq!(marks.len(), 3);
    assert_eq!(marks[0].target, None);
    assert_eq!(marks[1].target, None);
    assert_eq!(marks[2].target.as_deref(), Some("a b"));
    assert_eq!(marks[2].char_start, 10);
    assert_eq!(marks[2].line, 2);
}

#[test]
fn pairs_are_mutual_and_nest() {
    let marks = scan_flow_marks("<=\n=> A\n=> B\n<=\n=> C\n<=\n<=\n<=\n=> D\n");
    let pairs = compute_flow_pairs(&marks);
    assert_eq!(
        pairs,
        vec![None, Some(6), Some(3), Some(2), Some(5), Some(4), Some(1), None, None]
    );
    for (i, p) in pairs.iter().enumerate() {
        if let Some(j) = p {
            assert_eq!(pairs[*j], Some(i));
        }
    }
}

#[test]
fn cursor_after_wide_characters() {
    let marks = scan_flow_marks("心夏\n=> 场景\n");
    assert_eq!(marks[0].char_start, 3);
    assert_eq!(mark_at_cursor(&marks, 2), None);
    assert_eq!(mark_at_cursor(&marks, 5), Some(0));
    assert_eq!(mark_at_cursor(&marks, 6), None);
}
