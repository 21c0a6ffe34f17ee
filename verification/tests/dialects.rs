use comment_strip::CommentMatch;

#[test]
fn c_line_and_block_comments() {
    let input = "int x; // note\ny /* a */ z\n";
    let expected = Ok(vec![
        CommentMatch { from: 7, to: 14 },
        CommentMatch { from: 17, to: 24 },
    ]);
    let actual = comment_strip::c::find_comments(input);
    assert_eq!(expected, actual);
}

#[test]
fn c_no_comment_in_string() {
    let input = "s = \"a // b\"; // real\n";
    let expected = Ok(vec![CommentMatch { from: 14, to: 21 }]);
    let actual = comment_strip::c::find_comments(input);
    assert_eq!(expected, actual);
}

#[test]
fn c_lone_slash_is_no_comment() {
    let input = "a / b\n";
    let expected = Ok(Vec::new());
    let actual = comment_strip::c::find_comments(input);
    assert_eq!(expected, actual);
}

#[test]
fn c_block_comment_closed_at_end_of_input() {
    let input = "a /* b";
    let expected = Ok(vec![CommentMatch { from: 2, to: 6 }]);
    let actual = comment_strip::c::find_comments(input);
    assert_eq!(expected, actual);
}

#[test]
fn xml_comment_includes_closing_delimiter() {
    let input = "<a><!-- hi --></a>\n";
    let expected = Ok(vec![CommentMatch { from: 3, to: 14 }]);
    let actual = comment_strip::xml::find_comments(input);
    assert_eq!(expected, actual);
}

#[test]
fn xml_no_comment_in_string() {
    let input = "q '<!-- n -->' <!-- y -->";
    let expected = Ok(vec![CommentMatch { from: 15, to: 25 }]);
    let actual = comment_strip::xml::find_comments(input);
    assert_eq!(expected, actual);
}

#[test]
fn xml_comment_closed_at_end_of_input() {
    let input = "x <!-- y";
    let expected = Ok(vec![CommentMatch { from: 2, to: 8 }]);
    let actual = comment_strip::xml::find_comments(input);
    assert_eq!(expected, actual);
}

#[test]
fn xml_plain_markup_is_no_comment() {
    let input = "<a>text</a>\n";
    let expected = Ok(Vec::new());
    let actual = comment_strip::xml::find_comments(input);
    assert_eq!(expected, actual);
}

#[test]
fn blank_lines_each_get_their_own_span() {
    let input = "a\n\n  \nb\n";
    let expected = Ok(vec![
        CommentMatch { from: 2, to: 3 },
        CommentMatch { from: 3, to: 6 },
    ]);
    let actual = comment_strip::blank::find_blank_lines(input);
    assert_eq!(expected, actual);
}

#[test]
fn blank_final_line_without_newline() {
    let input = "x\n   ";
    let expected = Ok(vec![CommentMatch { from: 2, to: 5 }]);
    let actual = comment_strip::blank::find_blank_lines(input);
    assert_eq!(expected, actual);
}

#[test]
fn no_blank_lines_no_spans() {
    let input = "a\n b\nc";
    let expected = Ok(Vec::new());
    let actual = comment_strip::blank::find_blank_lines(input);
    assert_eq!(expected, actual);
}

#[test]
fn c_line_comment_closed_at_end_of_input() {
    let input = "k // x";
    let expected = Ok(vec![CommentMatch { from: 2, to: 6 }]);
    let actual = comment_strip::c::find_comments(input);
    assert_eq!(expected, actual);
}

#[test]
fn xml_extra_dashes_stay_inside_the_comment() {
    let input = "<!-- a ---->";
    let expected = Ok(vec![CommentMatch { from: 0, to: 12 }]);
    let actual = comment_strip::xml::find_comments(input);
    assert_eq!(expected, actual);
}

#[test]
fn shell_positions_count_characters_not_bytes() {
    let input = "\u{e9} # \u{e7}\n";
    let expected = Ok(vec![CommentMatch { from: 2, to: 5 }]);
    let actual = comment_strip::shell::find_comments(input);
    assert_eq!(expected, actual);
}
