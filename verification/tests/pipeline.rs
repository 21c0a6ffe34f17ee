use comment_strip::CommentMatch;
use comment_strip::CommentStyle;
use comment_strip::scan;
use comment_strip::scan_blank_lines;
use comment_strip::strip_comments;

#[test]
fn strips_shell_comments() {
    let input = String::from("yes # c\n\nno\n");
    let actual = strip_comments(input, CommentStyle::Shell, false);
    assert_eq!(actual, Ok(String::from("yes \n\nno\n")));
}

#[test]
fn strips_shell_comments_and_blank_lines() {
    let input = String::from("yes # c\n\nno\n");
    let actual = strip_comments(input, CommentStyle::Shell, true);
    assert_eq!(actual, Ok(String::from("yes \nno\n")));
}

#[test]
fn strips_c_comments() {
    let input = String::from("int x; // note\ny /* a */ z\n");
    let actual = strip_comments(input, CommentStyle::C, false);
    assert_eq!(actual, Ok(String::from("int x; \ny  z\n")));
}

#[test]
fn strips_xml_comments() {
    let input = String::from("<a><!-- hi --></a>\n");
    let actual = strip_comments(input, CommentStyle::Xml, false);
    assert_eq!(actual, Ok(String::from("<a></a>\n")));
}

#[test]
fn text_without_comments_or_blank_lines_comes_back_unchanged() {
    let input = String::from("yes\n no\nmore\n");
    let actual = strip_comments(input, CommentStyle::Shell, true);
    assert_eq!(actual, Ok(String::from("yes\n no\nmore\n")));
}

#[test]
fn shebang_line_survives_a_full_strip() {
    let input = String::from("#!/bin/bash\nyes\n");
    let actual = strip_comments(input, CommentStyle::Shell, true);
    assert_eq!(actual, Ok(String::from("#!/bin/bash\nyes\n")));
}

#[test]
fn scan_dispatches_by_style() {
    let shell = scan("yes # c\n", CommentStyle::Shell);
    assert_eq!(shell, Ok(vec![CommentMatch { from: 4, to: 7 }]));
    let c = scan("yes # c\n", CommentStyle::C);
    assert_eq!(c, Ok(Vec::new()));
    let xml = scan("<!-- c -->", CommentStyle::Xml);
    assert_eq!(xml, Ok(vec![CommentMatch { from: 0, to: 10 }]));
}

#[test]
fn scan_blank_lines_sees_whitespace_only_lines() {
    let spans = scan_blank_lines("a\n \t\nb\n");
    assert_eq!(spans, Ok(vec![CommentMatch { from: 2, to: 5 }]));
}

#[test]
fn blank_line_pass_only_runs_when_asked() {
    let kept = strip_comments(String::from("a\n\n"), CommentStyle::Shell, false);
    assert_eq!(kept, Ok(String::from("a\n\n")));
    let collapsed = strip_comments(String::from("a\n\n"), CommentStyle::Shell, true);
    assert_eq!(collapsed, Ok(String::from("a\n")));
}

#[test]
fn leading_hash_strip_spares_the_next_line() {
    let input = String::from("#\nyes\n");
    let actual = strip_comments(input, CommentStyle::Shell, false);
    assert_eq!(actual, Ok(String::from("\nyes\n")));
}
