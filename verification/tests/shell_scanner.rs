use comment_strip::CommentMatch;
use comment_strip::shell::find_comments;

#[test]
fn no_comment_present() {
    let input = "yes\n yes no\n";
    let expected = Ok(Vec::new());
    let actual = find_comments(input);
    assert_eq!(expected, actual);
}

#[test]
fn no_comment_but_shebang() {
    let input = "#!/bin/bash\nyes\n yes no\n";
    let expected = Ok(Vec::new());
    let actual = find_comments(input);
    assert_eq!(expected, actual);
}

#[test]
fn normal_comment() {
    let input = "yes # line comment\n yes no\n";
    let expected = Ok(vec![CommentMatch { from: 4, to: 18 }]);
    let actual = find_comments(input);
    assert_eq!(expected, actual);
}

#[test]
fn multiple_comments() {
    let input = "yes # line comment\n# another comment with \"string\"\n yes no\n";
    let expected = Ok(vec![
        CommentMatch { from: 4, to: 18 },
        CommentMatch { from: 19, to: 50 },
    ]);
    let actual = find_comments(input);
    assert_eq!(expected, actual);
}

#[test]
fn comment_in_shebang() {
    let input = "#!/bin/bash #shebang\nyes\n";
    let expected = Ok(vec![CommentMatch { from: 12, to: 20 }]);
    let actual = find_comments(input);
    assert_eq!(expected, actual);
}

#[test]
fn no_final_newline() {
    let input = "yes #test";
    let expected = Ok(vec![CommentMatch { from: 4, to: 9 }]);
    let actual = find_comments(input);
    assert_eq!(expected, actual);
}

#[test]
fn no_comment_in_string() {
    let input = "yes 'string\"inner string\"' #test\n";
    let expected = Ok(vec![CommentMatch { from: 27, to: 32 }]);
    let actual = find_comments(input);
    assert_eq!(expected, actual);
}

#[test]
fn leading_hash_comment_ends_at_its_newline() {
    let input = "#\nyes\n";
    let expected = Ok(vec![CommentMatch { from: 0, to: 1 }]);
    let actual = find_comments(input);
    assert_eq!(expected, actual);
}

#[test]
fn bare_hash_alone_is_discarded() {
    let input = "#";
    let expected = Ok(Vec::new());
    let actual = find_comments(input);
    assert_eq!(expected, actual);
}
