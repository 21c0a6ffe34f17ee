use comment_strip::CommentMatch;
use comment_strip::RemovalError;
use comment_strip::remove::remove;

#[test]
fn removes_exactly_the_spanned_characters() {
    let input = String::from("hello world");
    let spans = vec![CommentMatch { from: 5, to: 11 }];
    let actual = remove(input, spans);
    assert_eq!(actual, Ok(String::from("hello")));
}

#[test]
fn removes_several_spans_keeping_the_rest_in_order() {
    let input = String::from("abcdefghij");
    let spans = vec![
        CommentMatch { from: 1, to: 3 },
        CommentMatch { from: 5, to: 6 },
        CommentMatch { from: 8, to: 10 },
    ];
    let actual = remove(input, spans);
    assert_eq!(actual, Ok(String::from("adegh")));
}

#[test]
fn accepts_spans_in_any_order() {
    let input = String::from("abcde");
    let spans = vec![
        CommentMatch { from: 4, to: 5 },
        CommentMatch { from: 0, to: 1 },
    ];
    let actual = remove(input, spans);
    assert_eq!(actual, Ok(String::from("bcd")));
}

#[test]
fn zero_spans_return_the_input_unchanged() {
    let input = String::from("nothing to do here\n");
    let actual = remove(input, Vec::new());
    assert_eq!(actual, Ok(String::from("nothing to do here\n")));
}

#[test]
fn touching_spans_are_not_overlapping() {
    let input = String::from("abcdef");
    let spans = vec![
        CommentMatch { from: 1, to: 3 },
        CommentMatch { from: 3, to: 5 },
    ];
    let actual = remove(input, spans);
    assert_eq!(actual, Ok(String::from("af")));
}

#[test]
fn span_past_the_end_is_out_of_range() {
    let input = String::from("abc");
    let spans = vec![CommentMatch { from: 0, to: 7 }];
    let actual = remove(input, spans);
    assert_eq!(actual, Err(RemovalError::OutOfRange));
}

#[test]
fn overlapping_spans_are_rejected() {
    let input = String::from("abcdef");
    let spans = vec![
        CommentMatch { from: 0, to: 3 },
        CommentMatch { from: 2, to: 4 },
    ];
    let actual = remove(input, spans);
    assert_eq!(actual, Err(RemovalError::Overlapping));
}

#[test]
fn out_of_range_wins_over_overlap() {
    let input = String::from("abc");
    let spans = vec![
        CommentMatch { from: 0, to: 3 },
        CommentMatch { from: 2, to: 10 },
    ];
    let actual = remove(input, spans);
    assert_eq!(actual, Err(RemovalError::OutOfRange));
}

#[test]
fn multibyte_characters_count_as_single_positions() {
    let input = String::from("a\u{e9}b\u{e9}c");
    let spans = vec![CommentMatch { from: 1, to: 2 }];
    let actual = remove(input, spans);
    assert_eq!(actual, Ok(String::from("ab\u{e9}c")));
}
