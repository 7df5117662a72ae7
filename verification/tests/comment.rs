use zinc::lexical::comment::parse;
use zinc::lexical::comment::Comment;
use zinc::lexical::comment::Error;

#[test]
fn ok_single_line_with_break() {
    let input = "//mega ultra comment text\n";
    let expected = Ok((
        25,
        0,
        26,
        Comment::new("mega ultra comment text".to_owned()),
    ));
    let result = parse(input);
    assert_eq!(result, expected);
}

#[test]
fn ok_single_line_with_eof() {
    let input = "//mega ultra comment text";
    let expected = Ok((
        25,
        0,
        26,
        Comment::new("mega ultra comment text".to_owned()),
    ));
    let result = parse(input);
    assert_eq!(result, expected);
}

#[test]
fn ok_multi_line() {
    let input = r#"/*
    This is the mega ultra test application!
*/"#;
    let expected = Ok((
        50,
        2,
        3,
        Comment::new("\n    This is the mega ultra test application!\n".to_owned()),
    ));
    let result = parse(input);
    assert_eq!(result, expected);
}

#[test]
fn err_multi_line_unexpected_end() {
    let input = r#"/* This is the mega ultra test application!"#;
    let expected = Err(Error::UnexpectedEnd);
    let result = parse(input);
    assert_eq!(result, expected);
}

#[test]
fn err_not_a_comment() {
    let input = "not a comment text";
    let expected = Err(Error::NotAComment);
    let result = parse(input);
    assert_eq!(result, expected);
}

#[test]
fn err_not_a_comment_one_slash() {
    let input = "/almost a comment text";
    let expected = Err(Error::NotAComment);
    let result = parse(input);
    assert_eq!(result, expected);
}

#[test]
fn err_empty_input_unexpected_end() {
    assert_eq!(parse(""), Err(Error::UnexpectedEnd));
    assert_eq!(parse("/"), Err(Error::UnexpectedEnd));
}

#[test]
fn ok_multi_line_with_stars() {
    let result = parse("/***/ rest");
    assert_eq!(result, Ok((5, 0, 6, Comment::new("*".to_owned()))));
    let result = parse("/**/");
    assert_eq!(result, Ok((4, 0, 5, Comment::new(String::new()))));
}

#[test]
fn ok_multi_line_break_after_star() {
    let result = parse("/* a *\n b */x");
    assert_eq!(result, Ok((12, 1, 6, Comment::new(" a *\n b ".to_owned()))));
}

#[test]
fn ok_multi_line_with_non_ascii_text() {
    let result = parse("/*é*/");
    assert_eq!(result, Ok((5, 0, 6, Comment::new("é".to_owned()))));
}

#[test]
fn ok_single_line_stops_before_break() {
    let result = parse("//a\n//b\n");
    assert_eq!(result, Ok((3, 0, 4, Comment::new("a".to_owned()))));
}
