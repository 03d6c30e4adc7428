use jmap_mail::filter::{EmailQueryFilter, Filter};
use jmap_mail::search_sexp::{parse_token, translate, SExpr};

#[test]
fn header_contains_from() {
    assert_eq!(
        translate(r#"(header-contains "From" "alice")"#),
        Some(Filter::condition(EmailQueryFilter::default().from("alice")))
    );
}

#[test]
fn header_contains_maps_each_well_known_header() {
    assert_eq!(
        translate(r#"(header-contains "To" "alice")"#),
        Some(Filter::condition(EmailQueryFilter::default().to("alice")))
    );
    assert_eq!(
        translate(r#"(header-contains "Cc" "alice")"#),
        Some(Filter::condition(EmailQueryFilter::default().cc("alice")))
    );
    assert_eq!(
        translate(r#"(header-contains "Bcc" "alice")"#),
        Some(Filter::condition(EmailQueryFilter::default().bcc("alice")))
    );
    assert_eq!(
        translate(r#"(header-contains "Subject" "hi")"#),
        Some(Filter::condition(EmailQueryFilter::default().subject("hi")))
    );
}

#[test]
fn header_contains_unknown_header_uses_generic_field() {
    assert_eq!(
        translate(r#"(header-contains "X-Spam-Flag" "YES")"#),
        Some(Filter::condition(
            EmailQueryFilter::default().header("X-Spam-Flag", "YES")
        ))
    );
}

#[test]
fn header_contains_any_header_is_untranslatable() {
    assert_eq!(translate(r#"(header-contains "" "alice")"#), None);
}

#[test]
fn body_contains() {
    assert_eq!(
        translate(r#"(body-contains "quarterly report")"#),
        Some(Filter::condition(
            EmailQueryFilter::default().body("quarterly report")
        ))
    );
}

#[test]
fn or_of_recipients_matches_searchtypes_recipients_rule() {
    assert_eq!(
        translate(r#"(or (header-contains "To" "x") (header-contains "Cc" "x"))"#),
        Some(Filter::or(vec![
            Filter::condition(EmailQueryFilter::default().to("x")),
            Filter::condition(EmailQueryFilter::default().cc("x")),
        ]))
    );
}

#[test]
fn and_of_subject_and_body() {
    assert_eq!(
        translate(r#"(and (header-contains "Subject" "s") (body-contains "b"))"#),
        Some(Filter::and(vec![
            Filter::condition(EmailQueryFilter::default().subject("s")),
            Filter::condition(EmailQueryFilter::default().body("b")),
        ]))
    );
}

#[test]
fn not_negates_its_one_child() {
    assert_eq!(
        translate(r#"(not (header-contains "From" "x"))"#),
        Some(Filter::not(vec![Filter::condition(
            EmailQueryFilter::default().from("x")
        )]))
    );
}

#[test]
fn match_all_wrapper_is_transparent() {
    assert_eq!(
        translate(r#"(match-all (header-contains "Subject" "s"))"#),
        Some(Filter::condition(EmailQueryFilter::default().subject("s")))
    );
}

#[test]
fn unsupported_function_is_untranslatable() {
    assert_eq!(translate(r#"(header-matches "From" "x")"#), None);
    assert_eq!(translate(r#"(system-flag "Deleted")"#), None);
}

#[test]
fn one_untranslatable_child_fails_the_whole_and() {
    assert_eq!(
        translate(r#"(and (header-contains "From" "x") (header-starts-with "Subject" "y"))"#),
        None
    );
}

#[test]
fn one_untranslatable_child_fails_the_whole_or() {
    assert_eq!(
        translate(r#"(or (header-contains "From" "x") (system-flag "Deleted"))"#),
        None
    );
}

#[test]
fn malformed_expression_is_untranslatable() {
    assert_eq!(translate(r#"(and (header-contains "From" "x")"#), None);
    assert_eq!(translate(r#"(header-contains "From" "unterminated)"#), None);
    assert_eq!(translate(""), None);
}

#[test]
fn trailing_garbage_is_untranslatable() {
    assert_eq!(
        translate(r#"(header-contains "From" "x") (body-contains "y")"#),
        None
    );
}

#[test]
fn whitespace_and_comments_around_the_expression_are_ignored() {
    assert_eq!(
        translate("  ; a comment\n (body-contains \"x\")  \n"),
        Some(Filter::condition(EmailQueryFilter::default().body("x")))
    );
}

#[test]
fn header_names_are_matched_without_regard_to_ascii_case() {
    assert_eq!(
        translate(r#"(header-contains "fROM" "alice")"#),
        Some(Filter::condition(EmailQueryFilter::default().from("alice")))
    );
}

#[test]
fn an_empty_and_or_or_is_an_empty_operator() {
    assert_eq!(translate("(and)"), Some(Filter::and(vec![])));
    assert_eq!(translate("(or)"), Some(Filter::or(vec![])));
}

#[test]
fn a_string_escape_keeps_the_escaped_character() {
    assert_eq!(
        translate(r#"(body-contains "say \"hi\"")"#),
        Some(Filter::condition(EmailQueryFilter::default().body("say \"hi\"")))
    );
}

#[test]
fn a_bare_token_ends_at_a_quote() {
    let s: Vec<char> = r#"ab"cd" e"#.chars().collect();
    let (token, end) = parse_token(&s, 0);
    match token {
        SExpr::Ident(text) => assert_eq!(text, vec!['a', 'b']),
        other => panic!("expected a bare token, got {other:?}"),
    }
    assert_eq!(end, 2);

    let s: Vec<char> = "x'y'".chars().collect();
    assert_eq!(parse_token(&s, 0).1, 1);
}

#[test]
fn a_function_name_followed_directly_by_its_string_is_read() {
    assert_eq!(
        translate(r#"(body-contains"alice")"#),
        Some(Filter::condition(EmailQueryFilter::default().body("alice")))
    );
}
