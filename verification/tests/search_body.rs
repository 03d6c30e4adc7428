use jmap_mail::filter::{EmailQueryFilter, Filter};
use jmap_mail::search_body::body_filter;

fn words(words: &[&str]) -> Vec<String> {
    words.iter().map(|word| (*word).to_owned()).collect()
}

#[test]
fn no_words_is_nothing_to_ask() {
    assert_eq!(body_filter(&[]), None);
}

#[test]
fn one_word_is_one_condition() {
    assert_eq!(
        body_filter(&words(&["quarterly"])),
        Some(Filter::condition(
            EmailQueryFilter::default().body("quarterly")
        ))
    );
}

#[test]
fn several_words_all_have_to_match() {
    assert_eq!(
        body_filter(&words(&["quarterly", "report"])),
        Some(Filter::and(vec![
            Filter::condition(EmailQueryFilter::default().body("quarterly")),
            Filter::condition(EmailQueryFilter::default().body("report")),
        ]))
    );
}

#[test]
fn an_empty_word_is_dropped_rather_than_asked_about() {
    assert_eq!(
        body_filter(&words(&["", "report"])),
        Some(Filter::condition(
            EmailQueryFilter::default().body("report")
        ))
    );
    assert_eq!(body_filter(&words(&["", ""])), None);
}

#[test]
fn empty_words_between_others_leave_the_rest_in_order() {
    assert_eq!(
        body_filter(&words(&["a", "", "b", ""])),
        Some(Filter::and(vec![
            Filter::condition(EmailQueryFilter::default().body("a")),
            Filter::condition(EmailQueryFilter::default().body("b")),
        ]))
    );
}
