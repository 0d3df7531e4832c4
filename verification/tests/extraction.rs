use keysnipe::extract::get_potential_keys;

fn strs(items: Vec<&str>) -> Vec<String> {
    items.iter().map(|s| s.to_string()).collect()
}

#[test]
fn duplicate_occurrences_yield_two_candidates() {
    let lengths = vec![4usize];
    let keys = get_potential_keys("AB12 xy AB12", &lengths, false, false);
    assert_eq!(keys, strs(vec!["AB12", "AB12"]));
}

#[test]
fn url_prefixed_word_is_discarded() {
    let lengths = vec![6usize];
    let keys = get_potential_keys("https://x.com/AB12CD", &lengths, false, true);
    assert_eq!(keys, strs(vec![]));
}

#[test]
fn url_rule_discards_a_word_that_would_otherwise_match() {
    let lengths = vec![8usize];
    let kept = get_potential_keys("http:AB12", &lengths, false, false);
    assert_eq!(kept, strs(vec!["httpAB12"]));
    let skipped = get_potential_keys("http:AB12", &lengths, false, true);
    assert_eq!(skipped, strs(vec![]));
}

#[test]
fn strict_rule_requires_letter_and_digit() {
    let lengths = vec![4usize];
    let keys = get_potential_keys("ABCD 1234 AB12", &lengths, true, false);
    assert_eq!(keys, strs(vec!["AB12"]));
    let loose = get_potential_keys("ABCD 1234 AB12", &lengths, false, false);
    assert_eq!(loose, strs(vec!["ABCD", "1234", "AB12"]));
}

#[test]
fn punctuation_is_stripped_before_the_length_check() {
    let lengths = vec![4usize];
    let keys = get_potential_keys("AB-12! (CD34)", &lengths, false, false);
    assert_eq!(keys, strs(vec!["AB12", "CD34"]));
}

#[test]
fn order_of_occurrence_is_preserved() {
    let lengths = vec![4usize];
    let keys = get_potential_keys("AA11 filler BB22 CC33", &lengths, false, false);
    assert_eq!(keys, strs(vec!["AA11", "BB22", "CC33"]));
}

#[test]
fn several_accepted_lengths() {
    let lengths = vec![4usize, 6usize];
    let keys = get_potential_keys("AB12 AB12CD AB12C", &lengths, false, false);
    assert_eq!(keys, strs(vec!["AB12", "AB12CD"]));
}

#[test]
fn empty_text_yields_no_candidates() {
    let lengths = vec![4usize];
    let keys = get_potential_keys("", &lengths, false, false);
    assert_eq!(keys, strs(vec![]));
}

#[test]
fn non_ascii_whitespace_separates_words() {
    let lengths = vec![4usize];
    let keys = get_potential_keys("AB12\u{00A0}CD34", &lengths, false, false);
    assert_eq!(keys, strs(vec!["AB12", "CD34"]));
}

#[test]
fn letter_case_is_preserved() {
    let lengths = vec![4usize];
    let keys = get_potential_keys("ab12", &lengths, false, false);
    assert_eq!(keys, strs(vec!["ab12"]));
}

#[test]
fn non_ascii_characters_are_stripped() {
    let lengths = vec![4usize];
    let keys = get_potential_keys("AB\u{00E9}12", &lengths, false, false);
    assert_eq!(keys, strs(vec!["AB12"]));
}
