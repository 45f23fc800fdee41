use tppocr::similarity::is_similar;

#[test]
fn near_miss_within_a_fifth_is_similar() {
    // One substitution in five characters: similarity exactly 0.8.
    assert!(is_similar("HELLO", "HELL0"));
    // Two edits in five characters fall below the threshold.
    assert!(!is_similar("HELLO", "HEL12"));
}

#[test]
fn unrelated_texts_are_dissimilar() {
    assert!(!is_similar("HELLO", "BYE"));
    assert!(!is_similar("", "BYE"));
}

#[test]
fn case_differences_do_not_count() {
    assert!(is_similar("Hello", "hELLo"));
    assert!(is_similar("PRESS START", "press start"));
}

#[test]
fn identical_and_empty_texts_are_similar() {
    assert!(is_similar("", ""));
    assert!(is_similar("SAME LINE", "SAME LINE"));
}

#[test]
fn length_difference_counts_as_edits() {
    // Ten characters against the same ten plus two more: distance 2,
    // within a fifth of twelve.
    assert!(is_similar("ABCDEFGHIJ", "ABCDEFGHIJKL"));
    // Five characters against the same five plus two more: distance 2,
    // more than a fifth of seven.
    assert!(!is_similar("ABCDE", "ABCDEFG"));
}
