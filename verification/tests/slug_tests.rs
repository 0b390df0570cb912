use itehax_website::slug::join_runs;
use itehax_website::slug::slugify;

#[test]
fn slug_drops_punctuation() {
    assert_eq!(slugify("Setup & Config!"), "setup-config");
}

#[test]
fn slug_collapses_spaces() {
    assert_eq!(slugify("  Multiple   Spaces "), "multiple-spaces");
}

#[test]
fn slug_of_empty_text_is_empty() {
    assert_eq!(slugify(""), "");
    assert_eq!(slugify(" !?  "), "");
}

#[test]
fn slug_keeps_digits_and_letters_beyond_ascii() {
    assert_eq!(slugify("Été 2024: Bilan"), "été-2024-bilan");
}

#[test]
fn runs_are_joined_by_single_hyphens() {
    let chars: Vec<char> = "ab  c!".chars().collect();
    let keep = vec![true, true, false, false, true, false];
    assert_eq!(join_runs(&chars, &keep), vec!['a', 'b', '-', 'c']);
    let none: Vec<char> = Vec::new();
    assert_eq!(join_runs(&none, &Vec::new()), none);
    let all: Vec<char> = "abc".chars().collect();
    assert_eq!(join_runs(&all, &vec![false, false, false]), none);
    assert_eq!(join_runs(&all, &vec![false, true, false]), vec!['b']);
    assert_eq!(join_runs(&all, &vec![true, false, true]), vec!['a', '-', 'c']);
}

#[test]
fn slug_lowers_case_and_keeps_existing_hyphens_as_separators() {
    assert_eq!(slugify("Hello-World"), "hello-world");
    assert_eq!(slugify("--A--B--"), "a-b");
    assert_eq!(slugify("Rust 2024"), "rust-2024");
    assert_eq!(slugify("tab\tand\nnewline"), "tab-and-newline");
}
