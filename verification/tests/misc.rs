use taskpool::fib;
use taskpool::pig_latin;
use taskpool::text::{stars, str_eq, str_lt_exec};

#[test]
fn pig_latin_rewrites_each_word() {
    let got = pig_latin(
        "In Rust I couldnt find a similar method as replacement Something I came up with looks like this",
    );
    assert_eq!(
        got,
        "in-hay ust-ray i-hay ouldnt-cay ind-fay a-hay imilar-say ethod-may as-hay \
         eplacement-ray omething-say i-hay ame-cay up-hay ith-way ooks-lay ike-lay his-tay"
    );
}

#[test]
fn pig_latin_trims_and_lowers() {
    assert_eq!(pig_latin("  Apple  "), "apple-hay");
    assert_eq!(pig_latin("Hello"), "ello-hay");
}

#[test]
fn fib_matches_its_shifted_numbering() {
    assert_eq!(fib(0), 0);
    assert_eq!(fib(1), 0);
    assert_eq!(fib(2), 1);
    assert_eq!(fib(3), 1);
    assert_eq!(fib(4), 2);
    assert_eq!(fib(10), 34);
    assert_eq!(fib(20), 4181);
}

#[test]
fn string_equality_is_by_contents() {
    assert!(str_eq("abc", "abc"));
    assert!(!str_eq("abc", "abd"));
    assert!(!str_eq("abc", "ab"));
    assert!(str_eq("", ""));
}

#[test]
fn string_order_is_lexicographic() {
    assert!(str_lt_exec("ab", "b"));
    assert!(str_lt_exec("ab", "abc"));
    assert!(!str_lt_exec("abc", "abc"));
    assert!(!str_lt_exec("b", "ab"));
    assert!(str_lt_exec("", "a"));
}

#[test]
fn stars_mask_by_length() {
    assert_eq!(stars(0), "");
    assert_eq!(stars(4), "****");
}
