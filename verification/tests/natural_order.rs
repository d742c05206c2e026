use std::cmp::Ordering;

use simp::natural_cmp::{ascii_to_u64, natural_cmp};

#[test]
fn numbers_compare_by_value() {
    assert_eq!(natural_cmp("img2.png", "img10.png"), Ordering::Less);
    assert_eq!(natural_cmp("img10.png", "img2.png"), Ordering::Greater);
    assert_eq!(natural_cmp("9", "10"), Ordering::Less);
}

#[test]
fn equal_strings_are_equal() {
    assert_eq!(natural_cmp("", ""), Ordering::Equal);
    assert_eq!(natural_cmp("photo 12.jpg", "photo 12.jpg"), Ordering::Equal);
}

#[test]
fn prefix_comes_first() {
    assert_eq!(natural_cmp("abc", "abcd"), Ordering::Less);
    assert_eq!(natural_cmp("abcd", "abc"), Ordering::Greater);
    assert_eq!(natural_cmp("", "a"), Ordering::Less);
}

#[test]
fn letters_compare_as_characters() {
    assert_eq!(natural_cmp("a", "b"), Ordering::Less);
    assert_eq!(natural_cmp("B", "a"), Ordering::Less);
    assert_eq!(natural_cmp("a1", "b0"), Ordering::Less);
}

#[test]
fn longer_run_of_digits_is_greater() {
    // leading zeros make a run longer, so it compares greater
    assert_eq!(natural_cmp("01", "1"), Ordering::Greater);
    assert_eq!(natural_cmp("1", "01"), Ordering::Less);
    assert_eq!(natural_cmp("007", "010"), Ordering::Less);
}

#[test]
fn equal_numbers_go_on_to_the_rest() {
    assert_eq!(natural_cmp("x12a", "x12b"), Ordering::Less);
    assert_eq!(natural_cmp("x12b", "x12a"), Ordering::Greater);
    assert_eq!(natural_cmp("2-10", "2-9"), Ordering::Greater);
}

#[test]
fn digit_against_letter_compares_characters() {
    assert_eq!(natural_cmp("1", "a"), Ordering::Less);
    assert_eq!(natural_cmp("a", "1"), Ordering::Greater);
    assert_eq!(natural_cmp(" ", "1"), Ordering::Less);
}

#[test]
fn very_long_runs_wrap_but_never_fail() {
    // 2^64 wraps to 0, so these runs of equal length compare equal by value
    let a = "18446744073709551616";
    let b = "00000000000000000000";
    assert_eq!(natural_cmp(a, b), Ordering::Equal);
    assert_eq!(natural_cmp("99999999999999999999", "1"), Ordering::Greater);
}

#[test]
fn natural_order_is_antisymmetric_and_transitive_on_samples() {
    let samples = ["a", "a1", "a01", "a2", "a10", "b", "1", "10", "", "x-3", "x-20"];
    for x in samples.iter() {
        assert_eq!(natural_cmp(x, x), Ordering::Equal);
        for y in samples.iter() {
            assert_eq!(natural_cmp(x, y), natural_cmp(y, x).reverse());
            for z in samples.iter() {
                if natural_cmp(x, y) != Ordering::Greater && natural_cmp(y, z) != Ordering::Greater
                {
                    assert_ne!(natural_cmp(x, z), Ordering::Greater);
                }
            }
        }
    }
}

#[test]
fn digit_values() {
    assert_eq!(ascii_to_u64('0'), 0);
    assert_eq!(ascii_to_u64('7'), 7);
    assert_eq!(ascii_to_u64('9'), 9);
}

#[test]
fn without_digits_the_order_is_the_character_order() {
    let samples = ["", "a", "ab", "b", "B", "a-b", "a b", "é", "zz", "Z"];
    for x in samples.iter() {
        for y in samples.iter() {
            assert_eq!(natural_cmp(x, y), x.chars().cmp(y.chars()));
        }
    }
}

#[test]
fn numbers_compare_by_their_values() {
    let values = [0u64, 1, 9, 10, 11, 99, 100, 12345, 4294967296, u64::MAX - 1, u64::MAX];
    for m in values.iter() {
        for n in values.iter() {
            assert_eq!(natural_cmp(&m.to_string(), &n.to_string()), m.cmp(n));
        }
    }
}

#[test]
fn only_the_same_string_compares_equal() {
    assert_eq!(natural_cmp("img 12.png", "img 12.png"), Ordering::Equal);
    assert_ne!(natural_cmp("img012.png", "img12.png"), Ordering::Equal);
    assert_ne!(natural_cmp("a1b", "a1c"), Ordering::Equal);
    assert_ne!(natural_cmp("12", "12 "), Ordering::Equal);
}
