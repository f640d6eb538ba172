use plonk::bytes::{
    bytes_eq, concat_bytes, contains_subrange, copy_range, split_bytes, starts_with, trim_spaces,
};

fn v(s: &str) -> Vec<u8> {
    s.as_bytes().to_vec()
}

#[test]
fn equality_and_concat() {
    assert!(bytes_eq(&v("abc"), &v("abc")));
    assert!(!bytes_eq(&v("abc"), &v("abd")));
    assert!(!bytes_eq(&v("abc"), &v("ab")));
    assert_eq!(concat_bytes(&v("ab"), &v("cd")), v("abcd"));
    assert_eq!(concat_bytes(&v(""), &v("x")), v("x"));
}

#[test]
fn prefix_and_substring_search() {
    assert!(starts_with(&v("abcdef"), &v("abc")));
    assert!(!starts_with(&v("ab"), &v("abc")));
    assert!(contains_subrange(&v("xxpkg::greetyy"), &v("pkg::greet")));
    assert!(!contains_subrange(&v("pkg::gree"), &v("pkg::greet")));
    assert!(contains_subrange(&v("abc"), &v("")));
}

#[test]
fn splitting_keeps_empty_pieces() {
    let pieces = split_bytes(&v("a b  c"), b' ');
    assert_eq!(pieces, vec![v("a"), v("b"), v(""), v("c")]);
    assert_eq!(split_bytes(&v(""), b' '), vec![v("")]);
    assert_eq!(split_bytes(&v("x\n"), b'\n'), vec![v("x"), v("")]);
}

#[test]
fn trimming_strips_only_surrounding_spaces() {
    assert_eq!(trim_spaces(&v("  a b  ")), v("a b"));
    assert_eq!(trim_spaces(&v("   ")), v(""));
    assert_eq!(trim_spaces(&v("ab")), v("ab"));
}

#[test]
fn range_copy() {
    assert_eq!(copy_range(&v("abcdef"), 1, 4), v("bcd"));
}
