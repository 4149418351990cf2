use llvmup::manifest::parse_cmake_bool;
use llvmup::strutil::{
    path_split,
    percent_encode_plus,
    str_eq,
    str_has_prefix,
    str_has_suffix,
    str_lt,
    str_strip_prefix,
    str_strip_suffix,
    str_to_string,
    u64_to_dec_string,
    vec_contains_string,
    vec_insert_sorted_unique,
};

#[test]
fn string_comparison_is_by_characters() {
    assert!(str_eq("abc", "abc"));
    assert!(!str_eq("abc", "abd"));
    assert!(!str_eq("abc", "ab"));
    assert!(str_lt("abc", "abd"));
    assert!(str_lt("ab", "abc"));
    assert!(!str_lt("abc", "abc"));
    assert!(!str_lt("b", "abc"));
}

#[test]
fn prefix_and_suffix_handling() {
    assert!(str_has_prefix("libfoo.a", "lib"));
    assert!(!str_has_prefix("lib", "libfoo"));
    assert!(str_has_suffix("libfoo.a", ".a"));
    assert!(!str_has_suffix("a", ".a"));
    assert_eq!(str_strip_prefix("libfoo.a", "lib"), Some("foo.a"));
    assert_eq!(str_strip_prefix("foo", "lib"), None);
    assert_eq!(str_strip_suffix("libfoo.a", ".a"), Some("libfoo"));
    assert_eq!(str_strip_suffix("libfoo.a", ".so"), None);
}

#[test]
fn decimal_rendering_matches_digits() {
    assert_eq!(u64_to_dec_string(0), "0");
    assert_eq!(u64_to_dec_string(7), "7");
    assert_eq!(u64_to_dec_string(10), "10");
    assert_eq!(u64_to_dec_string(90218), "90218");
    assert_eq!(u64_to_dec_string(u64::MAX), "18446744073709551615");
}

#[test]
fn sorted_unique_insertion_keeps_order_and_uniqueness() {
    let mut v: Vec<String> = Vec::new();
    vec_insert_sorted_unique(&mut v, str_to_string("m"));
    vec_insert_sorted_unique(&mut v, str_to_string("a"));
    vec_insert_sorted_unique(&mut v, str_to_string("z"));
    vec_insert_sorted_unique(&mut v, str_to_string("m"));
    assert_eq!(v, vec!["a".to_string(), "m".to_string(), "z".to_string()]);
    assert!(vec_contains_string(&v, "m"));
    assert!(!vec_contains_string(&v, "q"));
}

#[test]
fn path_split_finds_parent_and_file_name() {
    assert_eq!(
        path_split("/toolchain/lib/libfoo.so"),
        (Some("/toolchain/lib"), Some("libfoo.so"))
    );
    assert_eq!(path_split("libfoo.so"), (None, Some("libfoo.so")));
    assert_eq!(path_split("/toolchain/lib/"), (Some("/toolchain/lib"), None));
    assert_eq!(path_split(""), (None, None));
    assert_eq!(path_split("/x"), (None, Some("x")));
}

#[test]
fn percent_encoding_escapes_the_revision_marker() {
    assert_eq!(percent_encode_plus("llvmorg-17.0.2+rev1"), "llvmorg-17.0.2%2Brev1");
    assert_eq!(percent_encode_plus("plain"), "plain");
    assert_eq!(percent_encode_plus("++"), "%2B%2B");
    assert_eq!(percent_encode_plus(""), "");
}

#[test]
fn cmake_booleans_parse_exactly_four_spellings() {
    assert_eq!(parse_cmake_bool("TRUE"), Some(true));
    assert_eq!(parse_cmake_bool("ON"), Some(true));
    assert_eq!(parse_cmake_bool("FALSE"), Some(false));
    assert_eq!(parse_cmake_bool("OFF"), Some(false));
    assert_eq!(parse_cmake_bool("true"), None);
    assert_eq!(parse_cmake_bool("1"), None);
    assert_eq!(parse_cmake_bool(""), None);
}
