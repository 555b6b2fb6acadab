use dns_recon::normalize::insert_sorted;
use dns_recon::normalize::normalize;
use dns_recon::order::str_lt;
use dns_recon::records::process_cert_names;
use dns_recon::records::process_crtsh_entries;
use dns_recon::text::join_all;
use dns_recon::text::split_on_char;
use dns_recon::text::str_contains;
use dns_recon::text::strip_trailing_char;
use dns_recon::text::trim_spaces;
use dns_recon::text::u64_to_string;

fn strings(items: &[&str]) -> Vec<String> {
    items.iter().map(|s| String::from(*s)).collect()
}

#[test]
fn normalize_sorts_and_deduplicates() {
    let out = normalize(strings(&["b.example.com", "a.example.com", "b.example.com", "c.example.com"]));
    assert_eq!(out, strings(&["a.example.com", "b.example.com", "c.example.com"]));
}

#[test]
fn normalize_is_order_independent() {
    let one = normalize(strings(&["z", "m", "a", "m"]));
    let two = normalize(strings(&["m", "a", "z", "a", "z"]));
    assert_eq!(one, two);
    assert_eq!(one, strings(&["a", "m", "z"]));
}

#[test]
fn normalize_of_empty_is_empty() {
    assert_eq!(normalize(Vec::new()), Vec::<String>::new());
}

#[test]
fn normalize_preserves_case_and_orders_by_code_point() {
    let out = normalize(strings(&["a.Example.COM", "B.example.com"]));
    assert_eq!(out, strings(&["B.example.com", "a.Example.COM"]));
}

#[test]
fn insert_sorted_skips_duplicates() {
    let v = insert_sorted(strings(&["a", "c"]), String::from("c"));
    assert_eq!(v, strings(&["a", "c"]));
    let v = insert_sorted(strings(&["a", "c"]), String::from("b"));
    assert_eq!(v, strings(&["a", "b", "c"]));
}

#[test]
fn str_lt_is_lexicographic() {
    assert!(str_lt("abc", "abd"));
    assert!(str_lt("ab", "abc"));
    assert!(!str_lt("abc", "abc"));
    assert!(!str_lt("b", "abc"));
    assert!(str_lt("", "a"));
}

#[test]
fn split_on_newline() {
    let parts = split_on_char("a.example.com\nb.example.com", '\n');
    assert_eq!(parts, strings(&["a.example.com", "b.example.com"]));
}

#[test]
fn split_keeps_empty_pieces() {
    let parts = split_on_char("a\n\nb\n", '\n');
    assert_eq!(parts, strings(&["a", "", "b", ""]));
    let parts = split_on_char("", '\n');
    assert_eq!(parts, strings(&[""]));
}

#[test]
fn join_inverts_split() {
    let parts = split_on_char("one\ntwo\nthree", '\n');
    assert_eq!(join_all(&parts, "\n"), "one\ntwo\nthree");
}

#[test]
fn join_with_comma_separator() {
    let servers = strings(&["ns1.example.com", "ns2.example.com"]);
    assert_eq!(join_all(&servers, ", "), "ns1.example.com, ns2.example.com");
    assert_eq!(join_all(&Vec::new(), ", "), "");
}

#[test]
fn trim_removes_surrounding_whitespace() {
    assert_eq!(trim_spaces("  a.example.com\t\r\n"), "a.example.com");
    assert_eq!(trim_spaces("untouched"), "untouched");
    assert_eq!(trim_spaces(" \t "), "");
    assert_eq!(trim_spaces("inner space kept"), "inner space kept");
}

#[test]
fn strip_trailing_dots() {
    assert_eq!(strip_trailing_char("example.com.", '.'), "example.com");
    assert_eq!(strip_trailing_char("example.com..", '.'), "example.com");
    assert_eq!(strip_trailing_char("example.com", '.'), "example.com");
    assert_eq!(strip_trailing_char("", '.'), "");
}

#[test]
fn substring_test_matches_contains() {
    assert!(str_contains("sub.example.com", "example.com"));
    assert!(str_contains("example.com", "example.com"));
    assert!(!str_contains("example.org", "example.com"));
    assert!(str_contains("anything", ""));
    assert!(!str_contains("", "a"));
}

#[test]
fn decimal_rendering() {
    assert_eq!(u64_to_string(0), "0");
    assert_eq!(u64_to_string(7), "7");
    assert_eq!(u64_to_string(10), "10");
    assert_eq!(u64_to_string(12345), "12345");
    assert_eq!(u64_to_string(65535), "65535");
}

#[test]
fn cert_names_filtered_sorted_deduplicated() {
    let names = strings(&[
        "mail.example.com",
        "unrelated.org",
        "a.example.com",
        "mail.example.com",
    ]);
    let out = process_cert_names(&names, "example.com");
    assert_eq!(out, strings(&["a.example.com", "mail.example.com"]));
}

#[test]
fn crtsh_entries_split_trimmed_filtered_sorted() {
    let entries = strings(&[
        "b.example.com\n a.example.com ",
        "a.example.com\nzz.other.org",
    ]);
    let out = process_crtsh_entries(&entries, "example.com");
    assert_eq!(out, strings(&["a.example.com", "b.example.com"]));
}

#[test]
fn crtsh_entries_empty_input_yields_empty_set() {
    let out = process_crtsh_entries(&Vec::new(), "example.com");
    assert_eq!(out, Vec::<String>::new());
}
