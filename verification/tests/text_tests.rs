use rusty_rebase::text::{
    cat, colon_segment1, find_char, find_sub, join_spaces, lower_ascii, replace_all, split_lines,
    str_contains, str_ends_with, str_eq, str_starts_with, tail_after_last, trim_both_char,
    trim_lead_char, trim_lead_pat, trim_spaces, trim_trail_pat, u64_dec, usize_dec,
};

#[test]
fn replace_all_substitutes_every_occurrence() {
    assert_eq!(replace_all("a-{arch}-b-{arch}", "{arch}", "amd64"), "a-amd64-b-amd64");
    assert_eq!(replace_all("nothing here", "{arch}", "amd64"), "nothing here");
    assert_eq!(replace_all("x86_64", "_", "-"), "x86-64");
    assert_eq!(replace_all("aaa", "aa", "b"), "ba");
    assert_eq!(replace_all("abc", "", "z"), "abc");
}

#[test]
fn tail_after_last_takes_the_last_segment() {
    assert_eq!(tail_after_last("a/b/c.tar.gz", '/'), "c.tar.gz");
    assert_eq!(tail_after_last("no-slash", '/'), "no-slash");
    assert_eq!(tail_after_last("trailing/", '/'), "");
    assert_eq!(tail_after_last("", '/'), "");
}

#[test]
fn contains_and_affixes() {
    assert!(str_contains("hello world", "lo wo"));
    assert!(!str_contains("hello", "world"));
    assert!(str_contains("anything", ""));
    assert!(str_starts_with("x86_64-linux", "x86_64"));
    assert!(!str_starts_with("a", "ab"));
    assert!(str_ends_with("tool.tar.gz", ".tar.gz"));
    assert!(!str_ends_with("tool.tar.xz", ".tar.gz"));
    assert_eq!(find_sub("abcabc", "bc"), Some(1));
    assert_eq!(find_sub("abc", "zz"), None);
    assert_eq!(find_char("a=b=c", '='), Some(1));
    assert_eq!(find_char("abc", '='), None);
}

#[test]
fn trimming_behaves_like_the_std_trimmers() {
    assert_eq!(trim_spaces("  v 1.2 \t\r\n"), "v 1.2");
    assert_eq!(trim_spaces(""), "");
    assert_eq!(trim_lead_char("vvv1.0", 'v'), "1.0");
    assert_eq!(trim_both_char("\"ubuntu\"", '"'), "ubuntu");
    assert_eq!(trim_lead_pat("android-studio-2024.1-linux.tar.gz", "android-studio-"), "2024.1-linux.tar.gz");
    assert_eq!(trim_trail_pat("2024.1-linux.tar.gz", "-linux.tar.gz"), "2024.1");
    assert_eq!(trim_lead_pat("ababX", "ab"), "X");
}

#[test]
fn colon_segment_takes_the_second_split_piece() {
    assert_eq!(colon_segment1("  Candidate: 1.2.3-1ubuntu1"), Some(" 1.2.3-1ubuntu1".to_string()));
    assert_eq!(colon_segment1("Version : 2:8.1 extra"), Some(" 2".to_string()));
    assert_eq!(colon_segment1("no colon here"), None);
    assert_eq!(colon_segment1("tail:"), Some("".to_string()));
}

#[test]
fn split_lines_matches_lines_semantics() {
    assert_eq!(split_lines("a\nb\nc"), vec!["a", "b", "c"]);
    assert_eq!(split_lines("a\r\nb\r\n"), vec!["a", "b"]);
    assert_eq!(split_lines(""), Vec::<String>::new());
    assert_eq!(split_lines("one"), vec!["one"]);
    assert_eq!(split_lines("a\n\nb"), vec!["a", "", "b"]);
}

#[test]
fn join_and_concat() {
    let xs = vec!["git".to_string(), "curl".to_string(), "vim".to_string()];
    assert_eq!(join_spaces(&xs), "git curl vim");
    assert_eq!(join_spaces(&vec!["solo".to_string()]), "solo");
    assert_eq!(join_spaces(&Vec::new()), "");
    assert_eq!(cat("ab", "cd"), "abcd");
}

#[test]
fn decimal_rendering() {
    assert_eq!(usize_dec(0), "0");
    assert_eq!(usize_dec(7), "7");
    assert_eq!(usize_dec(1280), "1280");
    assert_eq!(u64_dec(18446744073709551615), "18446744073709551615");
}

#[test]
fn ascii_lowering_and_equality() {
    assert_eq!(lower_ascii("Bar-Linux-AMD64.TAR.gz"), "bar-linux-amd64.tar.gz");
    assert!(str_eq("same", "same"));
    assert!(!str_eq("same", "Same"));
}
