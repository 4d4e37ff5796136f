use nsis_tauri_utils::strings::{chars_of, str_replace};

#[test]
fn replaces_every_occurrence() {
    assert_eq!(str_replace("this is old", "old", "new"), "this is new");
    assert_eq!(str_replace("than an old", "an", "is"), "this is old");
    assert_eq!(str_replace("a-b-c", "-", "::"), "a::b::c");
}

#[test]
fn occurrences_do_not_overlap() {
    assert_eq!(str_replace("aaaa", "aa", "b"), "bb");
    assert_eq!(str_replace("aaa", "aa", "b"), "ba");
}

#[test]
fn empty_search_inserts_everywhere() {
    assert_eq!(str_replace("abc", "", "x"), "xaxbxcx");
    assert_eq!(str_replace("", "", "x"), "x");
}

#[test]
fn replacement_may_be_empty_or_absent() {
    assert_eq!(str_replace("C:\\dir\\file", "\\", ""), "C:dirfile");
    assert_eq!(str_replace("nothing here", "zz", "y"), "nothing here");
    assert_eq!(str_replace("", "a", "b"), "");
}

#[test]
fn agrees_with_std_replace() {
    let cases = [
        ("héllo wörld", "ö", "o"),
        ("abcabcab", "cab", "X"),
        ("ümlaut ümlaut", "ü", ""),
        ("xx", "", ""),
        ("path/to/file", "/", "\\"),
    ];
    for (s, p, r) in cases {
        assert_eq!(str_replace(s, p, r), s.replace(p, r));
    }
}

#[test]
fn replacing_a_text_by_itself_changes_nothing() {
    for (s, p) in [("banana", "an"), ("banana", ""), ("", "x"), ("aaa", "aa")] {
        assert_eq!(str_replace(s, p, p), s);
    }
}

#[test]
fn chars_of_splits_into_characters() {
    assert_eq!(chars_of("aé€"), vec!['a', 'é', '€']);
    assert!(chars_of("").is_empty());
}
