use uwe::entity::{escape, unescape};
use uwe::path::{
    canonical, join_path, path_components, path_has_prefix, relative_to, same_path, strip_prefix,
};
use uwe::split::{join_with, split_char};
use uwe::text::{
    contains_str, ends_with, replace_all, starts_with, str_eq, trim_end_matches,
    trim_start_matches,
};

#[test]
fn escape_replaces_markup() {
    assert_eq!(escape("<a href='x'>\"q\"</a>"), "&amp;lt;a href=&apos;x&apos;&amp;gt;&quot;q&quot;&amp;lt;/a&amp;gt;");
    assert_eq!(escape("plain"), "plain");
    assert_eq!(escape(""), "");
}

#[test]
fn escaped_text_has_no_markup() {
    let e = escape("<>\"'&<<>>");
    assert!(!e.contains('<'));
    assert!(!e.contains('>'));
    assert!(!e.contains('"'));
    assert!(!e.contains('\''));
}

#[test]
fn unescape_replaces_entities() {
    assert_eq!(unescape("&lt;b&gt; &amp; &quot;x&quot; &apos;y&apos;"), "<b> & \"x\" 'y'");
    assert_eq!(unescape("&amp;lt;"), "&lt;");
}

#[test]
fn unescape_undoes_escape_of_text_without_markup() {
    for s in ["plain", "say \"hi\"", "it's", "'\"'\"", "quot;'apos;", ""] {
        assert_eq!(unescape(&escape(s)), s);
    }
    assert_eq!(unescape(&escape("<b>")), "&lt;b&gt;");
}

#[test]
fn replace_all_scans_from_the_left() {
    assert_eq!(replace_all("aaa", "aa", "b"), "ba");
    assert_eq!(replace_all("a-b-c", "-", "+"), "a+b+c");
    assert_eq!(replace_all("abc", "x", "y"), "abc");
}

#[test]
fn prefix_and_suffix_tests() {
    assert!(starts_with("/hostedzone/Z1", "/hostedzone/"));
    assert!(!starts_with("/host", "/hostedzone/"));
    assert!(ends_with("index.html", ".html"));
    assert!(!ends_with("html", "index.html"));
    assert!(str_eq("abc", "abc"));
    assert!(!str_eq("abc", "abd"));
    assert_eq!(uwe::text::concat("ab", "cd"), "abcd");
}

#[test]
fn trimming_removes_repetitions() {
    assert_eq!(trim_start_matches("ababc", "ab"), "c");
    assert_eq!(trim_end_matches("/docs/index.htmlindex.html", "index.html"), "/docs/");
    assert_eq!(trim_end_matches("abc", ""), "abc");
}

#[test]
fn contains_finds_a_substring() {
    assert!(contains_str("export PATH\nsource $HOME/.hypertext/env\n", "source $HOME/.hypertext/env\n"));
    assert!(!contains_str("abc", "abd"));
    assert!(contains_str("abc", ""));
    assert!(!contains_str("", "a"));
}

#[test]
fn split_and_join_round_trip() {
    let pieces = split_char("a,b,,c", ',');
    assert_eq!(pieces, vec!["a", "b", "", "c"]);
    let refs: Vec<&str> = pieces.iter().map(|s| s.as_str()).collect();
    assert_eq!(join_with(&refs, ","), "a,b,,c");
    assert_eq!(split_char("", ','), vec![""]);
}

#[test]
fn path_components_follow_std() {
    assert_eq!(path_components("/a//b/./c/"), vec!["/", "a", "b", "c"]);
    assert_eq!(path_components("./a"), vec![".", "a"]);
    assert_eq!(path_components("a/../b"), vec!["a", "..", "b"]);
    assert!(same_path("/a/b/", "/a//b"));
    assert!(!same_path("/a/b", "a/b"));
}

#[test]
fn path_prefix_is_by_components() {
    assert!(path_has_prefix("/site/layouts/main.hbs", "/site/layouts"));
    assert!(!path_has_prefix("/site/layouts-old/main.hbs", "/site/layouts"));
    assert!(path_has_prefix("/site", "/site/"));
    assert!(path_has_prefix("anything", ""));
}

#[test]
fn join_path_pushes() {
    assert_eq!(join_path("/site", "docs"), "/site/docs");
    assert_eq!(join_path("/site/", "docs"), "/site/docs");
    assert_eq!(join_path("/site", "/abs"), "/abs");
    assert_eq!(join_path("", "docs"), "docs");
}

#[test]
fn strip_prefix_keeps_the_rest() {
    assert_eq!(strip_prefix("/site/docs/a.md", "/site"), Some("docs/a.md".to_string()));
    assert_eq!(strip_prefix("/site", "/site"), Some("".to_string()));
    assert_eq!(strip_prefix("/other/a.md", "/site"), None);
    assert_eq!(strip_prefix("/a", ""), Some("/a".to_string()));
}

#[test]
fn relative_to_puts_the_file_under_the_target() {
    assert_eq!(relative_to("/home/u/site/docs/a.md", "/home/u/site", "site"), Some("site/docs/a.md".to_string()));
    assert_eq!(relative_to("/elsewhere/a.md", "/home/u/site", "site"), None);
}

#[test]
fn canonical_prefers_the_resolved_path() {
    assert_eq!(canonical("site/../site", Some("/home/u/site".to_string())), "/home/u/site");
    assert_eq!(canonical("missing", None), "missing");
}

