use mdbook_render::backtrace::backtrace_lines;
use mdbook_render::collapse::collapse_whitespace;
use mdbook_render::links::{fix, fix_html, fix_with, probe_path, splice_html};
use mdbook_render::render::clean_codeblock_headers;
use mdbook_render::event::{CodeBlockKind, MdEvent};

#[test]
fn missing_links_go_to_the_fallback_directory() {
    let r = fix_with("chapter_1.md", Some("sub/page.md"), Some("/book/fr"), Some("../en"), false, true);
    assert_eq!(r, "../en/chapter_1.html");
    let r = fix_with("chapter_1.md", Some("sub/page.md"), Some("/book/fr"), Some("../en"), true, true);
    assert_eq!(r, "sub/chapter_1.html");
    let r = fix_with("chapter_1.md", None, Some("/book/fr"), Some("../en"), false, false);
    assert_eq!(r, "chapter_1.html");
}

#[test]
fn schemes_and_fragments() {
    assert_eq!(fix_with("mailto:a@b.md", Some("p.md"), None, None, true, false), "mailto:a@b.md");
    assert_eq!(fix_with("#x", Some("a/p.md"), None, None, true, false), "a/p.html#x");
    assert_eq!(fix_with("#x", None, None, None, true, false), "#x");
    assert_eq!(fix_with("a.md.txt", None, None, None, true, false), "a.md.txt");
    assert_eq!(fix_with("a.md#b.md", None, None, None, true, false), "a.md#b.html");
}

#[test]
fn fix_without_source_directory_probes_nothing() {
    assert_eq!(fix("x/y.md#z", Some("p.md"), None, Some("en")), "x/y.html#z");
}

#[test]
fn html_fragments_rewrite_only_a_and_img() {
    assert_eq!(
        fix_html("<img alt=\"x\" src=\"pic.md\"><video src=\"v.md\">", None, None, None),
        "<img alt=\"x\" src=\"pic.html\"><video src=\"v.md\">"
    );
}

#[test]
fn whitespace_runs_collapse() {
    assert_eq!(collapse_whitespace("a  b\t\n c d\te"), "a b c d\te");
    assert_eq!(collapse_whitespace(""), "");
}

#[test]
fn fenced_info_loses_whitespace() {
    let e = MdEvent::CodeBlockStart(CodeBlockKind::Fenced("rust,  no_run , x".to_string()));
    assert_eq!(
        clean_codeblock_headers(e),
        MdEvent::CodeBlockStart(CodeBlockKind::Fenced("rust,no_run,x".to_string()))
    );
}

#[test]
fn backtrace_has_a_line_per_cause() {
    let lines = backtrace_lines(&vec!["top".to_string(), "inner".to_string()]);
    assert_eq!(lines, vec!["Error: top".to_string(), "\tCaused By: inner".to_string()]);
}

#[test]
fn splicing_replaces_each_value() {
    let gaps = vec!["x".to_string(), "y".to_string(), "".to_string()];
    let caps = vec![
        ("<a href=\"".to_string(), "one.md".to_string()),
        ("<img src=\"".to_string(), "two.md".to_string()),
    ];
    let values = vec!["one.html".to_string(), "two.html".to_string()];
    assert_eq!(
        splice_html(&gaps, &caps, &values),
        "x<a href=\"one.html\"y<img src=\"two.html\""
    );
}

#[test]
fn probe_paths_join_with_slashes() {
    assert_eq!(probe_path("/book/fr", None, "ch.md"), "/book/fr/ch.md");
    assert_eq!(probe_path("/book/fr", Some("../en"), "ch.md"), "/book/fr/../en/ch.md");
}
