use mdbook_render::anchor::{id_from_content, normalize_id};

#[test]
fn it_generates_anchors() {
    assert_eq!(
        id_from_content("## Method-call expressions"),
        "method-call-expressions"
    );
    assert_eq!(id_from_content("## **Bold** title"), "bold-title");
    assert_eq!(id_from_content("## `Code` title"), "code-title");
}

#[test]
fn it_generates_anchors_from_non_ascii_initial() {
    assert_eq!(
        id_from_content("## `--passes`: add more rustdoc passes"),
        "--passes-add-more-rustdoc-passes"
    );
    assert_eq!(
        id_from_content("## 中文標題 CJK title"),
        "中文標題-cjk-title"
    );
    assert_eq!(id_from_content("## Über"), "Über");
}

#[test]
fn it_normalizes_ids() {
    assert_eq!(
        normalize_id("`--passes`: add more rustdoc passes"),
        "--passes-add-more-rustdoc-passes"
    );
    assert_eq!(
        normalize_id("Method-call 🐙 expressions \u{1f47c}"),
        "method-call--expressions-"
    );
    assert_eq!(normalize_id("_-_12345"), "_-_12345");
    assert_eq!(normalize_id("12345"), "12345");
    assert_eq!(normalize_id("中文"), "中文");
    assert_eq!(normalize_id("にほんご"), "にほんご");
    assert_eq!(normalize_id("한국어"), "한국어");
    assert_eq!(normalize_id(""), "");
}

#[test]
fn markup_and_entities_are_stripped_from_headings() {
    assert_eq!(
        id_from_content("  ## <em>Rust</em> &amp; <code>Cargo</code>&#39;s &quot;book&quot;  "),
        "rust--cargos-book"
    );
    assert_eq!(id_from_content("<strong>A&lt;B&gt;</strong>"), "ab");
}

#[test]
fn normalizing_twice_changes_nothing() {
    for t in ["Method-call 🐙 expressions", "  Ünïcode\tTAB_x ", "", "a--B"] {
        let once = normalize_id(t);
        assert_eq!(normalize_id(&once), once);
    }
}
