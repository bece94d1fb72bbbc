use mdbook_render::render::{new_cmark_parser, render_markdown, render_markdown_with_path};

#[test]
fn preserves_external_links() {
    assert_eq!(
        render_markdown("[example](https://www.rust-lang.org/)", false),
        "<p><a href=\"https://www.rust-lang.org/\">example</a></p>\n"
    );
}

#[test]
fn it_can_adjust_markdown_links() {
    assert_eq!(
        render_markdown("[example](example.md)", false),
        "<p><a href=\"example.html\">example</a></p>\n"
    );
    assert_eq!(
        render_markdown("[example_anchor](example.md#anchor)", false),
        "<p><a href=\"example.html#anchor\">example_anchor</a></p>\n"
    );

    // this anchor contains 'md' inside of it
    assert_eq!(
        render_markdown("[phantom data](foo.html#phantomdata)", false),
        "<p><a href=\"foo.html#phantomdata\">phantom data</a></p>\n"
    );
}

#[test]
fn it_can_keep_quotes_straight() {
    assert_eq!(render_markdown("'one'", false), "<p>'one'</p>\n");
}

#[test]
fn it_can_make_quotes_curly_except_when_they_are_in_code() {
    let input = r#"
'one'
```
'two'
```
`'three'` 'four'"#;
    let expected = r#"<p>‘one’</p>
<pre><code>'two'
</code></pre>
<p><code>'three'</code> ‘four’</p>
"#;
    assert_eq!(render_markdown(input, true), expected);
}

#[test]
fn whitespace_outside_of_codeblock_header_is_preserved() {
    let input = r#"
some text with spaces
```rust
fn main() {
// code inside is unchanged
}
```
more text with spaces
"#;

    let expected = r#"<p>some text with spaces</p>
<pre><code class="language-rust">fn main() {
// code inside is unchanged
}
</code></pre>
<p>more text with spaces</p>
"#;
    assert_eq!(render_markdown(input, false), expected);
    assert_eq!(render_markdown(input, true), expected);
}

#[test]
fn rust_code_block_properties_are_passed_as_space_delimited_class() {
    let input = r#"
```rust,no_run,should_panic,property_3
```
"#;

    let expected = r#"<pre><code class="language-rust,no_run,should_panic,property_3"></code></pre>
"#;
    assert_eq!(render_markdown(input, false), expected);
    assert_eq!(render_markdown(input, true), expected);
}

#[test]
fn rust_code_block_properties_with_whitespace_are_passed_as_space_delimited_class() {
    let input = r#"
```rust,    no_run,,,should_panic , ,property_3
```
"#;

    let expected = r#"<pre><code class="language-rust,no_run,,,should_panic,,property_3"></code></pre>
"#;
    assert_eq!(render_markdown(input, false), expected);
    assert_eq!(render_markdown(input, true), expected);
}

#[test]
fn rust_code_block_without_properties_has_proper_html_class() {
    let input = r#"
```rust
```
"#;

    let expected = r#"<pre><code class="language-rust"></code></pre>
"#;
    assert_eq!(render_markdown(input, false), expected);
    assert_eq!(render_markdown(input, true), expected);

    let input = r#"
```rust
```
"#;
    assert_eq!(render_markdown(input, false), expected);
    assert_eq!(render_markdown(input, true), expected);
}

#[test]
fn links_in_a_page_get_its_directory() {
    assert_eq!(
        render_markdown_with_path("[x](other.md)", false, Some("guide/intro.md"), None, None),
        "<p><a href=\"guide/other.html\">x</a></p>\n"
    );
    assert_eq!(
        render_markdown_with_path("[x](#part)", false, Some("guide/intro.md"), None, None),
        "<p><a href=\"guide/intro.html#part\">x</a></p>\n"
    );
}

#[test]
fn images_and_html_links_are_rewritten() {
    assert_eq!(
        render_markdown("![pic](img/a.md)", false),
        "<p><img src=\"img/a.html\" alt=\"pic\" /></p>\n"
    );
    assert_eq!(
        render_markdown("<a href=\"page.md#top\">t</a>\n", false),
        "<p><a href=\"page.html#top\">t</a></p>\n"
    );
}

#[test]
fn quotes_in_inline_code_and_indented_blocks_stay_straight() {
    assert_eq!(
        render_markdown("say \"hi\"\n\n    'code'\n", true),
        "<p>say “hi”</p>\n<pre><code>'code'\n</code></pre>\n"
    );
}

#[test]
fn parser_enables_tables() {
    let n = new_cmark_parser("| a |\n|---|\n| b |\n").count();
    assert!(n > 6);
    assert_eq!(
        render_markdown("~~gone~~", false),
        "<p><del>gone</del></p>\n"
    );
}

#[test]
fn plain_render_matches_render_with_no_context() {
    let text = "[a](b.md) 'q' <img src=\"c.md\">";
    assert_eq!(render_markdown(text, true), render_markdown_with_path(text, true, None, None, None));
}
