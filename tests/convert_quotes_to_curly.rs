use mdbook_render::event::MdEvent;
use mdbook_render::quotes::{convert_quotes_to_curly, EventQuoteConverter};

#[test]
fn it_converts_single_quotes() {
    assert_eq!(convert_quotes_to_curly("'one', 'two'"), "‘one’, ‘two’");
}

#[test]
fn it_converts_double_quotes() {
    assert_eq!(convert_quotes_to_curly(r#""one", "two""#), "“one”, “two”");
}

#[test]
fn it_treats_tab_as_whitespace() {
    assert_eq!(convert_quotes_to_curly("\t'one'"), "\t‘one’");
}

#[test]
fn converter_skips_text_inside_code_blocks() {
    let mut c = EventQuoteConverter::new(true);
    assert_eq!(c.convert(MdEvent::Text("'a'".to_string())), MdEvent::Text("‘a’".to_string()));
    c.convert(MdEvent::CodeBlockStart(mdbook_render::event::CodeBlockKind::Indented));
    assert_eq!(c.convert(MdEvent::Text("'b'".to_string())), MdEvent::Text("'b'".to_string()));
    c.convert(MdEvent::CodeBlockEnd);
    assert_eq!(c.convert(MdEvent::Text("x\"".to_string())), MdEvent::Text("x”".to_string()));
}

#[test]
fn disabled_converter_changes_nothing() {
    let mut c = EventQuoteConverter::new(false);
    assert_eq!(c.convert(MdEvent::Text("'a'".to_string())), MdEvent::Text("'a'".to_string()));
}
