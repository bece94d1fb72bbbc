//! Straight quotes to curly quotes, outside code blocks.

use vstd::prelude::*;
use crate::text::{whitespace, is_whitespace, chars_of, string_of};
use crate::event::{MdEvent, EventModel};

verus! {

/// The character that `c` becomes, given whether white space (or the start
/// of the text) comes right before it.
pub open spec fn curly_char(c: char, opening: bool) -> char {
    if c == '\'' {
        if opening { '‘' } else { '’' }
    } else if c == '"' {
        if opening { '“' } else { '”' }
    } else {
        c
    }
}

/// Whether a quote at position `i` of `s` opens: it is the first character
/// or follows white space.
pub open spec fn opens_at(s: Seq<char>, i: int) -> bool {
    i == 0 || whitespace(s[i - 1])
}

/// `s` with its straight quotes made curly.
pub open spec fn curly(s: Seq<char>) -> Seq<char> {
    Seq::new(s.len(), |i: int| curly_char(s[i], opens_at(s, i)))
}

/// Replaces each `'` and `"` by its opening or closing curly form.
pub fn convert_quotes_to_curly(original_text: &str) -> (r: String)
    ensures
        r@ == curly(original_text@),
{
    let cs = chars_of(original_text);
    let mut out: Vec<char> = Vec::new();
    let mut preceded_by_whitespace = true;
    let mut i: usize = 0;
    while i < cs.len()
        invariant
            cs@ == original_text@,
            i <= cs.len(),
            out@ == curly(cs@.subrange(0, i as int)),
            preceded_by_whitespace == opens_at(cs@, i as int),
        decreases cs.len() - i,
    {
        let c = cs[i];
        let converted = if c == '\'' {
            if preceded_by_whitespace { '‘' } else { '’' }
        } else if c == '"' {
            if preceded_by_whitespace { '“' } else { '”' }
        } else {
            c
        };
        out.push(converted);
        preceded_by_whitespace = is_whitespace(c);
        i = i + 1;
        assert(out@ == curly(cs@.subrange(0, i as int)));
    }
    assert(cs@.subrange(0, cs.len() as int) == cs@);
    string_of(&out)
}

/// What the converter does to one event: with conversion on and outside a
/// code block, text gets curly quotes; every other event stays.
pub open spec fn quote_step(enabled: bool, convert_text: bool, e: EventModel) -> EventModel {
    match e {
        EventModel::Text(t) => if enabled && convert_text {
            EventModel::Text(curly(t))
        } else {
            e
        },
        _ => e,
    }
}

/// Whether text is converted after the converter has seen `e`, having been
/// in state `convert_text` before it.
pub open spec fn convert_after(enabled: bool, convert_text: bool, e: EventModel) -> bool {
    if !enabled {
        convert_text
    } else {
        match e {
            EventModel::CodeBlockStart(_) => false,
            EventModel::CodeBlockEnd => true,
            _ => convert_text,
        }
    }
}

/// Inside a code block, or with conversion off, an event is never changed.
pub proof fn lemma_code_is_never_converted(enabled: bool, convert_text: bool, e: EventModel)
    requires
        !enabled || !convert_text,
    ensures
        quote_step(enabled, convert_text, e) == e,
{
}

/// Turns straight quotes curly in the text events of a stream, except inside
/// code blocks; when disabled it changes nothing.
pub struct EventQuoteConverter {
    pub enabled: bool,
    pub convert_text: bool,
}

impl EventQuoteConverter {
    /// A converter at the start of a document, outside any code block.
    pub fn new(enabled: bool) -> (r: Self)
        ensures
            r.enabled == enabled,
            r.convert_text,
    {
        EventQuoteConverter { enabled, convert_text: true }
    }

    /// Converts one event, and notes whether it opened or closed a code block.
    pub fn convert(&mut self, event: MdEvent) -> (r: MdEvent)
        ensures
            r@ == quote_step(old(self).enabled, old(self).convert_text, event@),
            final(self).enabled == old(self).enabled,
            final(self).convert_text == convert_after(
                old(self).enabled,
                old(self).convert_text,
                event@,
            ),
    {
        if !self.enabled {
            return event;
        }
        match event {
            MdEvent::CodeBlockStart(_) => {
                self.convert_text = false;
                event
            },
            MdEvent::CodeBlockEnd => {
                self.convert_text = true;
                event
            },
            MdEvent::Text(text) => {
                if self.convert_text {
                    MdEvent::Text(convert_quotes_to_curly(text.as_str()))
                } else {
                    MdEvent::Text(text)
                }
            },
            _ => event,
        }
    }
}

} // verus!
