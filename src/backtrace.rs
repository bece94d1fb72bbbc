//! The lines that report an error together with the chain of its causes.

use vstd::prelude::*;
use crate::text::push_str;

verus! {

/// The line for the `i`-th message of an error chain: the error itself
/// first, then each cause indented by a tab.
pub open spec fn backtrace_line(messages: Seq<Seq<char>>, i: int) -> Seq<char> {
    if i == 0 {
        "Error: "@ + messages[0]
    } else {
        "\tCaused By: "@ + messages[i]
    }
}

/// The report of an error chain, given the error's message followed by the
/// messages of its causes, outermost first: one line for each.
pub fn backtrace_lines(messages: &Vec<String>) -> (r: Vec<String>)
    ensures
        r@.len() == messages@.len(),
        forall|i: int|
            0 <= i < r@.len() ==> (#[trigger] r@[i])@ == backtrace_line(
                messages@.map_values(|m: String| m@),
                i,
            ),
{
    let mut lines: Vec<String> = Vec::new();
    let mut i: usize = 0;
    while i < messages.len()
        invariant
            i <= messages.len(),
            lines@.len() == i,
            forall|k: int|
                0 <= k < i ==> (#[trigger] lines@[k])@ == backtrace_line(
                    messages@.map_values(|m: String| m@),
                    k,
                ),
        decreases messages.len() - i,
    {
        let mut line: Vec<char> = Vec::new();
        if i == 0 {
            push_str(&mut line, "Error: ");
        } else {
            push_str(&mut line, "\tCaused By: ");
        }
        push_str(&mut line, messages[i].as_str());
        lines.push(crate::text::string_of(&line));
        i = i + 1;
    }
    lines
}

} // verus!
