//! Formatting conversation context for prompts.
use crate::llm::ChatMessage;
use crate::text::{chars_of, join, lemma_join_push, push_all, string_of};
use vstd::prelude::*;

verus! {

/// One line of context: `role: content`.
pub open spec fn context_line(m: ChatMessage) -> Seq<char> {
    m.role@ + seq![':', ' '] + m.content@
}

/// The context lines of a message list.
pub open spec fn context_lines(ms: Seq<ChatMessage>) -> Seq<Seq<char>> {
    ms.map_values(|m: ChatMessage| context_line(m))
}

/// The messages as `role: content` lines joined by newlines.
pub fn format_context(messages: &[ChatMessage]) -> (r: String)
    ensures
        r@ == join(context_lines(messages@), seq!['\n']),
{
    let mut out: Vec<char> = Vec::new();
    let mut i: usize = 0;
    while i < messages.len()
        invariant
            i <= messages@.len(),
            out@ == join(context_lines(messages@.subrange(0, i as int)), seq!['\n']),
        decreases messages@.len() - i,
    {
        let ghost before = out@;
        let m = &messages[i];
        if i > 0 {
            out.push('\n');
        }
        push_all(&mut out, &chars_of(m.role.as_str()));
        out.push(':');
        out.push(' ');
        push_all(&mut out, &chars_of(m.content.as_str()));
        proof {
            let pre = context_lines(messages@.subrange(0, i as int));
            assert(messages@.subrange(0, i + 1) =~= messages@.subrange(0, i as int).push(messages@[i as int]));
            assert(context_lines(messages@.subrange(0, i + 1)) =~= pre.push(context_line(messages@[i as int])));
            lemma_join_push(pre, context_line(messages@[i as int]), seq!['\n']);
            assert(out@ =~= join(context_lines(messages@.subrange(0, i + 1)), seq!['\n']));
        }
        i = i + 1;
    }
    assert(messages@.subrange(0, i as int) =~= messages@);
    string_of(&out)
}

} // verus!
