//! What the log shows of a prompt.

use vstd::prelude::*;

use crate::language_model::{PromptMessageView, PromptView};
use crate::models::message::{text_of, Role};
use crate::orchestrator::decisions::{
    message_blocks, prompt_text, recalled_block, recalled_section, summary_section,
};
use crate::text::{is_white, skip_back, trimmed_end};

verus! {

/// The log shows the summary under its name, and nothing where there is none.
pub proof fn law_log_shows_the_summary(text: Seq<char>)
    ensures
        summary_section(Some(text)) == "[summary]\n"@ + text + "\n\n"@,
        summary_section(None).len() == 0,
{
}

/// The log shows every summary that was recalled, in order, under one name.
pub proof fn law_log_shows_what_is_recalled(recalled: Seq<Seq<char>>, last: Seq<char>)
    ensures
        recalled_block(Seq::empty()).len() == 0,
        recalled_block(recalled.push(last)) == recalled_block(recalled) + last + "\n\n"@,
        recalled_section(Seq::empty()).len() == 0,
        recalled_section(recalled.push(last)) == "[recalled]\n"@ + (recalled_block(recalled) + last
            + "\n\n"@),
{
    assert(recalled.push(last).drop_last() =~= recalled);
}

/// The log shows every message, in order, with its role and what it says.
pub proof fn law_log_shows_every_message(
    messages: Seq<PromptMessageView>,
    last: PromptMessageView,
)
    ensures
        message_blocks(Seq::empty()).len() == 0,
        ({
            let word = match last.role {
                Role::User => "user"@,
                Role::Assistant => "assistant"@,
                Role::System => "system"@,
            };
            message_blocks(messages.push(last)) == message_blocks(messages) + "["@ + word + "]\n"@
                + text_of(last.content) + "\n\n"@
        }),
{
    assert(messages.push(last).drop_last() =~= messages);
}

proof fn lemma_trimmed_end(s: Seq<char>) -> (k: int)
    ensures
        0 <= k <= s.len(),
        trimmed_end(s) == s.take(k),
        forall|i: int| k <= i < s.len() ==> is_white(#[trigger] s[i]),
    decreases s.len(),
{
    let white = |c: char| is_white(c);
    if s.len() > 0 && white(s.last()) {
        let rest = s.drop_last();
        let k = lemma_trimmed_end(rest);
        assert(s.take(k) =~= rest.take(k));
        assert forall|i: int| k <= i < s.len() implies is_white(#[trigger] s[i]) by {
            if i < rest.len() {
                assert(rest[i] == s[i]);
            }
        }
        assert(skip_back(s, white) == skip_back(rest, white));
        k
    } else {
        assert(s.take(s.len() as int) =~= s);
        s.len() as int
    }
}

/// The log shows the summary, what is recalled and the messages, in this
/// order; only white space at the very end is left out.
pub proof fn law_log_shows_the_whole_prompt(prompt: PromptView)
    ensures
        ({
            let whole = summary_section(prompt.summary) + recalled_section(prompt.recalled)
                + message_blocks(prompt.messages);
            exists|k: int|
                #![trigger whole.take(k)]
                {
                    &&& 0 <= k <= whole.len()
                    &&& prompt_text(prompt) == whole.take(k)
                    &&& forall|i: int| k <= i < whole.len() ==> is_white(#[trigger] whole[i])
                }
        }),
{
    let whole = summary_section(prompt.summary) + recalled_section(prompt.recalled)
        + message_blocks(prompt.messages);
    let k = lemma_trimmed_end(whole);
    assert(prompt_text(prompt) == whole.take(k));
}

} // verus!
