//! Rules appended to every agent's default system prompt.
use vstd::prelude::*;

use crate::text::{is_blank, is_blank_str, push_str, trim, trim_seq};

verus! {

/// Asks agents to wrap Markdown link targets that parsers may truncate.
pub const MARKDOWN_LINK_TARGET_RULE: &'static str = "When a Markdown link target contains spaces, Chinese parentheses, or other characters that common Markdown parsers may truncate, wrap the target in `<...>`.";

/// The prompt that [`append_default_prompt_rules`] produces for `base`.
pub open spec fn prompt_with_rules(base: Option<Seq<char>>) -> Seq<char> {
    match base {
        Some(b) if !is_blank(b) => trim_seq(b) + "\n\n"@ + MARKDOWN_LINK_TARGET_RULE@,
        _ => MARKDOWN_LINK_TARGET_RULE@,
    }
}

/// Appends the default rules to a base prompt. A missing or blank base yields
/// the rules alone; otherwise the trimmed base, a blank line, then the rules.
pub fn append_default_prompt_rules(base: Option<&str>) -> (r: Option<String>)
    ensures
        r matches Some(s) && s@ == prompt_with_rules(
            match base {
                Some(b) => Some(b@),
                None => None,
            },
        ),
{
    match base {
        Some(b) => {
            if is_blank_str(b) {
                Some(MARKDOWN_LINK_TARGET_RULE.to_owned())
            } else {
                let mut s = trim(b);
                push_str(&mut s, "\n\n");
                push_str(&mut s, MARKDOWN_LINK_TARGET_RULE);
                Some(s)
            }
        },
        None => Some(MARKDOWN_LINK_TARGET_RULE.to_owned()),
    }
}

} // verus!
