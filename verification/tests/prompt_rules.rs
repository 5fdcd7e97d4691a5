use aionui::prompt::{append_default_prompt_rules, MARKDOWN_LINK_TARGET_RULE};

#[test]
fn append_default_prompt_rules_adds_rule_to_existing_prompt() {
    assert_eq!(
        append_default_prompt_rules(Some("Be concise.")).as_deref(),
        Some(
            "Be concise.\n\nWhen a Markdown link target contains spaces, Chinese parentheses, or other characters that common Markdown parsers may truncate, wrap the target in `<...>`."
        )
    );
}

#[test]
fn append_default_prompt_rules_supplies_rule_when_base_missing() {
    assert_eq!(append_default_prompt_rules(None).as_deref(), Some(MARKDOWN_LINK_TARGET_RULE));
    assert_eq!(append_default_prompt_rules(Some("  ")).as_deref(), Some(MARKDOWN_LINK_TARGET_RULE));
}

#[test]
fn append_default_prompt_rules_trims_the_base_prompt() {
    let r = append_default_prompt_rules(Some("  Be brief.\n")).unwrap();
    assert_eq!(r, format!("Be brief.\n\n{}", MARKDOWN_LINK_TARGET_RULE));
}
