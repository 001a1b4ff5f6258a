use agendao_server::command_args::{
    missing_required, parse, CommandArgumentField, CommandArgumentKind, CommandArgumentOption,
};
use agendao_server::continuation::merge_scheduler_prompt_with_memory;

fn field(key: &str, label: &str, required: bool, kind: CommandArgumentKind, repeatable: bool) -> CommandArgumentField {
    CommandArgumentField {
        key: key.to_string(),
        label: label.to_string(),
        required,
        kind,
        repeatable,
        options: Vec::new(),
    }
}

#[test]
fn scheduler_prompt_merge_keeps_memory_before_current_prompt() {
    let merged = merge_scheduler_prompt_with_memory(
        "把你前面检索的结果写到 markdown 文档中",
        Some("Frozen Memory Snapshot:\n- preference"),
        Some("Turn Memory Recall:\n- related method"),
    );

    assert!(merged.contains("Frozen Memory Snapshot"));
    assert!(merged.contains("Turn Memory Recall"));
    assert!(merged.ends_with("把你前面检索的结果写到 markdown 文档中"));
}

#[test]
fn parse_command_argument_map_preserves_quoted_values() {
    let fields = vec![
        field("goal", "Goal", true, CommandArgumentKind::LongText, false),
        field("scope", "Scope", true, CommandArgumentKind::GlobList, true),
        CommandArgumentField {
            key: "ship".to_string(),
            label: "Ship".to_string(),
            required: false,
            kind: CommandArgumentKind::Boolean,
            repeatable: false,
            options: vec![CommandArgumentOption { label: "true".to_string(), description: None }],
        },
    ];

    let parsed = parse(Some("--goal \"reduce test flakes\" --scope src/** tests/** --ship"), &fields);

    assert_eq!(parsed.get("goal"), Some(vec!["reduce test flakes".to_string()]));
    assert_eq!(parsed.get("scope"), Some(vec!["src/**".to_string(), "tests/**".to_string()]));
    assert_eq!(parsed.get("ship"), Some(vec!["true".to_string()]));
}

#[test]
fn missing_required_command_fields_only_returns_unset_fields() {
    let fields = vec![
        field("goal", "Goal", true, CommandArgumentKind::LongText, false),
        field("verify", "Verify", true, CommandArgumentKind::CommandLine, false),
    ];

    let parsed = parse(Some("--goal improve-docs"), &fields);
    let missing = missing_required(&fields, &parsed);

    assert_eq!(missing.len(), 1);
    assert_eq!(missing[0].key, "verify");
}

#[test]
fn single_long_text_field_accepts_plain_positional_text() {
    let fields = vec![field("goal", "Goal", true, CommandArgumentKind::LongText, false)];
    let parsed = parse(Some("finish the parser and run all tests"), &fields);

    assert_eq!(parsed.get("goal"), Some(vec!["finish the parser and run all tests".to_string()]));
    assert!(missing_required(&fields, &parsed).is_empty());
}

#[test]
fn explicit_flag_form_still_works() {
    let fields = vec![field("goal", "Goal", true, CommandArgumentKind::LongText, false)];
    let parsed = parse(Some("--goal \"finish the parser\""), &fields);

    assert_eq!(parsed.get("goal"), Some(vec!["finish the parser".to_string()]));
}
