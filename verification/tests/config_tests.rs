use opencode_helix::config::{
    agents_to_select_items, commands_to_select_items, default_prompts, get_prompt,
    prompts_to_select_items,
};
use opencode_helix::server::{Agent, Command};
use opencode_helix::strutil::{string_from_chars, truncate};

#[test]
fn test_get_prompt_lookup() {
    let p = get_prompt("explain").unwrap();
    assert_eq!(p.name, "explain");
    assert_eq!(p.prompt, "Explain how this code works: @this");
    assert!(get_prompt("nope").is_none());
    assert_eq!(get_prompt("fix").unwrap().description, "Fix code issues");
}

#[test]
fn test_default_prompts_table() {
    let ps = default_prompts();
    assert_eq!(ps.len(), 8);
    assert_eq!(ps[0].name, "explain");
    assert_eq!(ps[7].name, "optimize");
}

#[test]
fn test_prompts_to_select_items_shape() {
    let items = prompts_to_select_items();
    assert_eq!(items.len(), 8);
    assert_eq!(items[0].name, "explain");
    assert_eq!(items[0].value, "Explain how this code works: @this");
    assert_eq!(items[0].category, "PROMPTS");
}

#[test]
fn test_commands_to_select_items_slash_names() {
    let cmds = vec![Command {
        name: "review-pr".to_string(),
        description: "Review a pull request".to_string(),
        template: "Review PR: $ARGUMENTS".to_string(),
        agent: None,
    }];
    let items = commands_to_select_items(&cmds);
    assert_eq!(items.len(), 1);
    assert_eq!(items[0].name, "/review-pr");
    assert_eq!(items[0].description, "Review a pull request");
    assert_eq!(items[0].value, "Review PR: $ARGUMENTS");
    assert_eq!(items[0].category, "COMMANDS");
}

#[test]
fn test_agents_to_select_items_filters_subagents() {
    let agents = vec![
        Agent {
            name: "build".to_string(),
            description: "primary agent".to_string(),
            mode: "primary".to_string(),
        },
        Agent {
            name: "docs".to_string(),
            description: "writes docs".to_string(),
            mode: "subagent".to_string(),
        },
    ];
    let items = agents_to_select_items(&agents);
    assert_eq!(items.len(), 1);
    assert_eq!(items[0].name, "@docs");
    assert_eq!(items[0].value, "@docs ");
    assert_eq!(items[0].category, "AGENTS");
}

#[test]
fn test_truncate_for_display() {
    assert_eq!(truncate("hello", 10), "hello");
    assert_eq!(truncate("hello world", 5), "hello...");
    assert_eq!(truncate("", 0), "");
}

#[test]
fn test_string_from_chars_round_trip() {
    let cs: Vec<char> = "abc".chars().collect();
    assert_eq!(string_from_chars(&cs), "abc");
    assert_eq!(string_from_chars(&Vec::new()), "");
}
