use runtimes::slash::{
    completion_new_text, completion_query, is_completion_trigger, name_completions,
    CompletionQuery, SlashCommandDescriptor, SlashCommandLine, SlashCommandRegistry,
};
use runtimes::text::LineRange;

fn range(start: usize, end: usize) -> LineRange {
    LineRange { start, end }
}

#[test]
fn parse_name_and_argument() {
    let call = SlashCommandLine::parse("/prompt greet").expect("a command");
    assert_eq!(call.name, range(1, 7));
    assert_eq!(call.argument, Some(range(8, 13)));
}

#[test]
fn parse_bare_name() {
    let call = SlashCommandLine::parse("/file").expect("a command");
    assert_eq!(call.name, range(1, 5));
    assert_eq!(call.argument, None);
}

#[test]
fn parse_allows_leading_whitespace_only() {
    let call = SlashCommandLine::parse("  /cmd").expect("a command");
    assert_eq!(call.name, range(3, 6));
    assert_eq!(SlashCommandLine::parse("x /cmd"), None);
}

#[test]
fn parse_name_must_start_with_a_letter() {
    assert_eq!(SlashCommandLine::parse("/1cmd"), None);
    assert_eq!(SlashCommandLine::parse("/ cmd"), None);
    // A digit may follow the leading letter.
    let call = SlashCommandLine::parse("/c1").expect("a command");
    assert_eq!(call.name, range(1, 3));
}

#[test]
fn parse_without_slash_or_text() {
    assert_eq!(SlashCommandLine::parse("hello"), None);
    assert_eq!(SlashCommandLine::parse(""), None);
    assert_eq!(SlashCommandLine::parse("   "), None);
}

#[test]
fn parse_lone_slash_has_empty_name() {
    let call = SlashCommandLine::parse("/").expect("a command");
    assert_eq!(call.name, range(1, 1));
    assert_eq!(call.argument, None);
}

#[test]
fn parse_empty_argument_after_trailing_space() {
    let call = SlashCommandLine::parse("/cmd ").expect("a command");
    assert_eq!(call.name, range(1, 4));
    assert_eq!(call.argument, Some(range(5, 5)));
}

#[test]
fn parse_argument_skips_leading_and_keeps_trailing_whitespace() {
    let call = SlashCommandLine::parse("/cmd  a ").expect("a command");
    assert_eq!(call.name, range(1, 4));
    assert_eq!(call.argument, Some(range(6, 8)));
}

#[test]
fn parse_positions_count_characters() {
    let call = SlashCommandLine::parse("/café au").expect("a command");
    assert_eq!(call.name, range(1, 5));
    assert_eq!(call.argument, Some(range(6, 8)));
}

#[test]
fn completion_trigger_follows_the_parse() {
    assert!(is_completion_trigger("/pro"));
    assert!(is_completion_trigger("/prompt greet"));
    assert!(!is_completion_trigger("prompt"));
    assert!(!is_completion_trigger("  "));
}

#[test]
fn completion_query_for_a_name() {
    match completion_query("/pro") {
        Some(CompletionQuery::CommandName { name, name_range }) => {
            assert_eq!(name, "pro");
            assert_eq!(name_range, range(1, 4));
        }
        _ => panic!("expected a name query"),
    }
}

#[test]
fn completion_query_for_an_argument() {
    match completion_query("/prompt gre") {
        Some(CompletionQuery::CommandArgument { name, argument, argument_range }) => {
            assert_eq!(name, "prompt");
            assert_eq!(argument, "gre");
            assert_eq!(argument_range, range(8, 11));
        }
        _ => panic!("expected an argument query"),
    }
    assert!(completion_query("not a command").is_none());
}

fn descriptor(name: &str, description: &str, requires_argument: bool) -> SlashCommandDescriptor {
    SlashCommandDescriptor {
        name: name.to_string(),
        description: description.to_string(),
        requires_argument,
    }
}

#[test]
fn registry_registers_and_looks_up_by_name() {
    let mut registry = SlashCommandRegistry::new();
    registry.register_command(descriptor("prompt", "insert a prompt from the library", true));
    registry.register_command(descriptor("file", "insert a file", true));

    let prompt = registry.command("prompt").expect("registered command");
    assert!(prompt.requires_argument);
    assert_eq!(prompt.description, "insert a prompt from the library");
    assert!(registry.command("unknown").is_none());
    assert_eq!(registry.command_names(), vec!["prompt".to_string(), "file".to_string()]);
}

#[test]
fn registering_a_name_again_replaces_it() {
    let mut registry = SlashCommandRegistry::new();
    registry.register_command(descriptor("file", "first", true));
    registry.register_command(descriptor("file", "second", false));
    let file = registry.command("file").expect("registered command");
    assert_eq!(file.description, "second");
    assert!(!file.requires_argument);
    assert_eq!(registry.command_names().len(), 1);
}

#[test]
fn name_completions_follow_the_match_order() {
    let mut registry = SlashCommandRegistry::new();
    registry.register_command(descriptor("prompt", "insert a prompt", true));
    registry.register_command(descriptor("help", "show help", false));
    // The matcher ranked "help" first and also matched a name the registry
    // no longer knows; the unknown name yields no entry.
    let matched = vec!["help".to_string(), "gone".to_string(), "prompt".to_string()];
    let entries = name_completions(&registry, &matched);
    assert_eq!(
        entries,
        vec![
            ("help".to_string(), "show help".to_string()),
            ("prompt ".to_string(), "insert a prompt".to_string()),
        ]
    );
}

#[test]
fn completion_text_appends_a_space_only_for_arguments() {
    assert_eq!(completion_new_text(&descriptor("prompt", "", true)), "prompt ");
    assert_eq!(completion_new_text(&descriptor("help", "", false)), "help");
}
