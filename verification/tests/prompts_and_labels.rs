use runtimes::blocks::{code_range, run_language, EditorRuntimeBlock, EditorRuntimeState};
use runtimes::haskell::{HaskellExtension, Hls, StaticLs, Symbol, SymbolKind};
use runtimes::prompt::{selected_titles, Prompt, PromptError, PromptLibrary, PromptSlashCommand};
use runtimes::text::LineRange;

fn library_with(prompts: Vec<(Option<&str>, &str)>) -> PromptLibrary {
    let mut library = PromptLibrary::new();
    for (title, content) in prompts {
        library.add(Prompt { title: title.map(|t| t.to_string()), content: content.to_string() });
    }
    library
}

#[test]
fn prompt_command_inserts_the_titled_prompt() {
    let command = PromptSlashCommand::new(library_with(vec![
        (None, "untitled"),
        (Some("greet"), "Hello there!"),
        (Some("greet"), "a shadowed duplicate"),
    ]));
    assert_eq!(command.name(), "prompt");
    assert_eq!(command.description(), "insert a prompt from the library");
    assert!(command.requires_argument());
    assert_eq!(command.run(Some("greet")).expect("found prompt"), "Hello there!");
}

#[test]
fn prompt_command_errors_name_their_cause() {
    let command = PromptSlashCommand::new(library_with(vec![(Some("greet"), "hi")]));
    match command.run(None) {
        Err(e @ PromptError::MissingTitle) => {
            assert_eq!(e.message(), "missing prompt name");
        }
        _ => panic!("expected MissingTitle"),
    }
    match command.run(Some("farewell")) {
        Err(e @ PromptError::NoSuchPrompt { .. }) => {
            assert_eq!(e.message(), "no prompt found with title farewell");
        }
        _ => panic!("expected NoSuchPrompt"),
    }
}

#[test]
fn title_candidates_keep_library_indices() {
    let library = library_with(vec![
        (Some("alpha"), "a"),
        (None, "b"),
        (Some("gamma"), "c"),
    ]);
    let candidates = library.title_candidates();
    assert_eq!(candidates.len(), 2);
    assert_eq!(candidates[0], (0, "alpha".to_string()));
    assert_eq!(candidates[1], (2, "gamma".to_string()));

    // The external matcher picked the second candidate, then the first.
    let picked = selected_titles(&candidates, &vec![1, 0]);
    assert_eq!(picked, vec!["gamma".to_string(), "alpha".to_string()]);
}

fn symbol(kind: SymbolKind, name: &str) -> Symbol {
    Symbol { kind, name: name.to_string() }
}

#[test]
fn hls_labels_a_struct_as_a_data_declaration() {
    let label = Hls::new()
        .label_for_symbol(&symbol(SymbolKind::Struct, "Foo"))
        .expect("a label");
    assert_eq!(label.code, "data Foo = A");
    assert_eq!(label.spans, vec![LineRange { start: 0, end: 8 }]);
    assert_eq!(label.filter_range, LineRange { start: 5, end: 8 });
}

#[test]
fn hls_labels_a_constructor_inside_a_declaration() {
    let label = Hls::new()
        .label_for_symbol(&symbol(SymbolKind::Constructor, "Just"))
        .expect("a label");
    assert_eq!(label.code, "data A = Just");
    assert_eq!(label.spans, vec![LineRange { start: 9, end: 13 }]);
    assert_eq!(label.filter_range, LineRange { start: 0, end: 4 });
}

#[test]
fn hls_labels_a_variable_with_a_signature() {
    let label = Hls::new()
        .label_for_symbol(&symbol(SymbolKind::Variable, "main"))
        .expect("a label");
    assert_eq!(label.code, "main :: T");
    assert_eq!(label.spans, vec![LineRange { start: 0, end: 4 }]);
    assert_eq!(label.filter_range, LineRange { start: 0, end: 4 });
}

#[test]
fn other_symbols_get_no_label() {
    assert!(Hls::new().label_for_symbol(&symbol(SymbolKind::Other, "x")).is_none());
    assert!(StaticLs::new().label_for_symbol(&symbol(SymbolKind::Variable, "x")).is_none());
}

#[test]
fn extension_builds_the_hls_command() {
    let mut extension = HaskellExtension::new();
    let env = vec![("PATH".to_string(), "/usr/bin".to_string())];
    let command = extension
        .language_server_command("hls", Some("/opt/hls/bin/wrapper".to_string()), env.clone())
        .expect("a command");
    assert_eq!(command.command, "/opt/hls/bin/wrapper");
    assert_eq!(command.args, vec!["lsp".to_string()]);
    assert_eq!(command.env, env);
}

#[test]
fn extension_reports_missing_binaries_and_unknown_servers() {
    let mut extension = HaskellExtension::new();
    match extension.language_server_command("hls", None, vec![]) {
        Err(message) => assert_eq!(message, "hls must be installed via ghcup"),
        Ok(_) => panic!("expected an error"),
    }
    match extension.language_server_command("static-ls", None, vec![]) {
        Err(message) => assert_eq!(message, "static-ls could not be found"),
        Ok(_) => panic!("expected an error"),
    }
    match extension.language_server_command("rust-analyzer", None, vec![]) {
        Err(message) => assert_eq!(message, "unknown language server: rust-analyzer"),
        Ok(_) => panic!("expected an error"),
    }
}

#[test]
fn extension_builds_the_static_ls_command_and_dispatches_labels() {
    let mut extension = HaskellExtension::new();
    let command = extension
        .language_server_command("static-ls", Some("/usr/bin/static-ls".to_string()), vec![])
        .expect("a command");
    assert_eq!(command.command, "/usr/bin/static-ls");
    assert!(command.args.is_empty());

    // hls was never started for this extension: no label through it.
    assert!(extension
        .label_for_symbol("hls", &symbol(SymbolKind::Struct, "Foo"))
        .is_none());
    let command = extension
        .language_server_command("hls", Some("/opt/hls".to_string()), vec![])
        .expect("a command");
    assert_eq!(command.args, vec!["lsp".to_string()]);
    let label = extension
        .label_for_symbol("hls", &symbol(SymbolKind::Struct, "Foo"))
        .expect("a label");
    assert_eq!(label.code, "data Foo = A");
    assert!(extension
        .label_for_symbol("static-ls", &symbol(SymbolKind::Struct, "Foo"))
        .is_none());
}

#[test]
fn empty_selection_expands_to_the_cursor_line() {
    let text = "first\nsecond\nthird";
    // Cursor inside "second" (character 9).
    let r = code_range(text, 9, 9);
    assert_eq!(r, LineRange { start: 6, end: 12 });
    // Cursor at the start of the text.
    assert_eq!(code_range(text, 0, 0), LineRange { start: 0, end: 5 });
    // Cursor at the very end.
    assert_eq!(code_range(text, 18, 18), LineRange { start: 13, end: 18 });
}

#[test]
fn nonempty_selection_is_kept_as_is() {
    assert_eq!(code_range("a\nb\nc", 1, 4), LineRange { start: 1, end: 4 });
}

#[test]
fn run_language_requires_one_non_markdown_language() {
    assert_eq!(run_language(Some("python"), Some("python")), Some("python".to_string()));
    assert_eq!(run_language(Some("python"), Some("ruby")), None);
    assert_eq!(run_language(Some("markdown"), Some("markdown")), None);
    assert_eq!(run_language(Some("python"), None), None);
    assert_eq!(run_language(None, None), None);
}

#[test]
fn overlapping_blocks_are_displaced() {
    let mut state = EditorRuntimeState::new();
    state.record_block(EditorRuntimeBlock { code_start: 0, code_end: 5, block_id: 1 });
    state.record_block(EditorRuntimeBlock { code_start: 5, code_end: 9, block_id: 2 });
    state.record_block(EditorRuntimeBlock { code_start: 10, code_end: 20, block_id: 3 });

    // A run over [4, 12) touches the first, second and third blocks.
    assert_eq!(state.blocks_to_remove(4, 12), vec![1, 2, 3]);
    // A run over [5, 9) touches only the second: ranges are half-open.
    assert_eq!(state.blocks_to_remove(5, 9), vec![2]);
    // A run elsewhere touches none.
    assert_eq!(state.blocks_to_remove(20, 25), vec![] as Vec<u64>);
}
