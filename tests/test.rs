use shell_command_menu::config::{
    command_option, default_config, edit_cmd_sound, edit_window_title, CommandOption, Config,
};
use shell_command_menu::import::{commands_from_records, ImportError};
use shell_command_menu::menu_edit::{
    add_command, clear_all_commands, delete_command, edit_command, edit_menu_options,
    edit_operation, import_commands, print_commands, reorder_command, return_step, save_step,
    selection_labels, EditError, EditOp, ImportChoice, ReturnStep, SaveAnswer, SaveStep,
};
use shell_command_menu::menu_main::{
    entry_label, generate_menu, label_position, MainAction, MainSession,
};
use shell_command_menu::text::{pad_start, parse_unsigned, strike_through, to_decimal};

fn entry(name: &str, command: &str) -> CommandOption {
    CommandOption {
        display_name: name.to_string(),
        command: command.to_string(),
    }
}

fn config_with(names: &[&str]) -> Config {
    Config {
        commands: names
            .iter()
            .map(|n| entry(n, &format!("echo {}", n)))
            .collect(),
        ..Default::default()
    }
}

fn names(config: &Config) -> Vec<String> {
    config
        .commands
        .iter()
        .map(|c| c.display_name.clone())
        .collect()
}

#[test]
fn menu_generate_menu_strikes_selected() {
    let commands = vec![
        CommandOption {
            display_name: "One".into(),
            command: "echo 1".into(),
        },
        CommandOption {
            display_name: "Two".into(),
            command: "echo 2".into(),
        },
    ];

    let rendered = generate_menu(&commands, &[2]);
    assert_eq!(rendered.len(), 2);
    assert_eq!(rendered[0], "1. One");
    assert_eq!(rendered[1], "2. T\u{0336}w\u{0336}o\u{0336}");
}

#[test]
fn menu_edit_clear_all_commands() {
    let mut config = Config {
        commands: vec![
            CommandOption {
                display_name: "A".into(),
                command: "echo a".into(),
            },
            CommandOption {
                display_name: "B".into(),
                command: "echo b".into(),
            },
        ],
        ..Default::default()
    };
    let mut changed = false;

    clear_all_commands(&mut config, &mut changed);

    assert!(config.commands.is_empty());
    assert!(changed);
}

#[test]
fn default_config_is_empty() {
    let config = Config::default();
    assert!(config.commands.is_empty());
    assert_eq!(config.cmd_sound, None);
    assert!(!config.window_title_support);
    assert_eq!(config.window_title, None);
}

#[test]
fn seed_config_has_one_entry() {
    let config = default_config();
    assert_eq!(config.commands.len(), 1);
    assert_eq!(config.commands[0].display_name, "Command 1");
    assert_eq!(config.commands[0].command, "echo '1'");
    assert_eq!(config.window_title, Some("CLI_Menu".to_string()));
    let built = command_option("A", "b");
    assert_eq!(built, entry("A", "b"));
}

#[test]
fn generate_menu_pads_numbers_to_list_length() {
    let names: Vec<String> = (1..=10).map(|i| format!("n{}", i)).collect();
    let commands: Vec<CommandOption> = names.iter().map(|n| entry(n, "x")).collect();
    let rendered = generate_menu(&commands, &[]);
    assert_eq!(rendered.len(), 10);
    assert_eq!(rendered[0], " 1. n1");
    assert_eq!(rendered[8], " 9. n9");
    assert_eq!(rendered[9], "10. n10");
    for label in &rendered {
        assert_eq!(label.find('.'), Some(2));
    }
}

#[test]
fn generate_menu_empty_list() {
    assert!(generate_menu(&[], &[1]).is_empty());
}

#[test]
fn strike_marks_each_character() {
    let marked = strike_through("abc");
    assert_eq!(marked, "a\u{0336}b\u{0336}c\u{0336}");
    assert_eq!(marked.chars().filter(|c| *c == '\u{0336}').count(), 3);
    assert_eq!(strike_through(""), "");
    assert_eq!(entry_label(4, 1, "abc", false), "4. abc");
    assert_eq!(entry_label(4, 3, "ab", true), "  4. a\u{0336}b\u{0336}");
}

#[test]
fn decimal_and_padding() {
    assert_eq!(to_decimal(0), "0");
    assert_eq!(to_decimal(7), "7");
    assert_eq!(to_decimal(1203), "1203");
    assert_eq!(to_decimal(usize::MAX), usize::MAX.to_string());
    assert_eq!(pad_start("7", 3), "  7");
    assert_eq!(pad_start("123", 2), "123");
}

#[test]
fn parse_unsigned_follows_usize_parsing() {
    assert_eq!(parse_unsigned("42"), Some(42));
    assert_eq!(parse_unsigned("+42"), Some(42));
    assert_eq!(parse_unsigned("007"), Some(7));
    assert_eq!(parse_unsigned(""), None);
    assert_eq!(parse_unsigned("+"), None);
    assert_eq!(parse_unsigned("-1"), None);
    assert_eq!(parse_unsigned("4 2"), None);
    assert_eq!(parse_unsigned("18446744073709551615"), Some(usize::MAX));
    assert_eq!(parse_unsigned("18446744073709551616"), None);
    assert_eq!(parse_unsigned("99999999999999999999x"), None);
}

#[test]
fn label_position_reads_leading_number() {
    assert_eq!(label_position("3. Build"), Some(3));
    assert_eq!(label_position(" 9. n9"), Some(9));
    assert_eq!(label_position("2. T\u{0336}w\u{0336}o\u{0336}"), Some(2));
    assert_eq!(label_position("12"), Some(12));
    assert_eq!(label_position("e. EDIT Commands"), None);
    assert_eq!(label_position(". x"), None);
}

#[test]
fn rendered_labels_read_back_as_positions() {
    let commands: Vec<CommandOption> = (0..12).map(|i| entry(&format!("v{}.{}", i, i), "x")).collect();
    let rendered = generate_menu(&commands, &[3, 11]);
    for (i, label) in rendered.iter().enumerate() {
        assert_eq!(label_position(label), Some(i + 1));
    }
}

#[test]
fn main_session_runs_and_remembers_selection() {
    let commands = vec![entry("One", "echo 1"), entry("Two", "echo 2")];
    let mut session = MainSession::new();
    assert!(session.selected.is_empty());
    assert_eq!(session.last_selected, None);

    let options = session.menu_options(&commands);
    assert_eq!(options, vec!["1. One", "2. Two", "e. EDIT Commands", "q. EXIT"]);

    assert_eq!(session.handle_choice("2. Two", &commands), MainAction::Run(1));
    assert_eq!(session.selected, vec![2]);
    assert_eq!(session.last_selected, Some(1));
    let options = session.menu_options(&commands);
    assert_eq!(options[0], "1. One");
    assert_eq!(options[1], "2. T\u{0336}w\u{0336}o\u{0336}");
}

#[test]
fn main_session_invalid_and_exit() {
    let commands = vec![entry("One", "echo 1")];
    let mut session = MainSession::new();
    assert_eq!(session.handle_choice("5. Gone", &commands), MainAction::Invalid);
    assert_eq!(session.handle_choice("0. Zero", &commands), MainAction::Invalid);
    assert_eq!(session.handle_choice("hello", &commands), MainAction::Invalid);
    assert!(session.selected.is_empty());
    assert_eq!(session.handle_choice("q. EXIT", &commands), MainAction::Exit);
}

#[test]
fn main_session_edit_clears_selection() {
    let commands = vec![entry("One", "echo 1"), entry("Two", "echo 2")];
    let mut session = MainSession::new();
    session.handle_choice("1. One", &commands);
    assert_eq!(session.handle_choice("e. EDIT Commands", &commands), MainAction::Edit);
    assert!(session.selected.is_empty());
    assert_eq!(session.last_selected, None);
    session.handle_choice("2. Two", &commands);
    session.editor_returned();
    assert!(session.selected.is_empty());
    assert_eq!(session.last_selected, None);
    session.handle_choice("2. Two", &commands);
    session.clear_selection();
    assert!(session.selected.is_empty());
}

#[test]
fn add_then_render_one_item() {
    let mut config = Config::default();
    let mut changed = false;
    add_command(&mut config, &mut changed, "List Files".to_string(), "ls -la".to_string());
    assert!(changed);
    assert_eq!(config.commands, vec![entry("List Files", "ls -la")]);
    assert_eq!(generate_menu(&config.commands, &[]), vec!["1. List Files"]);
}

#[test]
fn edit_command_replaces_entry() {
    let mut config = config_with(&["A", "B"]);
    let mut changed = false;
    let r = edit_command(&mut config, &mut changed, 2, "C".to_string(), "echo c".to_string());
    assert_eq!(r, Ok(()));
    assert!(changed);
    assert_eq!(config.commands[1], entry("C", "echo c"));
    assert_eq!(config.commands[0], entry("A", "echo A"));
}

#[test]
fn edit_command_errors() {
    let mut empty = Config::default();
    let mut changed = false;
    assert_eq!(
        edit_command(&mut empty, &mut changed, 1, "x".to_string(), "y".to_string()),
        Err(EditError::NoCommands)
    );
    let mut config = config_with(&["A"]);
    assert_eq!(
        edit_command(&mut config, &mut changed, 2, "x".to_string(), "y".to_string()),
        Err(EditError::InvalidSelection)
    );
    assert!(!changed);
    assert_eq!(names(&config), vec!["A"]);
}

#[test]
fn reorder_moves_by_remove_and_insert() {
    let mut config = config_with(&["A", "B", "C", "D"]);
    let mut changed = false;
    assert_eq!(reorder_command(&mut config, &mut changed, 1, "3"), Ok(()));
    assert_eq!(names(&config), vec!["B", "C", "A", "D"]);
    assert!(changed);
    assert_eq!(reorder_command(&mut config, &mut changed, 4, "1"), Ok(()));
    assert_eq!(names(&config), vec!["D", "B", "C", "A"]);
}

#[test]
fn reorder_out_of_range_changes_nothing() {
    let mut config = config_with(&["A", "B", "C"]);
    let before = config.clone();
    let mut changed = false;
    assert_eq!(
        reorder_command(&mut config, &mut changed, 1, "4"),
        Err(EditError::InvalidPosition)
    );
    assert_eq!(
        reorder_command(&mut config, &mut changed, 1, "0"),
        Err(EditError::InvalidPosition)
    );
    assert_eq!(config, before);
    assert!(!changed);
    assert_eq!(
        reorder_command(&mut config, &mut changed, 9, "1"),
        Err(EditError::InvalidSelection)
    );
    let mut empty = Config::default();
    assert_eq!(
        reorder_command(&mut empty, &mut changed, 1, "1"),
        Err(EditError::NoCommands)
    );
}

#[test]
fn reorder_unreadable_target_is_rejected() {
    let mut config = config_with(&["A", "B", "C"]);
    let before = config.clone();
    let mut changed = false;
    assert_eq!(
        reorder_command(&mut config, &mut changed, 2, "two"),
        Err(EditError::InvalidSelection)
    );
    assert_eq!(
        reorder_command(&mut config, &mut changed, 2, "99999999999999999999999"),
        Err(EditError::InvalidSelection)
    );
    assert_eq!(config, before);
    assert!(!changed);
}

#[test]
fn load_failure_opens_empty_editor() {
    let commands = vec![entry("One", "echo 1")];
    let mut session = MainSession::new();
    session.handle_choice("1. One", &commands);
    let config = session.load_failed();
    assert!(config.commands.is_empty());
    assert_eq!(config.cmd_sound, None);
    assert!(session.selected.is_empty());
    assert_eq!(session.last_selected, None);
}

#[test]
fn delete_renumbers_remaining() {
    let mut config = config_with(&["A", "B", "C"]);
    let mut changed = false;
    let removed = delete_command(&mut config, &mut changed, 2);
    assert_eq!(removed, Ok(entry("B", "echo B")));
    assert!(changed);
    assert_eq!(names(&config), vec!["A", "C"]);
    assert_eq!(generate_menu(&config.commands, &[]), vec!["1. A", "2. C"]);
}

#[test]
fn delete_errors() {
    let mut config = config_with(&["A"]);
    let mut changed = false;
    assert_eq!(
        delete_command(&mut config, &mut changed, 0),
        Err(EditError::InvalidSelection)
    );
    let mut empty = Config::default();
    assert_eq!(
        delete_command(&mut empty, &mut changed, 1),
        Err(EditError::NoCommands)
    );
    assert!(!changed);
}

#[test]
fn selection_labels_are_unpadded() {
    let config = config_with(&["a", "b", "c", "d", "e", "f", "g", "h", "i", "j"]);
    let labels = selection_labels(&config.commands);
    assert_eq!(labels[0], "1. a");
    assert_eq!(labels[9], "10. j");
}

#[test]
fn command_table_rows() {
    let commands = vec![entry("List Files", "ls -la"), entry("Build", "cargo build")];
    let table = print_commands(&commands, 90);
    assert_eq!(table.total_line, "2 total commands:");
    assert_eq!(table.rows.len(), 2);
    assert_eq!(table.rows[0].number, "1");
    assert_eq!(table.rows[0].display_name, "List Files");
    assert_eq!(table.rows[1].command, "cargo build");
    let narrow = print_commands(&commands, 21);
    assert_eq!(narrow.rows[0].display_name, "List\nFiles");
    assert_eq!(narrow.rows[1].command, "cargo build");
    assert_eq!(print_commands(&[], 80).total_line, "0 total commands:");
}

#[test]
fn import_append_overwrite_cancel() {
    let imported = vec![entry("X", "echo x"), entry("Y", "echo y")];
    let mut config = config_with(&["A"]);
    let mut changed = false;
    import_commands(&mut config, &mut changed, imported.clone(), ImportChoice::Append);
    assert_eq!(names(&config), vec!["A", "X", "Y"]);
    assert!(changed);

    let mut config = config_with(&["A"]);
    let mut changed = false;
    import_commands(&mut config, &mut changed, imported.clone(), ImportChoice::Overwrite);
    assert_eq!(names(&config), vec!["X", "Y"]);
    assert!(changed);

    let mut config = config_with(&["A"]);
    let mut changed = false;
    import_commands(&mut config, &mut changed, imported, ImportChoice::Cancel);
    assert_eq!(names(&config), vec!["A"]);
    assert!(!changed);
}

fn strings(items: &[&str]) -> Vec<String> {
    items.iter().map(|s| s.to_string()).collect()
}

#[test]
fn records_become_entries() {
    let header = strings(&["display_name", "command"]);
    let records = vec![strings(&["List Files", "ls -la"]), strings(&["Up", "uptime"])];
    let entries = commands_from_records(&header, &records).unwrap();
    assert_eq!(entries, vec![entry("List Files", "ls -la"), entry("Up", "uptime")]);
    assert_eq!(commands_from_records(&header, &vec![]), Ok(vec![]));
}

#[test]
fn records_errors() {
    let records = vec![strings(&["a", "b"])];
    assert_eq!(
        commands_from_records(&strings(&["command", "display_name"]), &records),
        Err(ImportError::BadHeader)
    );
    assert_eq!(
        commands_from_records(&strings(&["display_name"]), &records),
        Err(ImportError::BadHeader)
    );
    let header = strings(&["display_name", "command"]);
    let bad = vec![strings(&["a", "b"]), strings(&["c"]), strings(&["d", "e", "f"])];
    assert_eq!(commands_from_records(&header, &bad), Err(ImportError::BadRecord(1)));
}

#[test]
fn sound_setting_from_input() {
    let mut config = config_with(&["A"]);
    let mut changed = false;
    edit_cmd_sound(&mut config, &mut changed, "  /tmp/ding.wav \n");
    assert_eq!(config.cmd_sound, Some("/tmp/ding.wav".to_string()));
    assert!(changed);
    edit_cmd_sound(&mut config, &mut changed, "");
    assert_eq!(config.cmd_sound, None);
    edit_cmd_sound(&mut config, &mut changed, "   ");
    assert_eq!(config.cmd_sound, Some(String::new()));
    assert_eq!(names(&config), vec!["A"]);
}

#[test]
fn window_title_setting_from_input() {
    let mut config = Config::default();
    let mut changed = false;
    edit_window_title(&mut config, &mut changed, true, " My Menu ");
    assert_eq!(config.window_title, Some("My Menu".to_string()));
    assert!(config.window_title_support);
    assert!(changed);
    edit_window_title(&mut config, &mut changed, false, "");
    assert_eq!(config.window_title, None);
    assert!(!config.window_title_support);
}

#[test]
fn editor_menu_labels_map_to_operations() {
    let options = edit_menu_options();
    assert_eq!(options.len(), 9);
    let ops: Vec<EditOp> = options.iter().map(|o| edit_operation(o).unwrap()).collect();
    assert_eq!(
        ops,
        vec![
            EditOp::Add,
            EditOp::Edit,
            EditOp::Reorder,
            EditOp::Delete,
            EditOp::Reset,
            EditOp::Import,
            EditOp::SetSound,
            EditOp::SetTitle,
            EditOp::Return,
        ]
    );
    assert_eq!(edit_operation("x. nothing"), None);
}

#[test]
fn editor_return_and_save_decisions() {
    assert_eq!(return_step(false), ReturnStep::Leave);
    assert_eq!(return_step(true), ReturnStep::AskToSave);
    assert_eq!(save_step(SaveAnswer::Yes, true), SaveStep::Save);
    assert_eq!(save_step(SaveAnswer::Yes, false), SaveStep::Stay);
    assert_eq!(save_step(SaveAnswer::No, true), SaveStep::Discard);
    assert_eq!(save_step(SaveAnswer::Cancelled, true), SaveStep::Stay);
}

#[test]
fn csv_import_appends_in_file_order() {
    let header = strings(&["display_name", "command"]);
    let records = vec![strings(&["List Files", "ls -la"]), strings(&["Disk", "df -h"])];
    let imported = commands_from_records(&header, &records).unwrap();
    let mut config = config_with(&["Existing"]);
    let mut changed = false;
    import_commands(&mut config, &mut changed, imported, ImportChoice::Append);
    assert_eq!(config.commands.len(), 3);
    assert_eq!(names(&config), vec!["Existing", "List Files", "Disk"]);
    assert_eq!(config.commands[2].command, "df -h");
}
