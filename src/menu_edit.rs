//! The editor's operations on the configuration. Each one either applies
//! completely and marks the configuration changed, or leaves it as it was.
use crate::config::{CommandOption, Config};
use crate::menu_main::{label_number, lemma_label_number, menu_label, menu_labels, number_width};
use crate::text::decimal;
use vstd::prelude::*;

verus! {

/// Why an editor operation made no change.
#[derive(Clone, Copy, Debug, PartialEq, Eq)]
pub enum EditError {
    /// The list is empty.
    NoCommands,
    /// The chosen position names no entry.
    InvalidSelection,
    /// The target position of a move is outside the list.
    InvalidPosition,
}

/// Whether two configurations have the same sound and window title settings.
pub open spec fn same_settings(a: Config, b: Config) -> bool {
    &&& a.cmd_sound == b.cmd_sound
    &&& a.window_title_support == b.window_title_support
    &&& a.window_title == b.window_title
}

/// The error for choosing `position` in a list of `len` entries, if any.
pub open spec fn selection_error(len: nat, position: nat) -> Option<EditError> {
    if len == 0 {
        Some(EditError::NoCommands)
    } else if position < 1 || position > len {
        Some(EditError::InvalidSelection)
    } else {
        None
    }
}

/// `s` with the element at index `from` taken out and put back at index `to`.
pub open spec fn moved<T>(s: Seq<T>, from: int, to: int) -> Seq<T> {
    s.remove(from).insert(to, s[from])
}

fn check_selection(len: usize, position: usize) -> (r: Result<(), EditError>)
    ensures
        r is Ok <==> selection_error(len as nat, position as nat) is None,
        r matches Err(e) ==> selection_error(len as nat, position as nat) == Some(e),
{
    if len == 0 {
        Err(EditError::NoCommands)
    } else if position < 1 || position > len {
        Err(EditError::InvalidSelection)
    } else {
        Ok(())
    }
}

/// Appends a new entry.
pub fn add_command(
    config: &mut Config,
    changes_made: &mut bool,
    display_name: String,
    command: String,
)
    ensures
        final(config).commands@ == old(config).commands@.push(
            CommandOption { display_name, command },
        ),
        same_settings(*final(config), *old(config)),
        *final(changes_made),
{
    config.commands.push(CommandOption { display_name, command });
    *changes_made = true;
}

/// Replaces the entry at `position` (1-based).
pub fn edit_command(
    config: &mut Config,
    changes_made: &mut bool,
    position: usize,
    display_name: String,
    command: String,
) -> (r: Result<(), EditError>)
    ensures
        r is Err <==> selection_error(old(config).commands@.len(), position as nat) is Some,
        r matches Err(e) ==> selection_error(old(config).commands@.len(), position as nat) == Some(e),
        r is Ok ==> final(config).commands@ == old(config).commands@.update(
            position - 1,
            CommandOption { display_name, command },
        ) && *final(changes_made),
        r is Err ==> *final(config) == *old(config) && *final(changes_made) == *old(changes_made),
        same_settings(*final(config), *old(config)),
{
    match check_selection(config.commands.len(), position) {
        Err(e) => Err(e),
        Ok(()) => {
            config.commands.set(position - 1, CommandOption { display_name, command });
            *changes_made = true;
            Ok(())
        },
    }
}

/// The target that a move reads from `target`: its number, or `None` when
/// the text is not a number that fits in `usize`.
pub open spec fn target_position(target: Seq<char>) -> Option<nat> {
    match crate::text::unsigned_value(target) {
        Some(v) => if v <= usize::MAX {
            Some(v)
        } else {
            None
        },
        None => None,
    }
}

/// How a move of the entry at `position` to `target` in a list of `len`
/// entries ends: a target that is no number is an invalid choice, a number
/// outside the list an invalid position.
pub open spec fn reorder_outcome(
    len: nat,
    position: nat,
    target: Option<nat>,
) -> Result<(), EditError> {
    match selection_error(len, position) {
        Some(e) => Err(e),
        None => match target {
            None => Err(EditError::InvalidSelection),
            Some(t) => if 1 <= t <= len {
                Ok(())
            } else {
                Err(EditError::InvalidPosition)
            },
        },
    }
}

/// Moves the entry at `position` to `target` (both 1-based): it is taken out
/// and put back so that it ends at `target`; the entries between shift. The
/// target is read from text as a number; text that is not such a number is
/// rejected as an invalid choice, and nothing changes.
pub fn reorder_command(
    config: &mut Config,
    changes_made: &mut bool,
    position: usize,
    target: &str,
) -> (r: Result<(), EditError>)
    ensures
        r == reorder_outcome(
            old(config).commands@.len(),
            position as nat,
            target_position(target@),
        ),
        r is Ok ==> final(config).commands@ == moved(
            old(config).commands@,
            position - 1,
            target_position(target@)->0 - 1,
        ) && *final(changes_made),
        r is Err ==> *final(config) == *old(config) && *final(changes_made) == *old(changes_made),
        same_settings(*final(config), *old(config)),
{
    let len = config.commands.len();
    match check_selection(len, position) {
        Err(e) => Err(e),
        Ok(()) => {
            let t = match crate::text::parse_unsigned(target) {
                Some(v) => v,
                None => {
                    return Err(EditError::InvalidSelection);
                },
            };
            if t >= 1 && t <= len {
                let entry = config.commands.remove(position - 1);
                config.commands.insert(t - 1, entry);
                *changes_made = true;
                Ok(())
            } else {
                Err(EditError::InvalidPosition)
            }
        },
    }
}

/// Removes the entry at `position` (1-based) and hands it back.
pub fn delete_command(
    config: &mut Config,
    changes_made: &mut bool,
    position: usize,
) -> (r: Result<CommandOption, EditError>)
    ensures
        r is Err <==> selection_error(old(config).commands@.len(), position as nat) is Some,
        r matches Err(e) ==> selection_error(old(config).commands@.len(), position as nat) == Some(e),
        r matches Ok(c) ==> {
            &&& c == old(config).commands@[position - 1]
            &&& final(config).commands@ == old(config).commands@.remove(position - 1)
            &&& *final(changes_made)
        },
        r is Err ==> *final(config) == *old(config) && *final(changes_made) == *old(changes_made),
        same_settings(*final(config), *old(config)),
{
    match check_selection(config.commands.len(), position) {
        Err(e) => Err(e),
        Ok(()) => {
            let removed = config.commands.remove(position - 1);
            *changes_made = true;
            Ok(removed)
        },
    }
}

/// Removes every entry.
pub fn clear_all_commands(config: &mut Config, changes_made: &mut bool)
    ensures
        final(config).commands@.len() == 0,
        same_settings(*final(config), *old(config)),
        *final(changes_made),
{
    config.commands.clear();
    *changes_made = true;
}

/// After the entry at `position` is deleted from a list, the labels of what
/// remains carry the position numbers 1 to n-1, in order, with no gap.
pub proof fn lemma_delete_renumbers(commands: Seq<CommandOption>, position: nat, selected: Seq<usize>)
    requires
        1 <= position <= commands.len(),
    ensures
        ({
            let rest = commands.remove(position - 1);
            let labels = menu_labels(rest, selected);
            &&& labels.len() == commands.len() - 1
            &&& forall|i: int| 0 <= i < labels.len() ==> label_number(#[trigger] labels[i]) == Some((i + 1) as nat)
        }),
{
    let rest = commands.remove(position - 1);
    let labels = menu_labels(rest, selected);
    assert forall|i: int| 0 <= i < labels.len() implies label_number(#[trigger] labels[i]) == Some(
        (i + 1) as nat,
    ) by {
        lemma_label_number(
            (i + 1) as nat,
            number_width(rest.len()),
            rest[i].display_name@,
            selected.contains((i + 1) as usize),
        );
    }
}

/// The choices offered when an entry is to be picked: "{position}. {name}"
/// for each entry, in list order.
pub fn selection_labels(commands: &[CommandOption]) -> (r: Vec<String>)
    ensures
        r@.len() == commands@.len(),
        forall|i: int|
            0 <= i < r@.len() ==> #[trigger] r@[i]@ == menu_label(
                (i + 1) as nat,
                0,
                commands@[i].display_name@,
                false,
            ),
{
    let mut labels: Vec<String> = Vec::new();
    let mut i: usize = 0;
    while i < commands.len()
        invariant
            i <= commands@.len(),
            labels@.len() == i,
            forall|j: int|
                0 <= j < i ==> #[trigger] labels@[j]@ == menu_label(
                    (j + 1) as nat,
                    0,
                    commands@[j].display_name@,
                    false,
                ),
        decreases commands@.len() - i,
    {
        labels.push(
            crate::menu_main::entry_label(i + 1, 0, commands[i].display_name.as_str(), false),
        );
        i = i + 1;
    }
    labels
}

/// The text of `text` wrapped to lines of at most `width` columns, as
/// textwrap's `fill` gives it.
pub uninterp spec fn filled(text: Seq<char>, width: nat) -> Seq<char>;

/// Relies on textwrap::fill: the wrapped text depends on the text and the
/// width alone.
#[verifier::external_body]
fn wrap_text(text: &str, width: usize) -> (r: String)
    ensures
        r@ == filled(text@, width as nat),
{
    textwrap::fill(text, width)
}

/// One row of the command table.
#[derive(Clone, Debug, PartialEq, Eq)]
pub struct TableRow {
    pub number: String,
    pub display_name: String,
    pub command: String,
}

/// What the listing of the commands shows: a line with their count, and a
/// table row for each entry.
#[derive(Clone, Debug, PartialEq, Eq)]
pub struct CommandTable {
    pub total_line: String,
    pub rows: Vec<TableRow>,
}

/// Builds the listing of `commands` for a terminal `terminal_width` columns
/// wide: the names are wrapped to a third of the width and the commands to
/// two thirds.
pub fn print_commands(commands: &[CommandOption], terminal_width: usize) -> (r: CommandTable)
    ensures
        r.total_line@ == decimal(commands@.len() as nat) + " total commands:"@,
        r.rows@.len() == commands@.len(),
        forall|i: int|
            0 <= i < r.rows@.len() ==> {
                &&& (#[trigger] r.rows@[i]).number@ == decimal((i + 1) as nat)
                &&& r.rows@[i].display_name@ == filled(
                    commands@[i].display_name@,
                    (terminal_width / 3) as nat,
                )
                &&& r.rows@[i].command@ == filled(
                    commands@[i].command@,
                    (terminal_width / 3 * 2) as nat,
                )
            },
{
    let total_line = crate::text::to_decimal(commands.len()).concat(" total commands:");
    let name_width = terminal_width / 3;
    let command_width = name_width * 2;
    let mut rows: Vec<TableRow> = Vec::new();
    let mut i: usize = 0;
    while i < commands.len()
        invariant
            i <= commands@.len(),
            name_width == terminal_width / 3,
            command_width == terminal_width / 3 * 2,
            rows@.len() == i,
            forall|j: int|
                0 <= j < i ==> {
                    &&& (#[trigger] rows@[j]).number@ == decimal((j + 1) as nat)
                    &&& rows@[j].display_name@ == filled(commands@[j].display_name@, name_width as nat)
                    &&& rows@[j].command@ == filled(commands@[j].command@, command_width as nat)
                },
        decreases commands@.len() - i,
    {
        let row = TableRow {
            number: crate::text::to_decimal(i + 1),
            display_name: wrap_text(commands[i].display_name.as_str(), name_width),
            command: wrap_text(commands[i].command.as_str(), command_width),
        };
        rows.push(row);
        i = i + 1;
    }
    CommandTable { total_line, rows }
}

/// What to do with commands read for import.
#[derive(Clone, Copy, Debug, PartialEq, Eq)]
pub enum ImportChoice {
    /// Add them after the current entries.
    Append,
    /// Put them in place of the current entries.
    Overwrite,
    /// Leave the list as it is.
    Cancel,
}

/// Applies imported entries to the list as `choice` says.
pub fn import_commands(
    config: &mut Config,
    changes_made: &mut bool,
    imported: Vec<CommandOption>,
    choice: ImportChoice,
)
    ensures
        same_settings(*final(config), *old(config)),
        choice == ImportChoice::Append ==> final(config).commands@ == old(config).commands@
            + imported@ && *final(changes_made),
        choice == ImportChoice::Overwrite ==> final(config).commands@ == imported@
            && *final(changes_made),
        choice == ImportChoice::Cancel ==> *final(config) == *old(config) && *final(changes_made)
            == *old(changes_made),
{
    let mut imported = imported;
    match choice {
        ImportChoice::Append => {
            config.commands.append(&mut imported);
            *changes_made = true;
        },
        ImportChoice::Overwrite => {
            config.commands = imported;
            *changes_made = true;
        },
        ImportChoice::Cancel => {},
    }
}

/// The operations of the editor menu.
#[derive(Clone, Copy, Debug, PartialEq, Eq)]
pub enum EditOp {
    /// Add an entry.
    Add,
    /// Replace an entry.
    Edit,
    /// Move an entry.
    Reorder,
    /// Remove an entry.
    Delete,
    /// Remove every entry.
    Reset,
    /// Read entries from a CSV file.
    Import,
    /// Set the sound file.
    SetSound,
    /// Set the window title settings.
    SetTitle,
    /// Go back to the main menu.
    Return,
}

/// The label of an operation in the editor menu.
pub open spec fn edit_op_label(op: EditOp) -> Seq<char> {
    match op {
        EditOp::Add => "a. ADD a new command"@,
        EditOp::Edit => "e. EDIT a command"@,
        EditOp::Reorder => "o. REORDER a command"@,
        EditOp::Delete => "d. DELETE a command"@,
        EditOp::Reset => "r. RESET (clear all commands)"@,
        EditOp::Import => "i. IMPORT from .csv"@,
        EditOp::SetSound => "s. SET sound file path"@,
        EditOp::SetTitle => "t. SET Window Title settings"@,
        EditOp::Return => "q. Return to Main Menu (prompt to save changes)"@,
    }
}

/// The order of the operations in the editor menu.
pub open spec fn edit_ops() -> Seq<EditOp> {
    seq![
        EditOp::Add,
        EditOp::Edit,
        EditOp::Reorder,
        EditOp::Delete,
        EditOp::Reset,
        EditOp::Import,
        EditOp::SetSound,
        EditOp::SetTitle,
        EditOp::Return,
    ]
}

/// The labels of the editor menu, in order.
pub fn edit_menu_options() -> (r: Vec<String>)
    ensures
        r@.len() == edit_ops().len(),
        forall|i: int| 0 <= i < r@.len() ==> #[trigger] r@[i]@ == edit_op_label(edit_ops()[i]),
{
    let mut options: Vec<String> = Vec::new();
    options.push(String::from_str("a. ADD a new command"));
    options.push(String::from_str("e. EDIT a command"));
    options.push(String::from_str("o. REORDER a command"));
    options.push(String::from_str("d. DELETE a command"));
    options.push(String::from_str("r. RESET (clear all commands)"));
    options.push(String::from_str("i. IMPORT from .csv"));
    options.push(String::from_str("s. SET sound file path"));
    options.push(String::from_str("t. SET Window Title settings"));
    options.push(String::from_str("q. Return to Main Menu (prompt to save changes)"));
    options
}

/// The operation whose label is `choice`, if any.
pub fn edit_operation(choice: &str) -> (r: Option<EditOp>)
    ensures
        r matches Some(op) ==> choice@ == edit_op_label(op),
        r is None ==> forall|op: EditOp| choice@ != edit_op_label(op),
{
    if crate::menu_main::same_text(choice, "a. ADD a new command") {
        return Some(EditOp::Add);
    }
    if crate::menu_main::same_text(choice, "e. EDIT a command") {
        return Some(EditOp::Edit);
    }
    if crate::menu_main::same_text(choice, "o. REORDER a command") {
        return Some(EditOp::Reorder);
    }
    if crate::menu_main::same_text(choice, "d. DELETE a command") {
        return Some(EditOp::Delete);
    }
    if crate::menu_main::same_text(choice, "r. RESET (clear all commands)") {
        return Some(EditOp::Reset);
    }
    if crate::menu_main::same_text(choice, "i. IMPORT from .csv") {
        return Some(EditOp::Import);
    }
    if crate::menu_main::same_text(choice, "s. SET sound file path") {
        return Some(EditOp::SetSound);
    }
    if crate::menu_main::same_text(choice, "t. SET Window Title settings") {
        return Some(EditOp::SetTitle);
    }
    if crate::menu_main::same_text(choice, "q. Return to Main Menu (prompt to save changes)") {
        return Some(EditOp::Return);
    }
    None
}

/// How the editor answers a request to go back to the main menu.
#[derive(Clone, Copy, Debug, PartialEq, Eq)]
pub enum ReturnStep {
    /// Nothing was changed: go back.
    Leave,
    /// Ask whether to save the changes first.
    AskToSave,
}

/// The answer to "save changes?".
#[derive(Clone, Copy, Debug, PartialEq, Eq)]
pub enum SaveAnswer {
    Yes,
    No,
    Cancelled,
}

/// What follows an answer to "save changes?".
#[derive(Clone, Copy, Debug, PartialEq, Eq)]
pub enum SaveStep {
    /// Write the configuration, then go back.
    Save,
    /// Go back without writing; the changes are dropped.
    Discard,
    /// Stay in the editor.
    Stay,
}

/// The editor asks about saving only when something was changed.
pub fn return_step(changes_made: bool) -> (r: ReturnStep)
    ensures
        r == (if changes_made {
            ReturnStep::AskToSave
        } else {
            ReturnStep::Leave
        }),
{
    if changes_made {
        ReturnStep::AskToSave
    } else {
        ReturnStep::Leave
    }
}

/// "Yes" saves a configuration that can be written and stays in the editor
/// otherwise; "No" goes back without saving; a cancelled prompt stays.
pub fn save_step(answer: SaveAnswer, valid: bool) -> (r: SaveStep)
    ensures
        r == (match answer {
            SaveAnswer::Yes => if valid {
                SaveStep::Save
            } else {
                SaveStep::Stay
            },
            SaveAnswer::No => SaveStep::Discard,
            SaveAnswer::Cancelled => SaveStep::Stay,
        }),
{
    match answer {
        SaveAnswer::Yes => if valid {
            SaveStep::Save
        } else {
            SaveStep::Stay
        },
        SaveAnswer::No => SaveStep::Discard,
        SaveAnswer::Cancelled => SaveStep::Stay,
    }
}

} // verus!
