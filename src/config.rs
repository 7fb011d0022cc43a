use vstd::prelude::*;

verus! {

/// One runnable shell command with the label shown for it.
#[derive(Clone, Debug, PartialEq, Eq)]
pub struct CommandOption {
    pub display_name: String,
    pub command: String,
}

/// The stored configuration: the command list and the optional settings.
#[derive(Clone, Debug, PartialEq, Eq)]
pub struct Config {
    pub commands: Vec<CommandOption>,
    /// Path of a sound played when a command runs.
    pub cmd_sound: Option<String>,
    /// Whether the terminal window title is set while browsing.
    pub window_title_support: bool,
    pub window_title: Option<String>,
}

/// A bare list of stored commands.
#[derive(Clone, Debug, PartialEq, Eq)]
pub struct Commands {
    pub commands: Vec<CommandOption>,
}

/// Builds an entry from its two texts.
pub fn command_option(display_name: &str, command: &str) -> (r: CommandOption)
    ensures
        r.display_name@ == display_name@,
        r.command@ == command@,
{
    CommandOption { display_name: String::from_str(display_name), command: String::from_str(command) }
}

impl Default for Config {
    /// The empty configuration: no commands, no sound, no window title.
    fn default() -> (r: Config)
        ensures
            r.commands@.len() == 0,
            r.cmd_sound is None,
            !r.window_title_support,
            r.window_title is None,
    {
        Config { commands: Vec::new(), cmd_sound: None, window_title_support: false, window_title: None }
    }
}

/// The configuration written when no configuration file exists yet: one
/// example command and the window title "CLI_Menu".
pub fn default_config() -> (r: Config)
    ensures
        r.commands@.len() == 1,
        r.commands@[0].display_name@ == "Command 1"@,
        r.commands@[0].command@ == "echo '1'"@,
        r.cmd_sound is None,
        !r.window_title_support,
        r.window_title matches Some(t) && t@ == "CLI_Menu"@,
{
    let mut commands: Vec<CommandOption> = Vec::new();
    commands.push(command_option("Command 1", "echo '1'"));
    Config {
        commands,
        cmd_sound: None,
        window_title_support: false,
        window_title: Some(String::from_str("CLI_Menu")),
    }
}

/// The text with its leading and trailing whitespace removed, as `str::trim`
/// gives it.
pub uninterp spec fn trimmed(s: Seq<char>) -> Seq<char>;

/// Relies on str::trim: the result depends on the text alone.
#[verifier::external_body]
fn trim_text(s: &str) -> (r: String)
    ensures
        r@ == trimmed(s@),
{
    s.trim().to_string()
}

/// The setting that a line of input gives: nothing for an empty line,
/// otherwise the line without surrounding whitespace.
pub open spec fn setting_from_input(input: Seq<char>, value: Option<String>) -> bool {
    if input.len() == 0 {
        value is None
    } else {
        value matches Some(v) && v@ == trimmed(input)
    }
}

fn setting_value(input: &str) -> (r: Option<String>)
    ensures
        setting_from_input(input@, r),
{
    if input.unicode_len() == 0 {
        None
    } else {
        Some(trim_text(input))
    }
}

/// Sets the sound file path from a line of input: an empty line clears it,
/// any other line sets it, without surrounding whitespace.
pub fn edit_cmd_sound(config: &mut Config, changes_made: &mut bool, input: &str)
    ensures
        setting_from_input(input@, final(config).cmd_sound),
        final(config).commands == old(config).commands,
        final(config).window_title_support == old(config).window_title_support,
        final(config).window_title == old(config).window_title,
        *final(changes_made),
{
    config.cmd_sound = setting_value(input);
    *changes_made = true;
}

/// Sets whether the window title is used, and the title from a line of
/// input: an empty line clears it, any other line sets it, without
/// surrounding whitespace.
pub fn edit_window_title(config: &mut Config, changes_made: &mut bool, support: bool, input: &str)
    ensures
        setting_from_input(input@, final(config).window_title),
        final(config).window_title_support == support,
        final(config).commands == old(config).commands,
        final(config).cmd_sound == old(config).cmd_sound,
        *final(changes_made),
{
    config.window_title = setting_value(input);
    config.window_title_support = support;
    *changes_made = true;
}

} // verus!
