//! The main menu: the labels it shows and the decisions of the browsing
//! session between one pick and the next.
use crate::config::{CommandOption, Config};
use crate::text::{
    decimal, lemma_decimal, pad_left, pad_start, parse_unsigned, strike_through, struck,
    to_decimal, unsigned_value,
};
use vstd::prelude::*;

verus! {

/// The text that separates a position number from the name in a label.
pub open spec fn separator() -> Seq<char> {
    seq!['.', ' ']
}

/// Width of the position numbers of a list of `n` entries: the number of
/// digits of `n`.
pub open spec fn number_width(n: nat) -> nat {
    decimal(n).len()
}

/// The label of the entry at `position` (1-based): the position number
/// right-aligned to `width`, then ". ", then the name, struck through when
/// the entry was already run.
pub open spec fn menu_label(position: nat, width: nat, name: Seq<char>, selected: bool) -> Seq<
    char,
> {
    pad_left(decimal(position), width) + separator() + if selected {
        struck(name)
    } else {
        name
    }
}

/// The labels of all entries of `commands`, with `selected` the position
/// numbers already run.
pub open spec fn menu_labels(commands: Seq<CommandOption>, selected: Seq<usize>) -> Seq<Seq<char>> {
    Seq::new(
        commands.len(),
        |i: int|
            menu_label(
                (i + 1) as nat,
                number_width(commands.len()),
                commands[i].display_name@,
                selected.contains((i + 1) as usize),
            ),
    )
}

/// Whether `position` is among `selected`.
fn contains_position(selected: &[usize], position: usize) -> (r: bool)
    ensures
        r == selected@.contains(position),
{
    let mut i: usize = 0;
    while i < selected.len()
        invariant
            i <= selected@.len(),
            forall|j: int| 0 <= j < i ==> selected@[j] != position,
        decreases selected@.len() - i,
    {
        if selected[i] == position {
            return true;
        }
        i = i + 1;
    }
    false
}

/// The label of one entry.
pub fn entry_label(position: usize, width: usize, name: &str, selected: bool) -> (r: String)
    ensures
        r@ == menu_label(position as nat, width as nat, name@, selected),
{
    let number = to_decimal(position);
    let padded = pad_start(number.as_str(), width);
    proof {
        reveal_strlit(". ");
    }
    let with_separator = padded.concat(". ");
    if selected {
        let marked = strike_through(name);
        with_separator.concat(marked.as_str())
    } else {
        with_separator.concat(name)
    }
}

/// The menu labels of `commands`, in list order: position numbers padded to
/// a common width, names of the positions in `selected` struck through.
pub fn generate_menu(commands: &[CommandOption], selected_commands: &[usize]) -> (r: Vec<String>)
    ensures
        r@.len() == commands@.len(),
        forall|i: int|
            0 <= i < r@.len() ==> #[trigger] r@[i]@ == menu_labels(commands@, selected_commands@)[i],
{
    let width = to_decimal(commands.len()).as_str().unicode_len();
    let mut labels: Vec<String> = Vec::new();
    let mut i: usize = 0;
    while i < commands.len()
        invariant
            i <= commands@.len(),
            width == number_width(commands@.len() as nat),
            labels@.len() == i,
            forall|j: int|
                0 <= j < i ==> #[trigger] labels@[j]@ == menu_labels(
                    commands@,
                    selected_commands@,
                )[j],
        decreases commands@.len() - i,
    {
        let number = i + 1;
        let struck_out = contains_position(selected_commands, number);
        let label = entry_label(number, width, commands[i].display_name.as_str(), struck_out);
        labels.push(label);
        i = i + 1;
    }
    labels
}

/// The text before the first '.', or the whole text when it has none.
pub open spec fn before_dot(s: Seq<char>) -> Seq<char>
    decreases s.len(),
{
    if s.len() == 0 || s[0] == '.' {
        Seq::empty()
    } else {
        seq![s[0]] + before_dot(s.drop_first())
    }
}

/// `s` without its leading spaces.
pub open spec fn trim_start_spaces(s: Seq<char>) -> Seq<char>
    decreases s.len(),
{
    if s.len() > 0 && s[0] == ' ' {
        trim_start_spaces(s.drop_first())
    } else {
        s
    }
}

/// `s` without its trailing spaces.
pub open spec fn trim_end_spaces(s: Seq<char>) -> Seq<char>
    decreases s.len(),
{
    if s.len() > 0 && s.last() == ' ' {
        trim_end_spaces(s.drop_last())
    } else {
        s
    }
}

/// The position number that a label starts with: the text before its first
/// '.', spaces around it removed, read as an unsigned number.
pub open spec fn label_number(s: Seq<char>) -> Option<nat> {
    unsigned_value(trim_end_spaces(trim_start_spaces(before_dot(s))))
}

proof fn lemma_before_dot(a: Seq<char>, b: Seq<char>)
    requires
        forall|j: int| 0 <= j < a.len() ==> a[j] != '.',
    ensures
        before_dot(a + b) == a + before_dot(b),
    decreases a.len(),
{
    if a.len() > 0 {
        lemma_before_dot(a.drop_first(), b);
        assert((a + b).drop_first() =~= a.drop_first() + b);
        assert(a =~= seq![a[0]] + a.drop_first());
        assert(seq![a[0]] + (a.drop_first() + before_dot(b)) =~= a + before_dot(b));
    } else {
        assert(a + b =~= b);
        assert(a + before_dot(b) =~= before_dot(b));
    }
}

proof fn lemma_trim_start_spaces(a: Seq<char>, b: Seq<char>)
    requires
        forall|j: int| 0 <= j < a.len() ==> a[j] == ' ',
        b.len() == 0 || b[0] != ' ',
    ensures
        trim_start_spaces(a + b) == b,
    decreases a.len(),
{
    if a.len() > 0 {
        assert((a + b).drop_first() =~= a.drop_first() + b);
        lemma_trim_start_spaces(a.drop_first(), b);
    } else {
        assert(a + b =~= b);
    }
}

/// Reading the position number back from a rendered label gives the
/// position the label was made for.
pub proof fn lemma_label_number(position: nat, width: nat, name: Seq<char>, selected: bool)
    requires
        1 <= position,
    ensures
        label_number(menu_label(position, width, name, selected)) == Some(position),
{
    let d = decimal(position);
    lemma_decimal(position);
    let p = pad_left(d, width);
    let rest = if selected {
        struck(name)
    } else {
        name
    };
    let pad = if d.len() < width {
        Seq::new((width - d.len()) as nat, |i: int| ' ')
    } else {
        Seq::<char>::empty()
    };
    assert(p =~= pad + d);
    assert forall|j: int| 0 <= j < p.len() implies p[j] != '.' by {
        if j >= pad.len() {
            assert(p[j] == d[j - pad.len()]);
            assert(crate::text::is_digit(d[j - pad.len()]));
        }
    }
    assert(menu_label(position, width, name, selected) =~= p + (separator() + rest));
    lemma_before_dot(p, separator() + rest);
    assert(before_dot(separator() + rest) =~= Seq::<char>::empty());
    assert(p + Seq::<char>::empty() =~= p);
    assert(crate::text::is_digit(d[0]));
    lemma_trim_start_spaces(pad, d);
    assert(crate::text::is_digit(d.last()));
    assert(trim_end_spaces(d) == d);
}

/// Reads the position number at the start of a label; `None` when the text
/// before the first '.' is not a number or does not fit in `usize`.
pub fn label_position(label: &str) -> (r: Option<usize>)
    ensures
        r == (match label_number(label@) {
            Some(v) => if v <= usize::MAX {
                Some(v as usize)
            } else {
                None
            },
            None => None,
        }),
{
    let n = label.unicode_len();
    let mut dot: usize = 0;
    while dot < n && label.get_char(dot) != '.'
        invariant
            n == label@.len(),
            dot <= n,
            forall|j: int| 0 <= j < dot ==> label@[j] != '.',
        decreases n - dot,
    {
        dot = dot + 1;
    }
    proof {
        let a = label@.subrange(0, dot as int);
        let b = label@.subrange(dot as int, n as int);
        assert(label@ =~= a + b);
        lemma_before_dot(a, b);
        assert(before_dot(b) =~= Seq::<char>::empty());
        assert(a + Seq::<char>::empty() =~= a);
    }
    let mut start: usize = 0;
    while start < dot && label.get_char(start) == ' '
        invariant
            n == label@.len(),
            start <= dot <= n,
            trim_start_spaces(label@.subrange(0, dot as int)) == trim_start_spaces(
                label@.subrange(start as int, dot as int),
            ),
        decreases dot - start,
    {
        assert(label@.subrange(start as int, dot as int).drop_first() =~= label@.subrange(
            start as int + 1,
            dot as int,
        ));
        start = start + 1;
    }
    assert(trim_start_spaces(label@.subrange(start as int, dot as int)) == label@.subrange(
        start as int,
        dot as int,
    ));
    let mut end: usize = dot;
    while end > start && label.get_char(end - 1) == ' '
        invariant
            n == label@.len(),
            start <= end <= dot <= n,
            trim_end_spaces(label@.subrange(start as int, dot as int)) == trim_end_spaces(
                label@.subrange(start as int, end as int),
            ),
        decreases end - start,
    {
        assert(label@.subrange(start as int, end as int).drop_last() =~= label@.subrange(
            start as int,
            end as int - 1,
        ));
        end = end - 1;
    }
    assert(trim_end_spaces(label@.subrange(start as int, end as int)) == label@.subrange(
        start as int,
        end as int,
    ));
    parse_unsigned(label.substring_char(start, end))
}

proof fn lemma_decimal_len_monotone(m: nat, n: nat)
    requires
        m <= n,
    ensures
        decimal(m).len() <= decimal(n).len(),
    decreases n,
{
    if n >= 10 && m >= 10 {
        lemma_decimal_len_monotone(m / 10, n / 10);
    }
}

/// In a rendered list every position number takes the same number of
/// characters, the number of digits of the list's length, and is followed by
/// the '.' of the separator.
pub proof fn lemma_numbers_aligned(commands: Seq<CommandOption>, selected: Seq<usize>, i: int)
    requires
        0 <= i < commands.len(),
    ensures
        ({
            let w = number_width(commands.len());
            let label = menu_labels(commands, selected)[i];
            &&& w == decimal(commands.len()).len()
            &&& pad_left(decimal((i + 1) as nat), w).len() == w
            &&& label.subrange(0, w as int) == pad_left(decimal((i + 1) as nat), w)
            &&& label[w as int] == '.'
        }),
{
    let w = number_width(commands.len());
    let d = decimal((i + 1) as nat);
    lemma_decimal_len_monotone((i + 1) as nat, commands.len());
    let p = pad_left(d, w);
    assert(p.len() == w);
    let label = menu_labels(commands, selected)[i];
    let rest = if selected.contains((i + 1) as usize) {
        struck(commands[i].display_name@)
    } else {
        commands[i].display_name@
    };
    assert(label == p + separator() + rest);
    assert(label.subrange(0, w as int) =~= p);
}

/// A selected entry's name is shown with one strike mark after each of its
/// characters, and nothing else changed; an entry not selected shows its
/// name as it is.
pub proof fn lemma_strike_marking(position: nat, width: nat, name: Seq<char>)
    ensures
        ({
            let prefix = pad_left(decimal(position), width) + separator();
            let marked = menu_label(position, width, name, true);
            let plain = menu_label(position, width, name, false);
            &&& marked == prefix + struck(name)
            &&& plain == prefix + name
            &&& struck(name).len() == 2 * name.len()
            &&& forall|k: int|
                0 <= k < name.len() ==> #[trigger] struck(name)[2 * k] == name[k] && struck(
                    name,
                )[2 * k + 1] == crate::text::strike_mark()
        }),
{
    let prefix = pad_left(decimal(position), width) + separator();
    assert(menu_label(position, width, name, true) =~= prefix + struck(name));
    assert(menu_label(position, width, name, false) =~= prefix + name);
    assert forall|k: int| 0 <= k < name.len() implies #[trigger] struck(name)[2 * k] == name[k]
        && struck(name)[2 * k + 1] == crate::text::strike_mark() by {
        assert((2 * k) % 2 == 0 && (2 * k) / 2 == k);
        assert((2 * k + 1) % 2 == 1);
    }
}

/// The label of the menu item that opens the editor.
pub open spec fn edit_label() -> Seq<char> {
    "e. EDIT Commands"@
}

/// The label of the menu item that ends the program.
pub open spec fn exit_label() -> Seq<char> {
    "q. EXIT"@
}

/// What the browsing session does after a pick.
#[derive(Clone, Copy, Debug, PartialEq, Eq)]
pub enum MainAction {
    /// End the program.
    Exit,
    /// Open the editor.
    Edit,
    /// Run the command at this index of the list.
    Run(usize),
    /// The pick names no entry of the list: report it and ask again.
    Invalid,
}

/// Whether two texts are equal.
pub(crate) fn same_text(a: &str, b: &str) -> (r: bool)
    ensures
        r == (a@ == b@),
{
    let n = a.unicode_len();
    if n != b.unicode_len() {
        return false;
    }
    let mut i: usize = 0;
    while i < n
        invariant
            n == a@.len() == b@.len(),
            i <= n,
            forall|j: int| 0 <= j < i ==> a@[j] == b@[j],
        decreases n - i,
    {
        if a.get_char(i) != b.get_char(i) {
            return false;
        }
        i = i + 1;
    }
    assert(a@ =~= b@);
    true
}

/// The state the browsing session keeps between picks: the position numbers
/// run so far, and the index of the last one, where the cursor starts.
pub struct MainSession {
    pub selected: Vec<usize>,
    pub last_selected: Option<usize>,
}

impl MainSession {
    /// A session that has run nothing yet.
    pub fn new() -> (r: MainSession)
        ensures
            r.selected@.len() == 0,
            r.last_selected is None,
    {
        MainSession { selected: Vec::new(), last_selected: None }
    }

    /// Forgets every position remembered: positions may have moved.
    pub fn clear_selection(&mut self)
        ensures
            final(self).selected@.len() == 0,
            final(self).last_selected is None,
    {
        self.selected = Vec::new();
        self.last_selected = None;
    }

    /// Called when the configuration could not be loaded: the remembered
    /// positions are dropped and the editor is to be opened on the empty
    /// configuration this returns.
    pub fn load_failed(&mut self) -> (r: Config)
        ensures
            final(self).selected@.len() == 0,
            final(self).last_selected is None,
            r.commands@.len() == 0,
            r.cmd_sound is None,
            !r.window_title_support,
            r.window_title is None,
    {
        self.clear_selection();
        Config::default()
    }

    /// Called when the editor has returned, whether or not anything was
    /// edited: the remembered positions are dropped.
    pub fn editor_returned(&mut self)
        ensures
            final(self).selected@.len() == 0,
            final(self).last_selected is None,
    {
        self.clear_selection();
    }

    /// The items of the main menu: the entry labels, then the editor item,
    /// then the exit item.
    pub fn menu_options(&self, commands: &[CommandOption]) -> (r: Vec<String>)
        ensures
            r@.len() == commands@.len() + 2,
            forall|i: int|
                0 <= i < commands@.len() ==> #[trigger] r@[i]@ == menu_labels(
                    commands@,
                    self.selected@,
                )[i],
            r@[commands@.len() as int]@ == edit_label(),
            r@[commands@.len() + 1 as int]@ == exit_label(),
    {
        let mut options = generate_menu(commands, self.selected.as_slice());
        options.push(String::from_str("e. EDIT Commands"));
        options.push(String::from_str("q. EXIT"));
        options
    }

    /// Decides what a pick from the main menu does. A pick of an entry label
    /// records its position number and makes its index the last selected.
    pub fn handle_choice(&mut self, choice: &str, commands: &[CommandOption]) -> (r: MainAction)
        ensures
            choice@ == exit_label() ==> r == MainAction::Exit && *final(self) == *old(self),
            choice@ == edit_label() ==> r == MainAction::Edit && final(self).selected@.len() == 0
                && final(self).last_selected is None,
            choice@ != exit_label() && choice@ != edit_label() ==> match label_number(choice@) {
                Some(n) => if 1 <= n && n <= commands@.len() {
                    &&& r == MainAction::Run((n - 1) as usize)
                    &&& final(self).selected@ == old(self).selected@.push(n as usize)
                    &&& final(self).last_selected == Some((n - 1) as usize)
                } else {
                    r == MainAction::Invalid && *final(self) == *old(self)
                },
                None => r == MainAction::Invalid && *final(self) == *old(self),
            },
    {
        proof {
            reveal_strlit("q. EXIT");
            reveal_strlit("e. EDIT Commands");
        }
        if same_text(choice, "q. EXIT") {
            return MainAction::Exit;
        }
        if same_text(choice, "e. EDIT Commands") {
            self.clear_selection();
            return MainAction::Edit;
        }
        let len = commands.len();
        match label_position(choice) {
            Some(n) => {
                if n >= 1 && n <= len {
                    self.selected.push(n);
                    self.last_selected = Some(n - 1);
                    MainAction::Run(n - 1)
                } else {
                    MainAction::Invalid
                }
            },
            None => MainAction::Invalid,
        }
    }
}

} // verus!
