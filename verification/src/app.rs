use vstd::prelude::*;
use crate::config::{Color, Config};
use crate::text::{parent_dir, parent_of, pop_char, push_char, remove_all, views, without};
use vstd::utf8::encode_utf8;

verus! {

/// What typed characters go to: nothing, a new name for the selected file,
/// the confirmation of a deletion, or the name of a file to create.
#[derive(Clone, Copy, Debug, PartialEq, Eq, Structural)]
pub enum InputMode {
    Normal,
    Rename,
    Delete,
    Create,
}

/// The state of the browser: the input mode and what has been typed, the
/// help panel, the colours, the directory listing and the selection in it.
pub struct App {
    pub input_mode: InputMode,
    pub input_string: String,
    pub help: bool,
    config: Config,
    selected_index: u16,
    dir: Vec<String>,
    selected_file: String,
    pub scroll_offset: u16,
}

/// The state of the browser as a value.
pub struct AppView {
    pub input_mode: InputMode,
    pub input: Seq<char>,
    pub help: bool,
    pub config: Config,
    pub selected: u16,
    pub dir: Seq<Seq<char>>,
    pub selected_file: Seq<char>,
    pub scroll_offset: u16,
}

impl View for App {
    type V = AppView;

    closed spec fn view(&self) -> AppView {
        AppView {
            input_mode: self.input_mode,
            input: self.input_string@,
            help: self.help,
            config: self.config,
            selected: self.selected_index,
            dir: views(self.dir@),
            selected_file: self.selected_file@,
            scroll_offset: self.scroll_offset,
        }
    }
}

/// A browser in normal mode with nothing typed, no help shown, the default
/// colours, and an empty listing whose first line is selected.
pub open spec fn default_view() -> AppView {
    AppView {
        input_mode: InputMode::Normal,
        input: Seq::empty(),
        help: false,
        config: Config {
            title_color: Color::Magenta,
            selected_file_color: Color::Green,
            directory_color: Color::Blue,
        },
        selected: 0,
        dir: Seq::empty(),
        selected_file: Seq::empty(),
        scroll_offset: 0,
    }
}

/// The selection after moving up one line: it stops at the first line.
pub open spec fn moved_up(s: AppView) -> AppView {
    if s.selected == 0 {
        s
    } else {
        AppView { selected: (s.selected - 1) as u16, scroll_offset: 0, ..s }
    }
}

/// The index of the last line of the listing, as a `u16`.
pub open spec fn last_index(s: AppView) -> u16 {
    (s.dir.len() - 1) as u16
}

/// Moving down cannot be done: the listing is empty, or the selection is at
/// the largest `u16` without being on the last line.
pub open spec fn move_down_fails(s: AppView) -> bool {
    s.dir.len() == 0 || (s.selected != last_index(s) && s.selected == u16::MAX)
}

/// The selection after moving down one line: it stops at the last line.
pub open spec fn moved_down(s: AppView) -> AppView {
    if s.selected == last_index(s) {
        s
    } else {
        AppView { selected: (s.selected + 1) as u16, scroll_offset: 0, ..s }
    }
}

impl App {
    /// A browser in normal mode with nothing typed, no help shown, the
    /// default colours, and an empty listing whose first line is selected.
    pub fn default() -> (app: App)
        ensures
            app@ == default_view(),
    {
        let app = App {
            input_mode: InputMode::Normal,
            input_string: String::new(),
            help: false,
            selected_index: 0,
            dir: Vec::new(),
            selected_file: String::new(),
            scroll_offset: 0,
            config: Config::default(),
        };
        assert(views(app.dir@) =~= Seq::empty());
        app
    }

    /// The colours.
    pub fn config(&self) -> (config: &Config)
        ensures
            *config == self@.config,
    {
        &self.config
    }

    /// The index of the selected line.
    pub fn selected(&self) -> (index: u16)
        ensures
            index == self@.selected,
    {
        self.selected_index
    }

    /// Moves the selection up one line, unless it is on the first line;
    /// a move scrolls the view back to the top.
    pub fn move_up(&mut self)
        ensures
            final(self)@ == moved_up(old(self)@),
            final(self)@ == apply(old(self)@, Op::MoveUp),
    {
        if self.selected_index != 0 {
            self.scroll_offset = 0;
            self.selected_index = self.selected_index - 1;
        }
    }

    /// Moves the selection down one line, unless it is on the last line;
    /// a move scrolls the view back to the top.
    pub fn move_down(&mut self)
        requires
            !move_down_fails(old(self)@),
        ensures
            final(self)@ == moved_down(old(self)@),
            final(self)@ == apply(old(self)@, Op::MoveDown),
    {
        proof {
            assert(self.dir@.len() == old(self)@.dir.len());
        }
        let last: u16 = (self.dir.len() - 1) as u16;
        if self.selected_index != last {
            self.scroll_offset = 0;
            self.selected_index = self.selected_index + 1;
        }
    }

    /// Selects the line at `index`.
    pub fn set_selected(&mut self, index: u16)
        ensures
            final(self)@ == (AppView { selected: index, ..old(self)@ }),
            final(self)@ == apply(old(self)@, Op::SetSelected(index)),
    {
        self.selected_index = index;
    }

    /// The lines of the listing.
    pub fn current_dir(&self) -> (dir: &Vec<String>)
        ensures
            views(dir@) == self@.dir,
    {
        &self.dir
    }

    /// Replaces the lines of the listing.
    pub fn set_dir(&mut self, dir: Vec<String>)
        ensures
            final(self)@ == (AppView { dir: views(dir@), ..old(self)@ }),
            final(self)@ == apply(old(self)@, Op::SetDir(views(dir@))),
    {
        self.dir = dir;
    }

    /// The path of the selected file.
    pub fn current_file(&self) -> (file: &String)
        ensures
            file@ == self@.selected_file,
    {
        &self.selected_file
    }

    /// Replaces the path of the selected file.
    pub fn set_file(&mut self, file: String)
        ensures
            final(self)@ == (AppView { selected_file: file@, ..old(self)@ }),
            final(self)@ == apply(old(self)@, Op::SetFile(file@)),
    {
        self.selected_file = file;
    }

    /// The input mode.
    pub fn input_mode(&self) -> (mode: InputMode)
        ensures
            mode == self@.input_mode,
    {
        self.input_mode
    }

    /// Changes the input mode.
    pub fn set_input_mode(&mut self, mode: InputMode)
        ensures
            final(self)@ == (AppView { input_mode: mode, ..old(self)@ }),
            final(self)@ == apply(old(self)@, Op::SetInputMode(mode)),
    {
        self.input_mode = mode;
    }

    /// What has been typed.
    pub fn input(&self) -> (input: &String)
        ensures
            input@ == self@.input,
    {
        &self.input_string
    }

    /// Replaces what has been typed.
    pub fn set_input(&mut self, input: String)
        ensures
            final(self)@ == (AppView { input: input@, ..old(self)@ }),
            final(self)@ == apply(old(self)@, Op::SetInput(input@)),
    {
        self.input_string = input;
    }

    /// Whether the help panel is shown.
    pub fn help(&self) -> (shown: bool)
        ensures
            shown == self@.help,
    {
        self.help
    }

    /// Shows or hides the help panel.
    pub fn set_help(&mut self, shown: bool)
        ensures
            final(self)@ == (AppView { help: shown, ..old(self)@ }),
            final(self)@ == apply(old(self)@, Op::SetHelp(shown)),
    {
        self.help = shown;
    }

    /// How far the listing is scrolled.
    pub fn scroll_offset(&self) -> (offset: u16)
        ensures
            offset == self@.scroll_offset,
    {
        self.scroll_offset
    }

    /// Changes how far the listing is scrolled.
    pub fn set_scroll_offset(&mut self, offset: u16)
        ensures
            final(self)@ == (AppView { scroll_offset: offset, ..old(self)@ }),
            final(self)@ == apply(old(self)@, Op::SetScrollOffset(offset)),
    {
        self.scroll_offset = offset;
    }
}


/// A key pressed by the user.
#[derive(Clone, Copy, Debug, PartialEq, Eq, Structural)]
pub enum Key {
    Up,
    Down,
    Left,
    Right,
    Backspace,
    Esc,
    /// A character; Enter comes as `Char('\n')`.
    Char(char),
    /// Any key the browser does not use.
    Other,
}

/// What is to be done outside the browser after a key.
#[derive(Clone, Debug, PartialEq, Eq)]
pub enum Command {
    /// Nothing but drawing again.
    Nothing,
    /// Leave the program.
    Quit,
    /// Make this path the current directory; it must not fail.
    GoUp(String),
    /// Make this path the current directory if it can be; on success the
    /// first line is selected.
    Enter(String),
    /// Rename the first path to the second; it must not fail.
    Rename(String, String),
    /// Delete this path, a directory with all it holds; it must not fail.
    Delete(String),
    /// Create an empty file of this name; a failure is ignored.
    Create(String),
}

/// A command as a value.
pub enum CommandView {
    Nothing,
    Quit,
    GoUp(Seq<char>),
    Enter(Seq<char>),
    Rename(Seq<char>, Seq<char>),
    Delete(Seq<char>),
    Create(Seq<char>),
}

impl View for Command {
    type V = CommandView;

    open spec fn view(&self) -> CommandView {
        match self {
            Command::Nothing => CommandView::Nothing,
            Command::Quit => CommandView::Quit,
            Command::GoUp(p) => CommandView::GoUp(p@),
            Command::Enter(p) => CommandView::Enter(p@),
            Command::Rename(from, to) => CommandView::Rename(from@, to@),
            Command::Delete(p) => CommandView::Delete(p@),
            Command::Create(p) => CommandView::Create(p@),
        }
    }
}

/// The number of lines of the listing, cut to a `u16` as the program's key loop
/// counts them.
pub open spec fn line_count(s: AppView) -> u16 {
    s.dir.len() as u16
}

/// The keys on which the program's key loop fails with an arithmetic overflow, or
/// finds no `/` in the current directory's path.
pub open spec fn key_fails(s: AppView, key: Key, cwd: Seq<char>) -> bool {
    match key {
        Key::Down => s.dir.len() > 0 && s.input_mode != InputMode::Create && (line_count(s) == 0
            || (s.selected != line_count(s) - 1 && s.selected == u16::MAX)),
        Key::Left => !cwd.contains('/'),
        Key::Char(c) => c == 'y' && s.input_mode == InputMode::Delete && (line_count(s) == 0 || (
        s.selected >= line_count(s) - 1 && line_count(s) < 2)),
        _ => false,
    }
}

/// Back to normal mode with nothing typed.
pub open spec fn input_done(s: AppView) -> AppView {
    AppView { input_mode: InputMode::Normal, input: Seq::empty(), ..s }
}

/// Going into the selected file, when it is a directory.
pub open spec fn enter_command(s: AppView, current_is_dir: bool) -> CommandView {
    if current_is_dir {
        CommandView::Enter(s.selected_file)
    } else {
        CommandView::Nothing
    }
}

/// The selection after the selected file is deleted: on the line before
/// the last when it was on the last line or below.
pub open spec fn selection_after_delete(s: AppView) -> u16 {
    if s.selected >= line_count(s) - 1 {
        (line_count(s) - 2) as u16
    } else {
        s.selected
    }
}

/// The browser's state and the command after the key `key`, in the
/// directory `cwd`, the selected file being a directory or not.
pub open spec fn key_step(s: AppView, key: Key, cwd: Seq<char>, current_is_dir: bool) -> (
    AppView,
    CommandView,
) {
    match key {
        Key::Up => if s.input_mode == InputMode::Create {
            (s, CommandView::Nothing)
        } else {
            (
                AppView {
                    selected: if s.selected == 0 {
                        0
                    } else {
                        (s.selected - 1) as u16
                    },
                    ..s
                },
                CommandView::Nothing,
            )
        },
        Key::Down => if s.dir.len() == 0 || s.input_mode == InputMode::Create {
            (s, CommandView::Nothing)
        } else {
            (
                AppView {
                    selected: if s.selected == line_count(s) - 1 {
                        s.selected
                    } else {
                        (s.selected + 1) as u16
                    },
                    ..s
                },
                CommandView::Nothing,
            )
        },
        Key::Left => (AppView { selected: 0, ..s }, CommandView::GoUp(parent_of(cwd))),
        Key::Right => (s, enter_command(s, current_is_dir)),
        Key::Backspace => if s.input_mode == InputMode::Rename && s.input.len() > 0 {
            (AppView { input: s.input.drop_last(), ..s }, CommandView::Nothing)
        } else {
            (s, CommandView::Nothing)
        },
        Key::Esc => if s.input_mode == InputMode::Normal {
            (s, CommandView::Nothing)
        } else {
            (input_done(s), CommandView::Nothing)
        },
        Key::Char(c) => if c == '\n' {
            match s.input_mode {
                InputMode::Normal => (s, enter_command(s, current_is_dir)),
                InputMode::Rename => (
                    input_done(s),
                    CommandView::Rename(s.selected_file, s.input),
                ),
                InputMode::Delete => (input_done(s), CommandView::Nothing),
                InputMode::Create => (
                    AppView { input_mode: InputMode::Normal, ..s },
                    CommandView::Create(s.input),
                ),
            }
        } else {
            match s.input_mode {
                InputMode::Rename | InputMode::Create => (
                    AppView { input: s.input.push(c), ..s },
                    CommandView::Nothing,
                ),
                InputMode::Delete => if c == 'y' {
                    (
                        AppView { selected: selection_after_delete(s), ..input_done(s) },
                        CommandView::Delete(s.selected_file),
                    )
                } else {
                    (input_done(s), CommandView::Nothing)
                },
                InputMode::Normal => if c == 'q' {
                    (s, CommandView::Quit)
                } else if c == 'h' {
                    (AppView { help: !s.help, ..s }, CommandView::Nothing)
                } else if c == 'r' {
                    (AppView { input_mode: InputMode::Rename, ..s }, CommandView::Nothing)
                } else if c == 'd' {
                    (AppView { input_mode: InputMode::Delete, ..s }, CommandView::Nothing)
                } else if c == 'c' {
                    (AppView { input_mode: InputMode::Create, ..s }, CommandView::Nothing)
                } else {
                    (s, CommandView::Nothing)
                },
            }
        },
        Key::Other => (s, CommandView::Nothing),
    }
}

/// A change of the browser's state by one of `App`'s methods, with what
/// the method is given.
pub enum Op {
    MoveUp,
    MoveDown,
    SetSelected(u16),
    SetDir(Seq<Seq<char>>),
    SetFile(Seq<char>),
    SetInputMode(InputMode),
    SetInput(Seq<char>),
    SetHelp(bool),
    SetScrollOffset(u16),
    /// `handle_key` with the key, the current directory and whether the
    /// selected file is a directory.
    Key(Key, Seq<char>, bool),
    /// `load_dir` with the new listing.
    LoadDir(Seq<Seq<char>>),
}

/// The state after one change.
pub open spec fn apply(s: AppView, op: Op) -> AppView {
    match op {
        Op::MoveUp => moved_up(s),
        Op::MoveDown => moved_down(s),
        Op::SetSelected(i) => AppView { selected: i, ..s },
        Op::SetDir(d) => AppView { dir: d, ..s },
        Op::SetFile(f) => AppView { selected_file: f, ..s },
        Op::SetInputMode(m) => AppView { input_mode: m, ..s },
        Op::SetInput(t) => AppView { input: t, ..s },
        Op::SetHelp(h) => AppView { help: h, ..s },
        Op::SetScrollOffset(o) => AppView { scroll_offset: o, ..s },
        Op::Key(key, cwd, is_dir) => key_step(s, key, cwd, is_dir).0,
        Op::LoadDir(d) => AppView {
            dir: d,
            selected_file: if d.len() == 0 {
                Seq::empty()
            } else {
                d[s.selected as int]
            },
            ..s
        },
    }
}

/// The state after a sequence of changes, in order.
pub open spec fn apply_all(s: AppView, ops: Seq<Op>) -> AppView
    decreases ops.len(),
{
    if ops.len() == 0 {
        s
    } else {
        apply_all(apply(s, ops[0]), ops.drop_first())
    }
}

impl App {
    /// Whether the key can be handled without the overflow or the missing
    /// `/` on which the program's key loop fails.
    pub fn accepts(&self, key: Key, cwd: &str) -> (ok: bool)
        ensures
            ok == !key_fails(self@, key, cwd@),
    {
        let count: u16 = self.dir.len() as u16;
        match key {
            Key::Down => !(self.dir.len() > 0 && self.input_mode != InputMode::Create && (count == 0
                || (self.selected_index != count - 1 && self.selected_index == u16::MAX))),
            Key::Left => crate::text::has_char(cwd, '/'),
            Key::Char(c) => !(c == 'y' && self.input_mode == InputMode::Delete && (count == 0 || (
            self.selected_index >= count - 1 && count < 2))),
            _ => true,
        }
    }

    /// Handles one key: moves the selection, changes the mode, edits what
    /// has been typed, and says what is to be done outside.
    pub fn handle_key(&mut self, key: Key, cwd: &str, current_is_dir: bool) -> (command: Command)
        requires
            !key_fails(old(self)@, key, cwd@),
        ensures
            final(self)@ == key_step(old(self)@, key, cwd@, current_is_dir).0,
            command@ == key_step(old(self)@, key, cwd@, current_is_dir).1,
            final(self)@ == apply(old(self)@, Op::Key(key, cwd@, current_is_dir)),
    {
        let count: u16 = self.dir.len() as u16;
        match key {
            Key::Up => {
                if self.input_mode != InputMode::Create && self.selected_index != 0 {
                    self.selected_index = self.selected_index - 1;
                }
                Command::Nothing
            },
            Key::Down => {
                if self.dir.len() > 0 && self.input_mode != InputMode::Create
                    && self.selected_index != count - 1 {
                    self.selected_index = self.selected_index + 1;
                }
                Command::Nothing
            },
            Key::Left => {
                self.selected_index = 0;
                Command::GoUp(parent_dir(cwd))
            },
            Key::Right => self.enter(current_is_dir),
            Key::Backspace => {
                if self.input_mode == InputMode::Rename {
                    pop_char(&mut self.input_string);
                }
                Command::Nothing
            },
            Key::Esc => {
                if self.input_mode != InputMode::Normal {
                    self.input_mode = InputMode::Normal;
                    self.input_string = String::new();
                }
                Command::Nothing
            },
            Key::Char('\n') => match self.input_mode {
                InputMode::Normal => self.enter(current_is_dir),
                InputMode::Rename => {
                    self.input_mode = InputMode::Normal;
                    let to = self.input_string.clone();
                    self.input_string = String::new();
                    Command::Rename(self.selected_file.clone(), to)
                },
                InputMode::Delete => {
                    self.input_string = String::new();
                    self.input_mode = InputMode::Normal;
                    Command::Nothing
                },
                InputMode::Create => {
                    self.input_mode = InputMode::Normal;
                    Command::Create(self.input_string.clone())
                },
            },
            Key::Char(c) => match self.input_mode {
                InputMode::Rename | InputMode::Create => {
                    push_char(&mut self.input_string, c);
                    Command::Nothing
                },
                InputMode::Delete => {
                    self.input_string = String::new();
                    self.input_mode = InputMode::Normal;
                    if c == 'y' {
                        if self.selected_index >= count - 1 {
                            self.selected_index = count - 2;
                        }
                        Command::Delete(self.selected_file.clone())
                    } else {
                        Command::Nothing
                    }
                },
                InputMode::Normal => {
                    if c == 'q' {
                        Command::Quit
                    } else {
                        if c == 'h' {
                            self.help = !self.help;
                        } else if c == 'r' {
                            self.input_mode = InputMode::Rename;
                        } else if c == 'd' {
                            self.input_mode = InputMode::Delete;
                        } else if c == 'c' {
                            self.input_mode = InputMode::Create;
                        }
                        Command::Nothing
                    }
                },
            },
            Key::Other => Command::Nothing,
        }
    }

    /// Going into the selected file when it is a directory.
    fn enter(&self, current_is_dir: bool) -> (command: Command)
        ensures
            command@ == enter_command(self@, current_is_dir),
    {
        if current_is_dir {
            Command::Enter(self.selected_file.clone())
        } else {
            Command::Nothing
        }
    }

    /// Takes the lines of a new listing, and the file on the selected line
    /// as the selected file (none when the listing is empty).
    pub fn load_dir(&mut self, lines: Vec<String>)
        requires
            lines.len() == 0 || old(self)@.selected < lines.len(),
        ensures
            final(self)@ == (AppView {
                dir: views(lines@),
                selected_file: if lines.len() == 0 {
                    Seq::empty()
                } else {
                    lines@[old(self)@.selected as int]@
                },
                ..old(self)@
            }),
            final(self)@ == apply(old(self)@, Op::LoadDir(views(lines@))),
    {
        if lines.len() == 0 {
            self.selected_file = String::new();
        } else {
            self.selected_file = lines[self.selected_index as usize].clone();
        }
        self.dir = lines;
    }
}


/// How a line of a listing is drawn: its foreground colour (the terminal's
/// own when `None`), bold or not, blinking or not.
#[derive(Clone, Copy, Debug, PartialEq, Eq)]
pub struct ItemStyle {
    pub fg: Option<Color>,
    pub bold: bool,
    pub blink: bool,
}

/// A line of the directory panel: its text and how it is drawn.
#[derive(Clone, Debug, PartialEq, Eq)]
pub struct ListEntry {
    pub text: String,
    pub style: ItemStyle,
}

/// The terminal's own style.
pub open spec fn plain_style() -> ItemStyle {
    ItemStyle { fg: None, bold: false, blink: false }
}

/// Bold in the colour `c`.
pub open spec fn bold_in(c: Color) -> ItemStyle {
    ItemStyle { fg: Some(c), bold: true, blink: false }
}

/// The style of the line `entry` of the directory panel: the selected file
/// in the selected colour (blinking while it is renamed, red while its
/// deletion waits for confirmation), directories in the directory colour.
pub open spec fn entry_style(s: AppView, entry: Seq<char>, is_dir: bool) -> ItemStyle {
    let selected = s.selected_file == entry;
    let base = if selected {
        bold_in(s.config.selected_file_color)
    } else if is_dir {
        bold_in(s.config.directory_color)
    } else {
        plain_style()
    };
    if selected && s.input_mode == InputMode::Rename {
        ItemStyle { blink: true, ..base }
    } else if selected && s.input_mode == InputMode::Delete {
        bold_in(Color::Red)
    } else {
        base
    }
}

/// The text of the line `entry` of the directory panel for the directory
/// `cwd`: the entry without the directory's path; for the selected file, the
/// new name being typed (a line break while nothing is typed), or a question
/// while its deletion waits for confirmation.
pub open spec fn entry_text(s: AppView, entry: Seq<char>, cwd: Seq<char>) -> Seq<char> {
    let name = without(entry, cwd.push('/'));
    if s.selected_file == entry && s.input_mode == InputMode::Rename {
        if s.input.len() > 0 {
            s.input
        } else {
            "\n"@
        }
    } else if s.selected_file == entry && s.input_mode == InputMode::Delete {
        name + " [ y/n ]"@
    } else {
        name
    }
}

/// The length in bytes of what has been typed, cut to a `u16`.
pub open spec fn typed_width(s: AppView) -> u16 {
    (encode_utf8(s.input).len() as usize) as u16
}

/// Where the text cursor stands, from the top left corner `(x, y)` of the
/// directory panel: after the name typed on the selected line while
/// renaming, on the line below the listing while creating, nowhere else.
pub open spec fn cursor_at(s: AppView, x: u16, y: u16) -> Option<(u16, u16)> {
    let typed = typed_width(s);
    match s.input_mode {
        InputMode::Rename => Some(((x + typed + 1) as u16, (y + s.selected + 1) as u16)),
        InputMode::Create => Some(((x + typed + 1) as u16, (y + line_count(s) + 1) as u16)),
        _ => None,
    }
}

/// The cursor's position overflows a `u16`.
pub open spec fn cursor_fails(s: AppView, x: u16, y: u16) -> bool {
    let typed = typed_width(s);
    match s.input_mode {
        InputMode::Rename => x + typed + 1 > u16::MAX || y + s.selected + 1 > u16::MAX,
        InputMode::Create => x + typed + 1 > u16::MAX || y + line_count(s) + 1 > u16::MAX,
        _ => false,
    }
}

impl App {
    /// The line of the directory panel for `entry`, a line of the listing of
    /// the directory `cwd`.
    pub fn entry_item(&self, entry: &String, cwd: &str, is_dir: bool) -> (item: ListEntry)
        ensures
            item.text@ == entry_text(self@, entry@, cwd@),
            item.style == entry_style(self@, entry@, is_dir),
    {
        let mut prefix = String::from_str(cwd);
        push_char(&mut prefix, '/');
        let name = remove_all(entry.as_str(), prefix.as_str());
        let selected = self.selected_file == *entry;
        let mut style = if selected {
            ItemStyle { fg: Some(self.config.selected_file_color), bold: true, blink: false }
        } else if is_dir {
            ItemStyle { fg: Some(self.config.directory_color), bold: true, blink: false }
        } else {
            ItemStyle { fg: None, bold: false, blink: false }
        };
        let text = if selected && self.input_mode == InputMode::Rename {
            style.blink = true;
            if self.input_string.as_str().is_empty() {
                String::from_str("\n")
            } else {
                self.input_string.clone()
            }
        } else if selected && self.input_mode == InputMode::Delete {
            style = ItemStyle { fg: Some(Color::Red), bold: true, blink: false };
            name.concat(" [ y/n ]")
        } else {
            name
        };
        ListEntry { text, style }
    }

    /// The style of a name in the panel that shows what the selected
    /// directory holds: directories bold in the directory colour.
    pub fn preview_style(&self, is_dir: bool) -> (style: ItemStyle)
        ensures
            style == (if is_dir {
                bold_in(self@.config.directory_color)
            } else {
                plain_style()
            }),
    {
        if is_dir {
            ItemStyle { fg: Some(self.config.directory_color), bold: true, blink: false }
        } else {
            ItemStyle { fg: None, bold: false, blink: false }
        }
    }

    /// Whether the cursor's position fits in a `u16`.
    pub fn cursor_fits(&self, x: u16, y: u16) -> (fits: bool)
        ensures
            fits == !cursor_fails(self@, x, y),
    {
        let typed: u16 = self.input_string.as_str().len() as u16;
        let count: u16 = self.dir.len() as u16;
        match self.input_mode {
            InputMode::Rename => (x as u32) + (typed as u32) + 1 <= u16::MAX as u32 && (y as u32)
                + (self.selected_index as u32) + 1 <= u16::MAX as u32,
            InputMode::Create => (x as u32) + (typed as u32) + 1 <= u16::MAX as u32 && (y as u32)
                + (count as u32) + 1 <= u16::MAX as u32,
            _ => true,
        }
    }

    /// Where the text cursor stands, from the top left corner `(x, y)` of
    /// the directory panel.
    pub fn cursor(&self, x: u16, y: u16) -> (position: Option<(u16, u16)>)
        requires
            !cursor_fails(self@, x, y),
        ensures
            position == cursor_at(self@, x, y),
    {
        let typed: u16 = self.input_string.as_str().len() as u16;
        let count: u16 = self.dir.len() as u16;
        match self.input_mode {
            InputMode::Rename => Some((x + typed + 1, y + self.selected_index + 1)),
            InputMode::Create => Some((x + typed + 1, y + count + 1)),
            _ => None,
        }
    }
}

} // verus!
