use vstd::prelude::*;
use crate::app::{
    apply, apply_all, default_view, key_fails, key_step, last_index, move_down_fails, moved_down,
    moved_up, line_count, entry_style, entry_text, cursor_at, cursor_fails, AppView, CommandView,
    InputMode, ItemStyle, Key, Op,
};
use vstd::utf8::encode_utf8;
use crate::fs::{
    bool_text, float_exact_limit, float_gap, float_of, hundredths, info_text, size_text, two_places,
    FileInfo,
};
use crate::text::{decimal, digit_char, parent_of, without};
use crate::config::{Color, Config};

verus! {

/// Moving down and then up brings the selection back to where it was,
/// whenever the move down did move it.
pub proof fn lemma_down_then_up(s: AppView)
    requires
        !move_down_fails(s),
        s.selected != last_index(s),
    ensures
        moved_up(moved_down(s)) == (AppView { scroll_offset: 0, ..s }),
{
}

/// Moving up and then down brings the selection back to where it was,
/// whenever the move up did move it and the selection was on a line of the
/// listing.
pub proof fn lemma_up_then_down(s: AppView)
    requires
        0 < s.selected <= last_index(s),
        s.dir.len() > 0,
    ensures
        !move_down_fails(moved_up(s)),
        moved_down(moved_up(s)) == (AppView { scroll_offset: 0, ..s }),
{
}


/// Every key keeps the selection on a line of the listing that the next
/// frame shows: the same listing, or after a confirmed deletion the listing
/// with one line fewer.
pub proof fn lemma_selection_stays_in_listing(s: AppView, key: Key, cwd: Seq<char>, is_dir: bool)
    requires
        !key_fails(s, key, cwd),
        s.selected < s.dir.len() <= u16::MAX,
    ensures
        ({
            let next = key_step(s, key, cwd, is_dir).0;
            if key == Key::Char('y') && s.input_mode == InputMode::Delete {
                next.selected < s.dir.len() - 1
            } else {
                next.selected < s.dir.len()
            }
        }),
{
}

/// A character typed into a new name and then erased leaves the browser as
/// it was.
pub proof fn lemma_type_then_erase(s: AppView, c: char, cwd: Seq<char>, is_dir: bool)
    requires
        s.input_mode == InputMode::Rename,
        c != '\n',
    ensures
        key_step(key_step(s, Key::Char(c), cwd, is_dir).0, Key::Backspace, cwd, is_dir) == (
            s,
            CommandView::Nothing,
        ),
{
    let typed = key_step(s, Key::Char(c), cwd, is_dir).0;
    assert(typed.input.drop_last() =~= s.input);
}

/// Asking for help twice hides it again.
pub proof fn lemma_help_toggles(s: AppView, cwd: Seq<char>, is_dir: bool)
    requires
        s.input_mode == InputMode::Normal,
    ensures
        key_step(s, Key::Char('h'), cwd, is_dir).0.help == !s.help,
        key_step(key_step(s, Key::Char('h'), cwd, is_dir).0, Key::Char('h'), cwd, is_dir) == (
            s,
            CommandView::Nothing,
        ),
{
}

/// Escape abandons what is being typed: back to normal mode with nothing
/// typed, the selection and the listing untouched, and nothing done outside.
pub proof fn lemma_escape_cancels(s: AppView, cwd: Seq<char>, is_dir: bool)
    ensures
        ({
            let (next, command) = key_step(s, Key::Esc, cwd, is_dir);
            &&& next.input_mode == InputMode::Normal
            &&& s.input_mode != InputMode::Normal ==> next.input.len() == 0
            &&& next.selected == s.selected
            &&& next.dir == s.dir
            &&& next.selected_file == s.selected_file
            &&& command == CommandView::Nothing
        }),
{
}

/// Only `q` in normal mode quits.
pub proof fn lemma_only_q_quits(s: AppView, key: Key, cwd: Seq<char>, is_dir: bool)
    ensures
        key_step(s, key, cwd, is_dir).1 == CommandView::Quit <==> (key == Key::Char('q')
            && s.input_mode == InputMode::Normal),
{
}

/// The files change only on a confirmation: a rename or a creation on Enter
/// in the matching mode, a deletion on `y` while a deletion waits; and each
/// acts on the selected file or on what was typed.
pub proof fn lemma_changes_need_confirmation(s: AppView, key: Key, cwd: Seq<char>, is_dir: bool)
    ensures
        ({
            let command = key_step(s, key, cwd, is_dir).1;
            &&& command is Rename <==> (key == Key::Char('\n') && s.input_mode == InputMode::Rename)
            &&& command is Delete <==> (key == Key::Char('y') && s.input_mode == InputMode::Delete)
            &&& command is Create <==> (key == Key::Char('\n') && s.input_mode == InputMode::Create)
            &&& command is Rename ==> command == CommandView::Rename(s.selected_file, s.input)
            &&& command is Delete ==> command == CommandView::Delete(s.selected_file)
            &&& command is Create ==> command == CommandView::Create(s.input)
        }),
{
}


/// No change touches the colours.
pub proof fn lemma_config_kept(s: AppView, ops: Seq<Op>)
    ensures
        apply_all(s, ops).config == s.config,
    decreases ops.len(),
{
    if ops.len() > 0 {
        lemma_config_kept(apply(s, ops[0]), ops.drop_first());
    }
}

/// A browser made by `App::default` keeps the default colours, whatever is
/// done with it: titles magenta, the selected file green, directories blue.
pub proof fn lemma_default_colours_kept(ops: Seq<Op>)
    ensures
        apply_all(default_view(), ops).config == (Config {
            title_color: Color::Magenta,
            selected_file_color: Color::Green,
            directory_color: Color::Blue,
        }),
{
    lemma_config_kept(default_view(), ops);
}

/// The changes that can move the selection: moves, `set_selected` and keys.
pub open spec fn moves_selection(op: Op) -> bool {
    op is MoveUp || op is MoveDown || op is SetSelected || op is Key
}

/// The changes that replace the listing: `set_dir` and `load_dir`.
pub open spec fn replaces_listing(op: Op) -> bool {
    op is SetDir || op is LoadDir
}

/// The changes that replace the selected file: `set_file` and `load_dir`.
pub open spec fn replaces_file(op: Op) -> bool {
    op is SetFile || op is LoadDir
}

/// After `set_selected(i)`, the selection stays `i`, on a line of the
/// listing or past its end, until a move, `set_selected` or a key.
pub proof fn lemma_selection_kept(s: AppView, i: u16, ops: Seq<Op>)
    requires
        forall|k: int| 0 <= k < ops.len() ==> !moves_selection(#[trigger] ops[k]),
    ensures
        apply_all(apply(s, Op::SetSelected(i)), ops).selected == i,
    decreases ops.len(),
{
    if ops.len() > 0 {
        let t = apply(s, Op::SetSelected(i));
        assert(!moves_selection(ops[0]));
        assert(apply(t, ops[0]) == apply(apply(t, ops[0]), Op::SetSelected(i)));
        assert forall|k: int| 0 <= k < ops.drop_first().len() implies !moves_selection(
            #[trigger] ops.drop_first()[k],
        ) by {
            assert(ops.drop_first()[k] == ops[k + 1]);
        }
        lemma_selection_kept(apply(t, ops[0]), i, ops.drop_first());
    }
}

/// After `set_dir(d)`, the listing stays `d` until the next `set_dir` or
/// `load_dir`.
pub proof fn lemma_listing_kept(s: AppView, d: Seq<Seq<char>>, ops: Seq<Op>)
    requires
        forall|k: int| 0 <= k < ops.len() ==> !replaces_listing(#[trigger] ops[k]),
    ensures
        apply_all(apply(s, Op::SetDir(d)), ops).dir == d,
    decreases ops.len(),
{
    if ops.len() > 0 {
        let t = apply(s, Op::SetDir(d));
        assert(!replaces_listing(ops[0]));
        assert(apply(t, ops[0]) == apply(apply(t, ops[0]), Op::SetDir(d)));
        assert forall|k: int| 0 <= k < ops.drop_first().len() implies !replaces_listing(
            #[trigger] ops.drop_first()[k],
        ) by {
            assert(ops.drop_first()[k] == ops[k + 1]);
        }
        lemma_listing_kept(apply(t, ops[0]), d, ops.drop_first());
    }
}

/// After `set_file(f)`, the selected file stays `f` until the next
/// `set_file` or `load_dir`.
pub proof fn lemma_file_kept(s: AppView, f: Seq<char>, ops: Seq<Op>)
    requires
        forall|k: int| 0 <= k < ops.len() ==> !replaces_file(#[trigger] ops[k]),
    ensures
        apply_all(apply(s, Op::SetFile(f)), ops).selected_file == f,
    decreases ops.len(),
{
    if ops.len() > 0 {
        let t = apply(s, Op::SetFile(f));
        assert(!replaces_file(ops[0]));
        assert(apply(t, ops[0]) == apply(apply(t, ops[0]), Op::SetFile(f)));
        assert forall|k: int| 0 <= k < ops.drop_first().len() implies !replaces_file(
            #[trigger] ops.drop_first()[k],
        ) by {
            assert(ops.drop_first()[k] == ops[k + 1]);
        }
        lemma_file_kept(apply(t, ops[0]), f, ops.drop_first());
    }
}


/// Up moves the selection to the line above, and stays on the first line;
/// nothing else changes. In create mode it does nothing.
pub proof fn lemma_up_moves_one_line(s: AppView, cwd: Seq<char>, is_dir: bool)
    ensures
        ({
            let (next, command) = key_step(s, Key::Up, cwd, is_dir);
            &&& command == CommandView::Nothing
            &&& s.input_mode == InputMode::Create ==> next == s
            &&& s.input_mode != InputMode::Create && s.selected > 0 ==> next.selected as int
                == s.selected - 1
            &&& s.input_mode != InputMode::Create && s.selected == 0 ==> next.selected == 0
            &&& next.input_mode == s.input_mode && next.input == s.input && next.dir == s.dir
            &&& next.selected_file == s.selected_file && next.help == s.help
            &&& next.scroll_offset == s.scroll_offset && next.config == s.config
        }),
{
}

/// Down moves the selection to the line below, and stays on the last line
/// of the listing; nothing else changes. In create mode, or with an empty
/// listing, it does nothing.
pub proof fn lemma_down_moves_one_line(s: AppView, cwd: Seq<char>, is_dir: bool)
    requires
        !key_fails(s, Key::Down, cwd),
    ensures
        ({
            let (next, command) = key_step(s, Key::Down, cwd, is_dir);
            &&& command == CommandView::Nothing
            &&& (s.input_mode == InputMode::Create || s.dir.len() == 0) ==> next == s
            &&& s.input_mode != InputMode::Create && s.dir.len() > 0 && s.selected as int
                != line_count(s) - 1 ==> next.selected as int == s.selected + 1
            &&& s.input_mode != InputMode::Create && s.dir.len() > 0 && s.selected as int
                == line_count(s) - 1 ==> next.selected == s.selected
            &&& s.input_mode != InputMode::Create && 0 < s.dir.len() <= u16::MAX
                && s.selected + 1 < s.dir.len() ==> next.selected as int == s.selected + 1
            &&& s.input_mode != InputMode::Create && 0 < s.dir.len() <= u16::MAX
                && s.selected + 1 == s.dir.len() ==> next.selected == s.selected
            &&& next.input_mode == s.input_mode && next.input == s.input && next.dir == s.dir
            &&& next.selected_file == s.selected_file && next.help == s.help
            &&& next.scroll_offset == s.scroll_offset && next.config == s.config
        }),
{
}

/// Left selects the first line and goes to the directory above: the start
/// of the current directory's path up to its last `/`.
pub proof fn lemma_left_goes_up(s: AppView, cwd: Seq<char>, is_dir: bool)
    requires
        cwd.contains('/'),
    ensures
        ({
            let (next, command) = key_step(s, Key::Left, cwd, is_dir);
            &&& next == (AppView { selected: 0, ..s })
            &&& command matches CommandView::GoUp(p) && {
                &&& 0 < p.len() <= cwd.len()
                &&& p == cwd.take(p.len() as int)
                &&& p.last() == '/'
                &&& forall|k: int| p.len() <= k < cwd.len() ==> cwd[k] != '/'
            }
        }),
{
    crate::text::lemma_parent_is_prefix(cwd);
}

/// Right, and Enter in normal mode, go into the selected file when it is a
/// directory, and do nothing else; the state does not change.
pub proof fn lemma_right_enters(s: AppView, cwd: Seq<char>, is_dir: bool)
    ensures
        key_step(s, Key::Right, cwd, is_dir).0 == s,
        is_dir ==> key_step(s, Key::Right, cwd, is_dir).1 == CommandView::Enter(s.selected_file),
        !is_dir ==> key_step(s, Key::Right, cwd, is_dir).1 == CommandView::Nothing,
        s.input_mode == InputMode::Normal ==> key_step(s, Key::Char('\n'), cwd, is_dir)
            == key_step(s, Key::Right, cwd, is_dir),
{
}

/// While renaming or creating, a typed character is appended to what has
/// been typed, as it is; nothing else changes.
pub proof fn lemma_typing_appends(s: AppView, c: char, cwd: Seq<char>, is_dir: bool)
    requires
        s.input_mode == InputMode::Rename || s.input_mode == InputMode::Create,
        c != '\n',
    ensures
        ({
            let (next, command) = key_step(s, Key::Char(c), cwd, is_dir);
            &&& next.input == s.input.push(c)
            &&& next.input.len() == s.input.len() + 1
            &&& next.input.last() == c
            &&& next.input.take(s.input.len() as int) == s.input
            &&& next.input_mode == s.input_mode && next.selected == s.selected
            &&& next.dir == s.dir && next.selected_file == s.selected_file
            &&& next.help == s.help && next.config == s.config
            &&& command == CommandView::Nothing
        }),
{
    let next = key_step(s, Key::Char(c), cwd, is_dir).0;
    assert(next.input.take(s.input.len() as int) =~= s.input);
}

/// `ops` are the keys that type `word`, one character after the other.
pub open spec fn is_typing(ops: Seq<Op>, word: Seq<char>, cwd: Seq<char>, is_dir: bool) -> bool {
    &&& ops.len() == word.len()
    &&& forall|k: int| 0 <= k < ops.len() ==> #[trigger] ops[k] == Op::Key(Key::Char(word[k]), cwd, is_dir)
}

/// Typing a word while renaming or creating appends the whole word to what
/// had been typed, and changes nothing else.
pub proof fn lemma_typing_a_word(s: AppView, ops: Seq<Op>, word: Seq<char>, cwd: Seq<char>, is_dir: bool)
    requires
        s.input_mode == InputMode::Rename || s.input_mode == InputMode::Create,
        !word.contains('\n'),
        is_typing(ops, word, cwd, is_dir),
    ensures
        apply_all(s, ops) == (AppView { input: s.input + word, ..s }),
    decreases word.len(),
{
    if word.len() == 0 {
        assert(s.input + word =~= s.input);
    } else {
        assert(word[0] != '\n') by {
            assert(word.contains(word[0]));
        }
        assert(ops[0] == Op::Key(Key::Char(word[0]), cwd, is_dir));
        let t = apply(s, ops[0]);
        assert(t == (AppView { input: s.input.push(word[0]), ..s }));
        let rest = word.drop_first();
        assert(!rest.contains('\n')) by {
            if rest.contains('\n') {
                let k = choose|k: int| 0 <= k < rest.len() && rest[k] == '\n';
                assert(word[k + 1] == '\n');
            }
        }
        assert forall|k: int| 0 <= k < ops.drop_first().len() implies #[trigger] ops.drop_first()[k]
            == Op::Key(Key::Char(rest[k]), cwd, is_dir) by {
            assert(ops[k + 1] == Op::Key(Key::Char(word[k + 1]), cwd, is_dir));
        }
        lemma_typing_a_word(t, ops.drop_first(), rest, cwd, is_dir);
        assert(t.input + rest =~= s.input + word);
    }
}

/// Typing a name after `c` in normal mode, then Enter, creates a file of
/// exactly that name, and leaves normal mode.
pub proof fn lemma_create_names_the_file(
    s: AppView,
    ops: Seq<Op>,
    name: Seq<char>,
    cwd: Seq<char>,
    is_dir: bool,
)
    requires
        is_typing(ops, name, cwd, is_dir),
        s.input_mode == InputMode::Normal,
        s.input.len() == 0,
        !name.contains('\n'),
    ensures
        ({
            let creating = key_step(s, Key::Char('c'), cwd, is_dir).0;
            let typed = apply_all(creating, ops);
            let (last, command) = key_step(typed, Key::Char('\n'), cwd, is_dir);
            &&& creating.input_mode == InputMode::Create
            &&& command == CommandView::Create(name)
            &&& last.input_mode == InputMode::Normal
        }),
{
    let creating = key_step(s, Key::Char('c'), cwd, is_dir).0;
    lemma_typing_a_word(creating, ops, name, cwd, is_dir);
    assert(creating.input + name =~= name);
}

/// Typing a name after `r` in normal mode, then Enter, renames the selected
/// file to exactly that name, and leaves normal mode with nothing typed.
pub proof fn lemma_rename_uses_the_name(
    s: AppView,
    ops: Seq<Op>,
    name: Seq<char>,
    cwd: Seq<char>,
    is_dir: bool,
)
    requires
        is_typing(ops, name, cwd, is_dir),
        s.input_mode == InputMode::Normal,
        s.input.len() == 0,
        !name.contains('\n'),
    ensures
        ({
            let renaming = key_step(s, Key::Char('r'), cwd, is_dir).0;
            let typed = apply_all(renaming, ops);
            let (last, command) = key_step(typed, Key::Char('\n'), cwd, is_dir);
            &&& renaming.input_mode == InputMode::Rename
            &&& command == CommandView::Rename(s.selected_file, name)
            &&& last.input_mode == InputMode::Normal
            &&& last.input.len() == 0
        }),
{
    let renaming = key_step(s, Key::Char('r'), cwd, is_dir).0;
    lemma_typing_a_word(renaming, ops, name, cwd, is_dir);
    assert(renaming.input + name =~= name);
}

/// `y` while a deletion waits deletes the selected file, goes back to normal
/// mode with nothing typed, and keeps the selection unless it was on the
/// last line or below, where it goes to the line before the last.
pub proof fn lemma_delete_confirmed(s: AppView, cwd: Seq<char>, is_dir: bool)
    requires
        s.input_mode == InputMode::Delete,
        !key_fails(s, Key::Char('y'), cwd),
    ensures
        ({
            let (next, command) = key_step(s, Key::Char('y'), cwd, is_dir);
            &&& command == CommandView::Delete(s.selected_file)
            &&& next.input_mode == InputMode::Normal
            &&& next.input.len() == 0
            &&& s.selected + 1 < line_count(s) ==> next.selected == s.selected
            &&& s.selected + 1 >= line_count(s) ==> next.selected as int == line_count(s) - 2
            &&& next.dir == s.dir && next.selected_file == s.selected_file
        }),
{
}

/// In normal mode `r`, `d` and `c` start renaming, deleting and creating,
/// keeping what was typed; other characters but `q` and `h` do nothing.
pub proof fn lemma_mode_keys(s: AppView, c: char, cwd: Seq<char>, is_dir: bool)
    requires
        s.input_mode == InputMode::Normal,
    ensures
        c == 'r' ==> key_step(s, Key::Char(c), cwd, is_dir) == (
            AppView { input_mode: InputMode::Rename, ..s },
            CommandView::Nothing,
        ),
        c == 'd' ==> key_step(s, Key::Char(c), cwd, is_dir) == (
            AppView { input_mode: InputMode::Delete, ..s },
            CommandView::Nothing,
        ),
        c == 'c' ==> key_step(s, Key::Char(c), cwd, is_dir) == (
            AppView { input_mode: InputMode::Create, ..s },
            CommandView::Nothing,
        ),
        c != 'r' && c != 'd' && c != 'c' && c != 'q' && c != 'h' && c != '\n' ==> key_step(
            s,
            Key::Char(c),
            cwd,
            is_dir,
        ) == (s, CommandView::Nothing),
{
}


/// `w` occurs in `t`.
pub open spec fn contains_text(t: Seq<char>, w: Seq<char>) -> bool {
    exists|k: int| 0 <= k && k + w.len() <= t.len() && #[trigger] t.subrange(k, k + w.len()) == w
}

proof fn lemma_contains_middle(a: Seq<char>, w: Seq<char>, b: Seq<char>)
    ensures
        contains_text(a + w + b, w),
{
    assert((a + w + b).subrange(a.len() as int, (a.len() + w.len()) as int) =~= w);
}

/// `true` or `false`, written out.
pub open spec fn flag(b: bool) -> Seq<char> {
    if b {
        "true"@
    } else {
        "false"@
    }
}

proof fn lemma_contains_extend(x: Seq<char>, y: Seq<char>, w: Seq<char>)
    requires
        contains_text(x, w),
    ensures
        contains_text(x + y, w),
{
    let k = choose|k: int| 0 <= k && k + w.len() <= x.len() && #[trigger] x.subrange(k, k + w.len()) == w;
    assert((x + y).subrange(k, k + w.len()) =~= x.subrange(k, k + w.len()));
}

/// The information text from its `k`-th piece on: the pieces are the labels
/// and the values, in order.
spec fn info_piece(i: FileInfo, k: int) -> Seq<char> {
    if k == 0 { "Size: "@ }
    else if k == 1 { size_text(i.size as nat) }
    else if k == 2 { "\nSymlink: "@ }
    else if k == 3 { bool_text(i.is_symlink) }
    else if k == 4 { "\nDirectory: "@ }
    else if k == 5 { bool_text(i.is_dir) }
    else if k == 6 { "\nPermissions: "@ }
    else if k == 7 { decimal(i.mode as nat) }
    else if k == 8 { "\nRead-only: "@ }
    else if k == 9 { bool_text(i.readonly) }
    else if k == 10 { "\nTime since modification: "@ }
    else if k == 11 { decimal((i.modified_secs as u32) as nat) }
    else if k == 12 { "s\nTime since accessed: "@ }
    else if k == 13 { decimal((i.accessed_secs as u32) as nat) }
    else { "s"@ }
}

/// The first `n` pieces of the information text, joined.
spec fn info_prefix(i: FileInfo, n: nat) -> Seq<char>
    decreases n,
{
    if n == 0 {
        Seq::empty()
    } else {
        info_prefix(i, (n - 1) as nat) + info_piece(i, n - 1)
    }
}

proof fn lemma_info_prefix_whole(i: FileInfo)
    ensures
        info_prefix(i, 15) =~= info_text(i),
{
    reveal_with_fuel(info_prefix, 16);
    assert(info_prefix(i, 1) =~= "Size: "@);
}

/// What occurs in the first `n` pieces occurs in the whole text.
proof fn lemma_info_contains(i: FileInfo, n: nat, w: Seq<char>)
    requires
        n <= 15,
        contains_text(info_prefix(i, n), w),
    ensures
        contains_text(info_text(i), w),
    decreases 15 - n,
{
    if n < 15 {
        lemma_contains_extend(info_prefix(i, n), info_piece(i, n as int), w);
        assert(info_prefix(i, (n + 1) as nat) == info_prefix(i, n) + info_piece(i, n as int));
        lemma_info_contains(i, (n + 1) as nat, w);
    } else {
        lemma_info_prefix_whole(i);
    }
}

/// A value's line: the label at piece `k`, the value at piece `k + 1`, and
/// the line break that starts the label at piece `k + 2`.
proof fn lemma_info_line(i: FileInfo, k: nat, label: Seq<char>, value: Seq<char>, after: Seq<char>)
    requires
        k + 3 <= 15,
        info_piece(i, k as int) == label,
        info_piece(i, k + 1 as int) == value,
        info_piece(i, k + 2 as int) == "\n"@ + after,
    ensures
        contains_text(info_text(i), label + value + "\n"@),
{
    let before = info_prefix(i, k);
    assert(info_prefix(i, k + 1) == before + label);
    assert(info_prefix(i, k + 2) == before + label + value);
    assert(info_prefix(i, k + 3) == before + label + value + ("\n"@ + after));
    assert(info_prefix(i, k + 3) =~= before + (label + value + "\n"@) + after);
    lemma_contains_middle(before, label + value + "\n"@, after);
    lemma_info_contains(i, k + 3, label + value + "\n"@);
}

/// Each line of the information panel reports its own field: the symlink
/// flag, the directory flag, the permission bits in decimal, the read-only
/// flag and the time since modification in seconds (cut to 32 bits); the
/// text starts with the size and ends with the time since access.
pub proof fn lemma_info_lines(i: FileInfo)
    ensures
        info_text(i).take(6) == "Size: "@,
        contains_text(info_text(i), "\nSymlink: "@ + flag(i.is_symlink) + "\n"@),
        contains_text(info_text(i), "\nDirectory: "@ + flag(i.is_dir) + "\n"@),
        contains_text(info_text(i), "\nPermissions: "@ + decimal(i.mode as nat) + "\n"@),
        contains_text(info_text(i), "\nRead-only: "@ + flag(i.readonly) + "\n"@),
        contains_text(
            info_text(i),
            "\nTime since modification: "@ + decimal((i.modified_secs as u32) as nat) + "s\n"@,
        ),
        ({
            let tail = "\nTime since accessed: "@ + decimal((i.accessed_secs as u32) as nat) + "s"@;
            info_text(i).skip(info_text(i).len() - tail.len()) == tail
        }),
{
    reveal_strlit("Size: ");
    reveal_strlit("\n");
    reveal_strlit("s\n");
    reveal_strlit("s");
    reveal_strlit("\nDirectory: ");
    reveal_strlit("Directory: ");
    reveal_strlit("\nPermissions: ");
    reveal_strlit("Permissions: ");
    reveal_strlit("\nRead-only: ");
    reveal_strlit("Read-only: ");
    reveal_strlit("\nTime since modification: ");
    reveal_strlit("Time since modification: ");
    reveal_strlit("s\nTime since accessed: ");
    reveal_strlit("\nTime since accessed: ");
    reveal_strlit("Time since accessed: ");
    lemma_info_prefix_whole(i);
    assert(bool_text(i.is_symlink) == flag(i.is_symlink));
    assert(bool_text(i.is_dir) == flag(i.is_dir));
    assert(bool_text(i.readonly) == flag(i.readonly));
    assert("\nDirectory: "@ =~= "\n"@ + "Directory: "@);
    lemma_info_line(i, 2, "\nSymlink: "@, flag(i.is_symlink), "Directory: "@);
    assert("\nPermissions: "@ =~= "\n"@ + "Permissions: "@);
    lemma_info_line(i, 4, "\nDirectory: "@, flag(i.is_dir), "Permissions: "@);
    assert("\nRead-only: "@ =~= "\n"@ + "Read-only: "@);
    lemma_info_line(i, 6, "\nPermissions: "@, decimal(i.mode as nat), "Read-only: "@);
    assert("\nTime since modification: "@ =~= "\n"@ + "Time since modification: "@);
    lemma_info_line(i, 8, "\nRead-only: "@, flag(i.readonly), "Time since modification: "@);
    let m = decimal((i.modified_secs as u32) as nat);
    assert(info_piece(i, 12) =~= "s\n"@ + "Time since accessed: "@);
    let before = info_prefix(i, 10);
    assert(info_prefix(i, 11) == before + info_piece(i, 10));
    assert(info_prefix(i, 12) == before + info_piece(i, 10) + m);
    assert(info_prefix(i, 13) == before + info_piece(i, 10) + m + info_piece(i, 12));
    let w = "\nTime since modification: "@ + m + "s\n"@;
    assert(info_prefix(i, 13) =~= before + w + "Time since accessed: "@);
    lemma_contains_middle(before, w, "Time since accessed: "@);
    lemma_info_contains(i, 13, w);
    let t = info_text(i);
    let a = decimal((i.accessed_secs as u32) as nat);
    let tail = "\nTime since accessed: "@ + a + "s"@;
    assert(info_piece(i, 12) =~= "s"@ + "\nTime since accessed: "@);
    assert(info_prefix(i, 14) == info_prefix(i, 13) + a);
    assert(info_prefix(i, 15) == info_prefix(i, 14) + "s"@);
    assert(t =~= (info_prefix(i, 12) + "s"@) + tail);
    assert(t.skip(t.len() - tail.len()) =~= tail);
    assert(t.take(6) =~= "Size: "@);
}

/// How the line of `entry` is drawn: the selected file bold in the
/// selected colour whatever it is (blinking while renamed), or bold red
/// while its deletion waits; any other directory bold in the directory
/// colour; any other file in the terminal's own style.
pub proof fn lemma_entry_style(s: AppView, entry: Seq<char>, is_dir: bool)
    ensures
        s.selected_file == entry && (s.input_mode == InputMode::Normal || s.input_mode
            == InputMode::Create) ==> entry_style(s, entry, is_dir) == (ItemStyle {
            fg: Some(s.config.selected_file_color),
            bold: true,
            blink: false,
        }),
        s.selected_file == entry && s.input_mode == InputMode::Rename ==> entry_style(
            s,
            entry,
            is_dir,
        ) == (ItemStyle { fg: Some(s.config.selected_file_color), bold: true, blink: true }),
        s.selected_file == entry && s.input_mode == InputMode::Delete ==> entry_style(
            s,
            entry,
            is_dir,
        ) == (ItemStyle { fg: Some(Color::Red), bold: true, blink: false }),
        s.selected_file != entry && is_dir ==> entry_style(s, entry, is_dir) == (ItemStyle {
            fg: Some(s.config.directory_color),
            bold: true,
            blink: false,
        }),
        s.selected_file != entry && !is_dir ==> entry_style(s, entry, is_dir) == (ItemStyle {
            fg: None,
            bold: false,
            blink: false,
        }),
{
}

/// Taking out a pattern that ends with a character `name` does not hold
/// leaves `name` as it is.
pub proof fn lemma_without_absent(name: Seq<char>, p: Seq<char>)
    requires
        p.len() > 0,
        !name.contains(p.last()),
    ensures
        without(name, p) == name,
    decreases name.len(),
{
    if name.len() >= p.len() {
        if name.take(p.len() as int) == p {
            assert(name[p.len() - 1] == p.last());
        } else {
            let rest = name.skip(1);
            assert(!rest.contains(p.last())) by {
                if rest.contains(p.last()) {
                    let k = choose|k: int| 0 <= k < rest.len() && rest[k] == p.last();
                    assert(name[k + 1] == p.last());
                }
            }
            lemma_without_absent(rest, p);
            assert(name =~= seq![name[0]] + rest);
        }
    }
}

/// The line of a file directly in `cwd`, not selected, shows its bare
/// name; the selected file shows what is typed while it is renamed (a line
/// break while nothing is), and its name and a question while its deletion
/// waits.
pub proof fn lemma_entry_text(s: AppView, name: Seq<char>, cwd: Seq<char>)
    requires
        !name.contains('/'),
    ensures
        ({
            let entry = cwd.push('/') + name;
            &&& (s.selected_file != entry || s.input_mode == InputMode::Normal || s.input_mode
                == InputMode::Create) ==> entry_text(s, entry, cwd) == name
            &&& s.selected_file == entry && s.input_mode == InputMode::Rename && s.input.len() > 0
                ==> entry_text(s, entry, cwd) == s.input
            &&& s.selected_file == entry && s.input_mode == InputMode::Rename && s.input.len() == 0
                ==> entry_text(s, entry, cwd) == "\n"@
            &&& s.selected_file == entry && s.input_mode == InputMode::Delete ==> entry_text(
                s,
                entry,
                cwd,
            ) == name + " [ y/n ]"@
        }),
{
    let p = cwd.push('/');
    let entry = p + name;
    assert(entry.take(p.len() as int) =~= p);
    assert(entry.skip(p.len() as int) =~= name);
    lemma_without_absent(name, p);
    assert(without(entry, p) == name);
}

/// Below 2 to the 53rd a size is its own float value.
pub proof fn lemma_float_exact(n: nat)
    requires
        n < float_exact_limit(),
    ensures
        float_of(n) == n,
{
    assert(float_gap(n) == 1);
    assert(n / 1 == n && n % 1 == 0);
}

/// `hundredths(v, d)` is the nearest number of hundredths to `v / d`: it is
/// off by at most half a hundredth, and on a tie it is even.
pub proof fn lemma_hundredths_nearest(v: nat, d: nat)
    requires
        d > 0,
    ensures
        ({
            let h = hundredths(v, d);
            let diff = 2 * (h * d - 100 * v);
            &&& -(d as int) <= diff <= d
            &&& (diff == d || diff == -(d as int)) ==> h % 2 == 0
        }),
{
    let x = v * 100;
    let q = x / d;
    let r = x % d;
    vstd::arithmetic::div_mod::lemma_fundamental_div_mod(x as int, d as int);
    let h = hundredths(v, d);
    assert(0 <= r < d);
    if 2 * r > d || (2 * r == d && q % 2 == 1) {
        assert(h == q + 1);
        assert(h * d - 100 * v == d - r) by (nonlinear_arith)
            requires
                h == q + 1,
                x == d * q + r,
                x == v * 100,
        ;
    } else {
        assert(h == q);
        assert(h * d - 100 * v == -r) by (nonlinear_arith)
            requires
                h == q,
                x == d * q + r,
                x == v * 100,
        ;
    }
}

/// A size is shown in megabytes when its float value holds more than 1024
/// whole kilobytes, else in kilobytes, with two decimals; below 2 to the
/// 53rd bytes, that is from 1025 kilobytes on.
pub proof fn lemma_size_unit(size: nat)
    ensures
        float_of(size) / 1024 > 1024 ==> size_text(size) == two_places(
            hundredths(float_of(size), 1048576),
        ) + "mb"@,
        float_of(size) / 1024 <= 1024 ==> size_text(size) == two_places(
            hundredths(float_of(size), 1024),
        ) + "kb"@,
        size < float_exact_limit() ==> (size >= 1025 * 1024 <==> float_of(size) / 1024 > 1024),
{
    if size < float_exact_limit() {
        lemma_float_exact(size);
    }
}

/// `move_up` goes to the line above unless on the first line, and
/// `move_down` to the line below unless on the last; a move scrolls back to
/// the top, and nothing else changes.
pub proof fn lemma_moves_one_line(s: AppView)
    ensures
        s.selected > 0 ==> moved_up(s).selected as int == s.selected - 1 && moved_up(s).scroll_offset
            == 0,
        s.selected == 0 ==> moved_up(s) == s,
        s.dir.len() > 0 && s.selected < u16::MAX && s.selected as int != (s.dir.len() - 1) as u16
            ==> moved_down(s).selected
            as int == s.selected + 1 && moved_down(s).scroll_offset == 0,
        0 < s.dir.len() <= u16::MAX + 1 && s.selected + 1 < s.dir.len() ==> moved_down(s).selected
            as int == s.selected + 1,
        0 < s.dir.len() <= u16::MAX + 1 && s.selected + 1 == s.dir.len() ==> moved_down(s) == s,
        moved_up(s).dir == s.dir && moved_up(s).input == s.input && moved_up(s).input_mode
            == s.input_mode && moved_up(s).selected_file == s.selected_file,
        moved_down(s).dir == s.dir && moved_down(s).input == s.input && moved_down(s).input_mode
            == s.input_mode && moved_down(s).selected_file == s.selected_file,
{
}

/// Backspace erases the last character typed while renaming, and does
/// nothing in any other mode or when nothing is typed.
pub proof fn lemma_backspace(s: AppView, cwd: Seq<char>, is_dir: bool)
    ensures
        s.input_mode == InputMode::Rename && s.input.len() > 0 ==> key_step(
            s,
            Key::Backspace,
            cwd,
            is_dir,
        ) == (AppView { input: s.input.take(s.input.len() - 1), ..s }, CommandView::Nothing),
        !(s.input_mode == InputMode::Rename && s.input.len() > 0) ==> key_step(
            s,
            Key::Backspace,
            cwd,
            is_dir,
        ) == (s, CommandView::Nothing),
        key_step(s, Key::Other, cwd, is_dir) == (s, CommandView::Nothing),
{
}

/// While a deletion waits, any key typed but `y` cancels it: back to normal
/// mode with nothing typed, the selection kept, nothing deleted.
pub proof fn lemma_delete_cancelled(s: AppView, c: char, cwd: Seq<char>, is_dir: bool)
    requires
        s.input_mode == InputMode::Delete,
        c != 'y',
    ensures
        key_step(s, Key::Char(c), cwd, is_dir) == (
            AppView { input_mode: InputMode::Normal, input: Seq::empty(), ..s },
            CommandView::Nothing,
        ),
{
}

/// Enter while creating creates the file named by what was typed, goes
/// back to normal mode and keeps what was typed.
pub proof fn lemma_create_enter(s: AppView, cwd: Seq<char>, is_dir: bool)
    requires
        s.input_mode == InputMode::Create,
    ensures
        key_step(s, Key::Char('\n'), cwd, is_dir) == (
            AppView { input_mode: InputMode::Normal, ..s },
            CommandView::Create(s.input),
        ),
{
}

/// With a selection on a line of a listing of at most 65535 lines, no key
/// fails but `y` confirming the deletion of the only file left, and Left in
/// a path with no `/`.
pub proof fn lemma_keys_accepted(s: AppView, key: Key, cwd: Seq<char>)
    requires
        s.selected < s.dir.len() <= u16::MAX,
    ensures
        key_fails(s, key, cwd) <==> (key == Key::Char('y') && s.input_mode == InputMode::Delete
            && s.dir.len() == 1) || (key == Key::Left && !cwd.contains('/')),
{
}

/// The cursor stands one column after the name typed (counted in bytes),
/// starting one column in from `x`, on the selected line while renaming and
/// on the line below the listing while creating, one line down from `y`.
pub proof fn lemma_cursor_position(s: AppView, x: u16, y: u16)
    requires
        encode_utf8(s.input).len() <= u16::MAX,
        s.dir.len() <= u16::MAX,
        !cursor_fails(s, x, y),
    ensures
        s.input_mode == InputMode::Rename ==> (cursor_at(s, x, y) matches Some((cx, cy)) && cx
            == x + encode_utf8(s.input).len() + 1 && cy == y + s.selected + 1),
        s.input_mode == InputMode::Create ==> (cursor_at(s, x, y) matches Some((cx, cy)) && cx
            == x + encode_utf8(s.input).len() + 1 && cy == y + s.dir.len() + 1),
        s.input_mode == InputMode::Normal || s.input_mode == InputMode::Delete ==> cursor_at(
            s,
            x,
            y,
        ) is None,
{
}

/// The number written by the decimal digits `ds`, the first the most
/// significant.
pub open spec fn digits_value(ds: Seq<char>) -> int
    decreases ds.len(),
{
    if ds.len() == 0 {
        0
    } else {
        digits_value(ds.drop_last()) * 10 + (ds.last() as int - 48)
    }
}

/// `ds` holds only the characters `0` to `9`.
pub open spec fn all_digits(ds: Seq<char>) -> bool {
    forall|k: int| 0 <= k < ds.len() ==> '0' <= #[trigger] ds[k] <= '9'
}

proof fn lemma_digit_char(d: nat)
    requires
        d < 10,
    ensures
        digit_char(d) as int == 48 + d,
{
    assert(((48 + d) as u8) as int == 48 + d);
}

/// The decimal writing of `n` is made of digits, starts with `0` only for
/// zero, and writes `n`.
pub proof fn lemma_decimal_writes(n: nat)
    ensures
        decimal(n).len() > 0,
        all_digits(decimal(n)),
        decimal(n)[0] == '0' ==> n == 0,
        digits_value(decimal(n)) == n,
    decreases n,
{
    lemma_digit_char(n % 10);
    if n >= 10 {
        lemma_decimal_writes(n / 10);
        let ds = decimal(n);
        assert(ds.drop_last() =~= decimal(n / 10));
        assert(ds[0] == decimal(n / 10)[0]);
        assert(ds.last() == digit_char(n % 10));
        assert(digits_value(ds) == (n / 10) * 10 + (n % 10));
        assert(n == (n / 10) * 10 + (n % 10));
        assert forall|k: int| 0 <= k < ds.len() implies '0' <= #[trigger] ds[k] <= '9' by {
            if k < ds.len() - 1 {
                assert(ds[k] == decimal(n / 10)[k]);
            }
        }
    } else {
        let ds = decimal(n);
        assert(ds.drop_last() =~= Seq::<char>::empty());
        assert(digits_value(ds.drop_last()) == 0);
        assert(ds.last() == digit_char(n));
        assert(n % 10 == n);
    }
}

/// A number of hundredths is written as the whole part, a point and two
/// digits; taken without the point, the digits write the number itself.
pub proof fn lemma_two_places_writes(h: nat)
    ensures
        ({
            let t = two_places(h);
            let whole = decimal(h / 100);
            &&& t.len() == whole.len() + 3
            &&& t.take(whole.len() as int) == whole
            &&& t[whole.len() as int] == '.'
            &&& all_digits(t.skip(whole.len() + 1int))
            &&& digits_value(whole + t.skip(whole.len() + 1int)) == h
        }),
{
    let whole = decimal(h / 100);
    let t = two_places(h);
    lemma_decimal_writes(h / 100);
    lemma_digit_char((h / 10) % 10);
    lemma_digit_char(h % 10);
    let frac = t.skip(whole.len() + 1int);
    assert(frac =~= seq![digit_char((h / 10) % 10), digit_char(h % 10)]);
    assert(t.take(whole.len() as int) =~= whole);
    let all = whole + frac;
    assert(all.drop_last() =~= whole.push(digit_char((h / 10) % 10)));
    assert(all.drop_last().drop_last() =~= whole);
    assert(all.last() == digit_char(h % 10));
    assert(all.drop_last().last() == digit_char((h / 10) % 10));
    assert(digits_value(all.drop_last()) == (h / 100) * 10 + (h / 10) % 10);
    assert(digits_value(all) == ((h / 100) * 10 + (h / 10) % 10) * 10 + h % 10);
    assert(((h / 100) * 10 + (h / 10) % 10) * 10 + h % 10 == h) by {
        assert(h / 10 == (h / 10 / 10) * 10 + (h / 10) % 10);
        assert(h == (h / 10) * 10 + h % 10);
        vstd::arithmetic::div_mod::lemma_div_denominator(h as int, 10, 10);
    }
}

} // verus!
