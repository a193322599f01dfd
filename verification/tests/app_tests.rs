use filemanager::app::{App, Command, InputMode, ItemStyle, Key};
use filemanager::config::Color;

fn listing(paths: &[&str]) -> Vec<String> {
    paths.iter().map(|s| s.to_string()).collect()
}

fn browser(paths: &[&str]) -> App {
    let mut app = App::default();
    app.load_dir(listing(paths));
    app
}

fn press(app: &mut App, key: Key) -> Command {
    assert!(app.accepts(key, "/home/u"));
    app.handle_key(key, "/home/u", false)
}

fn press_on_dir(app: &mut App, key: Key) -> Command {
    assert!(app.accepts(key, "/home/u"));
    app.handle_key(key, "/home/u", true)
}

#[test]
fn default_state() {
    let app = App::default();
    assert_eq!(app.input_mode, InputMode::Normal);
    assert_eq!(app.input_string, "");
    assert!(!app.help);
    assert_eq!(app.selected(), 0);
    assert_eq!(app.scroll_offset, 0);
    assert!(app.current_dir().is_empty());
    assert_eq!(app.current_file(), "");
    assert_eq!(app.config().title_color, Color::Magenta);
}

#[test]
fn setters_and_getters() {
    let mut app = App::default();
    app.set_dir(listing(&["/a", "/b"]));
    app.set_file("/b".to_string());
    app.set_selected(1);
    assert_eq!(app.current_dir(), &listing(&["/a", "/b"]));
    assert_eq!(app.current_file(), "/b");
    assert_eq!(app.selected(), 1);
}

#[test]
fn move_up_stops_at_the_top() {
    let mut app = browser(&["/a", "/b", "/c"]);
    app.scroll_offset = 7;
    app.move_up();
    assert_eq!(app.selected(), 0);
    assert_eq!(app.scroll_offset, 7);
    app.set_selected(2);
    app.move_up();
    assert_eq!(app.selected(), 1);
    assert_eq!(app.scroll_offset, 0);
}

#[test]
fn move_down_stops_at_the_bottom() {
    let mut app = browser(&["/a", "/b", "/c"]);
    app.move_down();
    app.move_down();
    assert_eq!(app.selected(), 2);
    app.scroll_offset = 3;
    app.move_down();
    assert_eq!(app.selected(), 2);
    assert_eq!(app.scroll_offset, 3);
}

#[test]
fn down_then_up_returns() {
    let mut app = browser(&["/a", "/b", "/c"]);
    app.set_selected(1);
    app.move_down();
    app.move_up();
    assert_eq!(app.selected(), 1);
    assert_eq!(app.scroll_offset, 0);
}

#[test]
fn load_dir_selects_the_file_on_the_selected_line() {
    let mut app = App::default();
    app.set_selected(1);
    app.load_dir(listing(&["/a", "/b"]));
    assert_eq!(app.current_file(), "/b");
    app.load_dir(vec![]);
    assert_eq!(app.current_file(), "");
}

#[test]
fn arrow_keys_move_the_selection() {
    let mut app = browser(&["/a", "/b", "/c"]);
    assert_eq!(press(&mut app, Key::Up), Command::Nothing);
    assert_eq!(app.selected(), 0);
    press(&mut app, Key::Down);
    press(&mut app, Key::Down);
    press(&mut app, Key::Down);
    assert_eq!(app.selected(), 2);
    press(&mut app, Key::Up);
    assert_eq!(app.selected(), 1);
}

#[test]
fn arrows_do_nothing_while_creating() {
    let mut app = browser(&["/a", "/b", "/c"]);
    press(&mut app, Key::Char('c'));
    press(&mut app, Key::Down);
    assert_eq!(app.selected(), 0);
}

#[test]
fn left_goes_to_the_parent() {
    let mut app = browser(&["/a", "/b"]);
    app.set_selected(1);
    assert_eq!(press(&mut app, Key::Left), Command::GoUp("/home/".to_string()));
    assert_eq!(app.selected(), 0);
    assert!(!app.accepts(Key::Left, "no-slash"));
}

#[test]
fn right_and_enter_go_into_directories_only() {
    let mut app = browser(&["/home/u/docs", "/home/u/f"]);
    assert_eq!(press_on_dir(&mut app, Key::Right), Command::Enter("/home/u/docs".to_string()));
    assert_eq!(press(&mut app, Key::Right), Command::Nothing);
    assert_eq!(press_on_dir(&mut app, Key::Char('\n')), Command::Enter("/home/u/docs".to_string()));
}

#[test]
fn rename_flow() {
    let mut app = browser(&["/home/u/old"]);
    press(&mut app, Key::Char('r'));
    assert_eq!(app.input_mode, InputMode::Rename);
    press(&mut app, Key::Char('n'));
    press(&mut app, Key::Char('e'));
    press(&mut app, Key::Char('x'));
    press(&mut app, Key::Backspace);
    press(&mut app, Key::Char('w'));
    assert_eq!(app.input_string, "new");
    assert_eq!(press(&mut app, Key::Char('\n')), Command::Rename("/home/u/old".to_string(), "new".to_string()));
    assert_eq!(app.input_mode, InputMode::Normal);
    assert_eq!(app.input_string, "");
}

#[test]
fn typing_then_erasing_restores_the_name() {
    let mut app = browser(&["/home/u/old"]);
    press(&mut app, Key::Char('r'));
    press(&mut app, Key::Char('a'));
    press(&mut app, Key::Char('é'));
    press(&mut app, Key::Backspace);
    assert_eq!(app.input_string, "a");
    press(&mut app, Key::Backspace);
    press(&mut app, Key::Backspace);
    assert_eq!(app.input_string, "");
}

#[test]
fn create_flow_keeps_the_name_typed() {
    let mut app = browser(&["/home/u/a"]);
    press(&mut app, Key::Char('c'));
    press(&mut app, Key::Char('f'));
    press(&mut app, Key::Backspace);
    assert_eq!(app.input_string, "f");
    assert_eq!(press(&mut app, Key::Char('\n')), Command::Create("f".to_string()));
    assert_eq!(app.input_mode, InputMode::Normal);
    assert_eq!(app.input_string, "f");
}

#[test]
fn delete_flow_moves_the_selection_up_from_the_last_line() {
    let mut app = browser(&["/a", "/b", "/c"]);
    app.set_selected(2);
    app.load_dir(listing(&["/a", "/b", "/c"]));
    press(&mut app, Key::Char('d'));
    assert_eq!(app.input_mode, InputMode::Delete);
    assert_eq!(press(&mut app, Key::Char('y')), Command::Delete("/c".to_string()));
    assert_eq!(app.selected(), 1);
    assert_eq!(app.input_mode, InputMode::Normal);
}

#[test]
fn delete_is_refused_on_the_last_remaining_file() {
    let mut app = browser(&["/only"]);
    press(&mut app, Key::Char('d'));
    assert!(!app.accepts(Key::Char('y'), "/home/u"));
    assert!(app.accepts(Key::Char('n'), "/home/u"));
}

#[test]
fn other_keys_cancel_a_deletion() {
    let mut app = browser(&["/a", "/b"]);
    press(&mut app, Key::Char('d'));
    assert_eq!(press(&mut app, Key::Char('n')), Command::Nothing);
    assert_eq!(app.input_mode, InputMode::Normal);
    press(&mut app, Key::Char('d'));
    assert_eq!(press(&mut app, Key::Char('\n')), Command::Nothing);
    assert_eq!(app.input_mode, InputMode::Normal);
}

#[test]
fn escape_cancels_typing() {
    let mut app = browser(&["/a"]);
    press(&mut app, Key::Char('r'));
    press(&mut app, Key::Char('z'));
    assert_eq!(press(&mut app, Key::Esc), Command::Nothing);
    assert_eq!(app.input_mode, InputMode::Normal);
    assert_eq!(app.input_string, "");
}

#[test]
fn q_quits_and_h_toggles_help() {
    let mut app = browser(&["/a"]);
    press(&mut app, Key::Char('h'));
    assert!(app.help);
    press(&mut app, Key::Char('h'));
    assert!(!app.help);
    assert_eq!(press(&mut app, Key::Char('q')), Command::Quit);
    press(&mut app, Key::Char('c'));
    assert_eq!(press(&mut app, Key::Char('q')), Command::Nothing);
    assert_eq!(app.input_string, "q");
    assert_eq!(press(&mut app, Key::Other), Command::Nothing);
}

#[test]
fn entry_items() {
    let mut app = browser(&["/home/u/a", "/home/u/dir"]);
    let plain = app.entry_item(&"/home/u/dir".to_string(), "/home/u", true);
    assert_eq!(plain.text, "dir");
    assert_eq!(plain.style, ItemStyle { fg: Some(Color::Blue), bold: true, blink: false });
    let sel = app.entry_item(&"/home/u/a".to_string(), "/home/u", false);
    assert_eq!(sel.text, "a");
    assert_eq!(sel.style, ItemStyle { fg: Some(Color::Green), bold: true, blink: false });
    press(&mut app, Key::Char('r'));
    let renaming = app.entry_item(&"/home/u/a".to_string(), "/home/u", false);
    assert_eq!(renaming.text, "\n");
    assert_eq!(renaming.style, ItemStyle { fg: Some(Color::Green), bold: true, blink: true });
    press(&mut app, Key::Char('b'));
    assert_eq!(app.entry_item(&"/home/u/a".to_string(), "/home/u", false).text, "b");
    press(&mut app, Key::Esc);
    press(&mut app, Key::Char('d'));
    let deleting = app.entry_item(&"/home/u/a".to_string(), "/home/u", false);
    assert_eq!(deleting.text, "a [ y/n ]");
    assert_eq!(deleting.style, ItemStyle { fg: Some(Color::Red), bold: true, blink: false });
    let other = app.entry_item(&"/home/u/x".to_string(), "/home/u", false);
    assert_eq!(other.style, ItemStyle { fg: None, bold: false, blink: false });
}

#[test]
fn preview_styles() {
    let app = App::default();
    assert_eq!(app.preview_style(true), ItemStyle { fg: Some(Color::Blue), bold: true, blink: false });
    assert_eq!(app.preview_style(false), ItemStyle { fg: None, bold: false, blink: false });
}

#[test]
fn cursor_positions() {
    let mut app = browser(&["/a", "/b", "/c"]);
    assert_eq!(app.cursor(0, 0), None);
    app.set_selected(1);
    press(&mut app, Key::Char('r'));
    press(&mut app, Key::Char('é'));
    assert_eq!(app.cursor(10, 5), Some((13, 7)));
    press(&mut app, Key::Esc);
    press(&mut app, Key::Char('c'));
    press(&mut app, Key::Char('x'));
    assert_eq!(app.cursor(10, 5), Some((12, 9)));
    assert!(!app.cursor_fits(u16::MAX - 1, 0));
    assert!(app.cursor_fits(0, 0));
}

#[test]
fn field_getters_and_setters() {
    let mut app = App::default();
    assert_eq!(app.input_mode(), InputMode::Normal);
    assert_eq!(app.input(), "");
    assert!(!app.help());
    assert_eq!(app.scroll_offset(), 0);
    app.set_input_mode(InputMode::Create);
    app.set_input("name".to_string());
    app.set_help(true);
    app.set_scroll_offset(4);
    assert_eq!(app.input_mode(), InputMode::Create);
    assert_eq!(app.input(), "name");
    assert!(app.help());
    assert_eq!(app.scroll_offset(), 4);
}

#[test]
fn values_set_are_kept_by_other_calls() {
    let mut app = App::default();
    app.set_selected(9);
    app.set_dir(listing(&["/a", "/b"]));
    app.set_file("/z".to_string());
    app.set_help(true);
    app.set_input("t".to_string());
    app.set_input_mode(InputMode::Rename);
    app.set_scroll_offset(2);
    assert_eq!(app.selected(), 9);
    assert_eq!(app.current_dir(), &listing(&["/a", "/b"]));
    assert_eq!(app.current_file(), "/z");
    app.move_up();
    app.set_selected(1);
    press(&mut app, Key::Char('x'));
    press(&mut app, Key::Esc);
    press(&mut app, Key::Down);
    assert_eq!(app.current_dir(), &listing(&["/a", "/b"]));
    assert_eq!(app.current_file(), "/z");
    assert_eq!(app.config().title_color, Color::Magenta);
    assert_eq!(app.config().selected_file_color, Color::Green);
    assert_eq!(app.config().directory_color, Color::Blue);
}
