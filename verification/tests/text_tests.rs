use filemanager::config::{Color, Config};
use filemanager::text::{chars_of, has_char, parent_dir, remove_all, string_from_chars};
use filemanager::ui::help_message;

#[test]
fn help_message_text() {
    let expected = "
Common

d:
  Delete a file

r:
  Rename a file

c:
  Create a file


Movement

Left arrow key:
  Go back a directory

Right arrow key:
  Go forward a directory

Up arrow key:
  Go up an element

Down arrow key:
  Go down an element

Enter:
  Go forward a directory
        ";
    assert_eq!(help_message(), expected);
}

#[test]
fn config_default_colours() {
    let c = Config::default();
    assert_eq!(c.title_color, Color::Magenta);
    assert_eq!(c.selected_file_color, Color::Green);
    assert_eq!(c.directory_color, Color::Blue);
}

#[test]
fn remove_all_agrees_with_replace() {
    let cases = [
        ("/home/u/file", "/home/u/"),
        ("/x/y/x/z", "/x/"),
        ("aaaa", "aa"),
        ("aaa", "aa"),
        ("abc", ""),
        ("", "a"),
        ("héllo wörld ö", "ö"),
        ("short", "longer pattern"),
    ];
    for (s, p) in cases {
        assert_eq!(remove_all(s, p), s.replace(p, ""), "{:?} {:?}", s, p);
    }
}

#[test]
fn parent_dir_keeps_the_last_slash() {
    assert_eq!(parent_dir("/home/user"), "/home/");
    assert_eq!(parent_dir("/home"), "/");
    assert_eq!(parent_dir("/"), "/");
    assert_eq!(parent_dir("/tmp/dir/"), "/tmp/dir/");
    assert_eq!(parent_dir("/mnt/données"), "/mnt/");
}

#[test]
fn chars_round_trip() {
    let v = chars_of("añb");
    assert_eq!(v, vec!['a', 'ñ', 'b']);
    assert_eq!(string_from_chars(&v, 2), "añ");
    assert!(has_char("a/b", '/'));
    assert!(!has_char("ab", '/'));
}
