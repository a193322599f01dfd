use vstd::prelude::*;

verus! {

/// The text of the help panel.
pub open spec fn help_text() -> Seq<char> {
    "
Common

d:
  Delete a file

r:
  Rename a file

c:
  Create a file


Movement

Left arrow key:
  Go back a directory

Right arrow key:
  Go forward a directory

Up arrow key:
  Go up an element

Down arrow key:
  Go down an element

Enter:
  Go forward a directory
        "@
}

/// The help panel's text: the keys and what each does.
pub fn help_message() -> (message: String)
    ensures
        message@ == help_text(),
{
    String::from_str(
        "
Common

d:
  Delete a file

r:
  Rename a file

c:
  Create a file


Movement

Left arrow key:
  Go back a directory

Right arrow key:
  Go forward a directory

Up arrow key:
  Go up an element

Down arrow key:
  Go down an element

Enter:
  Go forward a directory
        ",
    )
}

} // verus!
