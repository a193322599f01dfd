use vstd::prelude::*;

verus! {

/// The text of a file panel: the file's contents, or the error met while
/// reading it.
pub fn read(contents: Result<String, String>) -> (text: String)
    ensures
        contents matches Ok(s) ==> text == s,
        contents matches Err(message) ==> text == message,
{
    match contents {
        Ok(s) => s,
        Err(message) => message,
    }
}

} // verus!
