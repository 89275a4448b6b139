//! What a dialog window says.

use vstd::prelude::*;
use vstd::string::StringExecFns;

verus! {

/// The words with which the character called `name` greets the player.
pub fn dialog_text(name: &str) -> (text: String)
    ensures
        text@ == "I'm "@ + name@,
{
    let mut text = String::from_str("I'm ");
    text.append(name);
    text
}

} // verus!
