//! ANSI color helpers

use vstd::prelude::*;
use vstd::string::*;

verus! {

/// `text` wrapped in the ANSI escape sequence for `style` when `enabled`.
pub open spec fn colorized(text: Seq<char>, style: Seq<char>, enabled: bool) -> Seq<char> {
    if enabled {
        "\x1b["@ + style + "m"@ + text + "\x1b[0m"@
    } else {
        text
    }
}

/// Colorize a string
pub fn colorize(text: &str, style: &str, enabled: bool) -> (r: String)
    ensures
        r@ == colorized(text@, style@, enabled),
{
    if enabled {
        let mut r = String::from_str("\x1b[");
        r.append(style);
        r.append("m");
        r.append(text);
        r.append("\x1b[0m");
        r
    } else {
        text.to_owned()
    }
}

} // verus!
