//! The text that the program writes to its log file, and the answer that
//! ends it.

use vstd::prelude::*;

verus! {

/// One line of the log file: `|<timestamp>|<type>: <message>` and a line
/// break.
pub open spec fn log_line_text(timestamp: Seq<char>, message_type: Seq<char>, message: Seq<char>) -> Seq<char> {
    "|"@ + timestamp + "|"@ + message_type + ": "@ + message + "\n"@
}

/// Formats one line of the log file.
pub fn log_line(timestamp: &str, message_type: &str, message: &str) -> (line: String)
    ensures
        line@ == log_line_text(timestamp@, message_type@, message@),
{
    let mut line = String::from_str("|");
    line.append(timestamp);
    line.append("|");
    line.append(message_type);
    line.append(": ");
    line.append(message);
    line.append("\n");
    line
}

/// Whether an answer line asks to end the program: it starts with `y` or
/// `Y`.
pub fn confirms_exit(line: &str) -> (yes: bool)
    requires
        line@.len() > 0,
    ensures
        yes == (line@[0] == 'y' || line@[0] == 'Y'),
{
    let c = line.get_char(0);
    c == 'y' || c == 'Y'
}

} // verus!
