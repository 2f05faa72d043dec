//! The script-facing logging module's verified core: building the line
//! that is handed to the log sink. The sink itself (file, terminal) is
//! outside work performed by the host around this module.
use vstd::prelude::*;
use vstd::string::*;

use crate::text;

verus! {

/// The line a script logging call produces: the (already styled) tag,
/// one space, then the arguments joined with single spaces.
pub fn log_line(tag: &str, args: &Vec<String>) -> (r: String)
    ensures
        r@ == tag@ + " "@ + text::space_joined(args.deep_view()),
{
    let mut out = String::from_str(tag);
    out.append(" ");
    let joined = text::join_with_spaces(args);
    out.append(joined.as_str());
    out
}

} // verus!
