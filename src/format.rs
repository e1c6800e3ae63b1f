//! Terse text for refusals of the permission gate.

use vstd::prelude::*;

verus! {

/// The text of a refusal: which operation needed which level, and which
/// level is in force, with a hint on what the user can do.
pub open spec fn blocked_text(operation: Seq<char>, required: Seq<char>, current: Seq<char>) -> Seq<char> {
    "[blocked] "@ + operation + " requires '"@ + required + "', current is '"@ + current + "'"@
        + "\n? ask user: increase difficulty level or use per-path override"@
}

/// Formats a refusal of the permission gate.
pub fn format_blocked(operation: &str, required: &str, current: &str) -> (r: String)
    ensures
        r@ == blocked_text(operation@, required@, current@),
{
    let mut out = String::from_str("[blocked] ");
    out.append(operation);
    out.append(" requires '");
    out.append(required);
    out.append("', current is '");
    out.append(current);
    out.append("'");
    out.append("\n? ask user: increase difficulty level or use per-path override");
    out
}

} // verus!
