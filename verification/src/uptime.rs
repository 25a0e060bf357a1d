//! The page that shows for how long the system has been up.

use crate::page::Interval;
use crate::text::{decimal, push_decimal};
use vstd::prelude::*;
use vstd::string::*;

verus! {

/// For how long the system has been up.
#[derive(Clone, Copy, Debug, PartialEq, Eq, Structural)]
pub struct Uptime {
    pub uptime: Interval,
}

/// The text that stands for a duration on the page: its full seconds in
/// decimal notation, and the unit.
pub open spec fn duration_text(duration: Interval) -> Seq<char> {
    decimal((duration.millis / 1000) as nat) + "s"@
}

/// Writes a duration as the page shows it.
pub fn serialize_duration_as_string(duration: &Interval) -> (r: String)
    ensures
        r@ == duration_text(*duration),
{
    let mut out = String::new();
    push_decimal(&mut out, duration.millis / 1000);
    out.append("s");
    assert(out@ =~= duration_text(*duration));
    out
}

} // verus!
