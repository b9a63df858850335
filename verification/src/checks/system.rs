//! System overview text.
use vstd::prelude::*;
use crate::text::{dec_spec, push_dec, push_str, string_of};

verus! {

/// Uptime as days, hours and minutes.
pub open spec fn uptime_text(secs: nat) -> Seq<char> {
    dec_spec(secs / 86400) + "天 "@ + dec_spec((secs % 86400) / 3600) + "时 "@ + dec_spec((secs % 3600) / 60)
        + "分"@
}

pub fn format_uptime(secs: u64) -> (r: String)
    ensures
        r@ == uptime_text(secs as nat),
{
    let mut out: Vec<char> = Vec::new();
    push_dec(&mut out, secs / 86400);
    push_str(&mut out, "天 ");
    push_dec(&mut out, (secs % 86400) / 3600);
    push_str(&mut out, "时 ");
    push_dec(&mut out, (secs % 3600) / 60);
    push_str(&mut out, "分");
    string_of(out.as_slice())
}

} // verus!
