//! How long ago a script last ran, as the script list shows it.
use vstd::prelude::*;
use crate::text::{dec_spec, push_dec, push_str, string_of};

verus! {

/// The age of the last run, `diff` seconds ago: `刚刚` under a minute (or in the
/// future), else whole minutes, hours or days.
pub open spec fn relative_age_spec(diff: int) -> Seq<char> {
    if diff < 60 {
        "刚刚"@
    } else if diff / 60 < 60 {
        dec_spec((diff / 60) as nat) + "分钟前"@
    } else if diff / 3600 < 24 {
        dec_spec((diff / 3600) as nat) + "小时前"@
    } else {
        dec_spec((diff / 86400) as nat) + "天前"@
    }
}

pub fn relative_age(diff_secs: i64) -> (r: String)
    ensures
        r@ == relative_age_spec(diff_secs as int),
{
    if diff_secs < 60 {
        return "刚刚".to_owned();
    }
    let d = diff_secs as u64;
    let mut out: Vec<char> = Vec::new();
    if d / 60 < 60 {
        push_dec(&mut out, d / 60);
        push_str(&mut out, "分钟前");
    } else if d / 3600 < 24 {
        push_dec(&mut out, d / 3600);
        push_str(&mut out, "小时前");
    } else {
        push_dec(&mut out, d / 86400);
        push_str(&mut out, "天前");
    }
    string_of(out.as_slice())
}

} // verus!
