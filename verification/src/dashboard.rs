//! Dashboard process views: readable process states and the path shown for a process.
use vstd::prelude::*;
use crate::text::{chars_of, push_all, push_str, split_whitespace, split_ws, starts_with_spec, starts_with_str, string_of, trim, trim_spec, views};
use crate::checks::java_service::{clean_token, clean_token_spec};

verus! {

pub struct NetInterface {
    pub name: String,
    pub ip: String,
    pub mac: String,
    pub received_bytes: u64,
    pub transmitted_bytes: u64,
    pub received_packets: u64,
    pub transmitted_packets: u64,
    pub received_errors: u64,
    pub transmitted_errors: u64,
}

/// The label for a `ps` state letter.
pub open spec fn state_label(c: char) -> Seq<char> {
    if c == 'R' {
        "运行"@
    } else if c == 'S' {
        "睡眠"@
    } else if c == 'D' {
        "等待IO"@
    } else if c == 'T' || c == 't' {
        "停止"@
    } else if c == 'Z' {
        "僵尸"@
    } else if c == 'I' {
        "空闲"@
    } else if c == 'W' {
        "换页"@
    } else if c == 'X' || c == 'x' {
        "退出"@
    } else if c == 'K' {
        "唤醒"@
    } else if c == 'P' {
        "暂停"@
    } else {
        "未知"@
    }
}

/// `未知` for an empty state, else the label of its first letter followed by the raw
/// state in brackets, as in `运行(R+)`.
pub open spec fn normalize_process_status_spec(stat: Seq<char>) -> Seq<char> {
    if stat.len() == 0 {
        "未知"@
    } else {
        state_label(stat[0]) + "("@ + stat + ")"@
    }
}

fn label_of(c: char) -> (r: &'static str)
    ensures
        r@ == state_label(c),
{
    match c {
        'R' => "运行",
        'S' => "睡眠",
        'D' => "等待IO",
        'T' | 't' => "停止",
        'Z' => "僵尸",
        'I' => "空闲",
        'W' => "换页",
        'X' | 'x' => "退出",
        'K' => "唤醒",
        'P' => "暂停",
        _ => "未知",
    }
}

pub fn normalize_process_status(stat: &str) -> (r: String)
    ensures
        r@ == normalize_process_status_spec(stat@),
{
    let sc = chars_of(stat);
    if sc.len() == 0 {
        return "未知".to_owned();
    }
    let mut out = chars_of(label_of(sc[0]));
    push_str(&mut out, "(");
    push_all(&mut out, sc.as_slice());
    push_str(&mut out, ")");
    string_of(out.as_slice())
}

/// The first cleaned word of the command that is an absolute path outside `/proc/`.
pub open spec fn first_abs_word(toks: Seq<Seq<char>>) -> Option<Seq<char>>
    decreases toks.len(),
{
    if toks.len() == 0 {
        None
    } else {
        let t = clean_token_spec(toks[0]);
        if starts_with_spec(t, "/"@) && !starts_with_spec(t, "/proc/"@) {
            Some(t)
        } else {
            first_abs_word(toks.drop_first())
        }
    }
}

/// The path shown for a process: its executable link when known, else an absolute path
/// from its command line, else the command, else the name, else `unknown`.
pub open spec fn infer_process_path_spec(exe: Seq<char>, cmd: Seq<char>, name: Seq<char>) -> Seq<char> {
    if exe.len() > 0 {
        exe
    } else {
        match first_abs_word(split_ws(cmd)) {
            Some(t) => t,
            None => if trim_spec(cmd).len() > 0 {
                trim_spec(cmd)
            } else if trim_spec(name).len() > 0 {
                trim_spec(name)
            } else {
                "unknown"@
            },
        }
    }
}

/// `infer_process_path` with the target of `/proc/<pid>/exe` given as `exe` (empty
/// when it could not be read).
pub fn infer_process_path(exe: &str, cmd: &str, name: &str) -> (r: String)
    ensures
        r@ == infer_process_path_spec(exe@, cmd@, name@),
{
    let ec = chars_of(exe);
    if ec.len() > 0 {
        return exe.to_owned();
    }
    let cc = chars_of(cmd);
    let toks = split_whitespace(cc.as_slice());
    let ghost tv = views(toks@);
    let mut i: usize = 0;
    assert(tv.skip(0) =~= tv);
    while i < toks.len()
        invariant
            i <= toks.len(),
            tv == views(toks@),
            tv == split_ws(cmd@),
            exe@.len() == 0,
            first_abs_word(tv) == first_abs_word(tv.skip(i as int)),
        decreases toks.len() - i,
    {
        proof {
            assert(tv.skip(i as int)[0] == toks@[i as int]@);
            assert(tv.skip(i as int).drop_first() =~= tv.skip(i + 1));
        }
        let t = clean_token(toks[i].as_slice());
        if starts_with_str(t.as_slice(), "/") && !starts_with_str(t.as_slice(), "/proc/") {
            return string_of(t.as_slice());
        }
        i = i + 1;
    }
    let tc = trim(cc.as_slice());
    if tc.len() > 0 {
        return string_of(tc.as_slice());
    }
    let nc = chars_of(name);
    let tn = trim(nc.as_slice());
    if tn.len() > 0 {
        return string_of(tn.as_slice());
    }
    "unknown".to_owned()
}

} // verus!
