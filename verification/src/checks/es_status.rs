//! How the Elasticsearch check reaches the cluster and what it makes of the health
//! status it gets back.
use vstd::prelude::*;
use crate::checks::common::{shell_escape, shell_escape_spec};
use crate::checks::endpoint::EndpointConfig;
use crate::checks::CheckStatus;
use crate::text::{chars_of, eq_str, push_str, string_of, strip_suffixes, trim, trim_end_matches_str, trim_spec};

verus! {

/// The status of the check: a warning when the cluster could not be reached, else
/// by the health status (`green`, `yellow`, `red`), a warning for any other or none.
pub open spec fn es_check_status_spec(connected: bool, status: Option<Seq<char>>) -> CheckStatus {
    if !connected {
        CheckStatus::Warn
    } else {
        match status {
            Some(s) => if s == "green"@ {
                CheckStatus::Healthy
            } else if s == "red"@ {
                CheckStatus::Error
            } else {
                CheckStatus::Warn
            },
            None => CheckStatus::Warn,
        }
    }
}

pub open spec fn opt_str(s: Option<&str>) -> Option<Seq<char>> {
    match s {
        Some(t) => Some(t@),
        None => None,
    }
}

/// `health_status` is the `status` field of `_cluster/health` where it is a string.
pub fn es_check_status(connected: bool, health_status: Option<&str>) -> (r: CheckStatus)
    ensures
        r == es_check_status_spec(connected, opt_str(health_status)),
{
    if !connected {
        return CheckStatus::Warn;
    }
    match health_status {
        Some(s) => {
            let c = chars_of(s);
            if eq_str(c.as_slice(), "green") {
                CheckStatus::Healthy
            } else if eq_str(c.as_slice(), "red") {
                CheckStatus::Error
            } else {
                CheckStatus::Warn
            }
        },
        None => CheckStatus::Warn,
    }
}

/// The level shown beside a cluster health status.
pub open spec fn es_health_level_spec(status: Seq<char>) -> Seq<char> {
    if status == "green"@ {
        "ok"@
    } else if status == "red"@ {
        "error"@
    } else {
        "warn"@
    }
}

pub fn es_health_level(status: &str) -> (r: &'static str)
    ensures
        r@ == es_health_level_spec(status@),
{
    proof {
        reveal_strlit("ok");
        reveal_strlit("error");
        reveal_strlit("warn");
    }
    let c = chars_of(status);
    if eq_str(c.as_slice(), "green") {
        "ok"
    } else if eq_str(c.as_slice(), "red") {
        "error"
    } else {
        "warn"
    }
}

/// The level shown beside the number of unassigned shards.
pub fn unassigned_level(unassigned: i64) -> (r: &'static str)
    ensures
        r@ == (if unassigned > 0 {
            "warn"@
        } else {
            "ok"@
        }),
{
    if unassigned > 0 {
        "warn"
    } else {
        "ok"
    }
}

/// A setting, or `alt` where the setting is blank.
pub fn or_if_blank(value: String, alt: String) -> (r: String)
    ensures
        r@ == (if trim_spec(value@).len() == 0 {
            alt@
        } else {
            value@
        }),
{
    let vc = chars_of(value.as_str());
    let t = trim(vc.as_slice());
    if t.len() == 0 {
        alt
    } else {
        value
    }
}

/// The `curl` command that reads `path` under `base` (its trailing `/` dropped):
/// with `-u user:password` when a user is configured, each part shell-quoted.
pub open spec fn curl_command_spec(base: Seq<char>, path: Seq<char>, username: Seq<char>, password: Seq<char>) -> Seq<char> {
    let url = shell_escape_spec(strip_suffixes(base, "/"@) + path);
    if trim_spec(username).len() > 0 {
        "curl -fsS --max-time 5 -u "@ + shell_escape_spec(username) + ":"@ + shell_escape_spec(password) + " "@ + url
    } else {
        "curl -fsS --max-time 5 "@ + url
    }
}

pub fn curl_command(base: &str, path: &str, cfg: &EndpointConfig) -> (r: String)
    ensures
        r@ == curl_command_spec(base@, path@, cfg.username@, cfg.password@),
{
    let bc = chars_of(base);
    let mut target = trim_end_matches_str(bc.as_slice(), "/");
    push_str(&mut target, path);
    let t = string_of(target.as_slice());
    let url = shell_escape(t.as_str());
    let uc = chars_of(cfg.username.as_str());
    let ut = trim(uc.as_slice());
    let mut out: Vec<char>;
    if ut.len() > 0 {
        out = chars_of("curl -fsS --max-time 5 -u ");
        let user = shell_escape(cfg.username.as_str());
        push_str(&mut out, user.as_str());
        push_str(&mut out, ":");
        let pass = shell_escape(cfg.password.as_str());
        push_str(&mut out, pass.as_str());
        push_str(&mut out, " ");
    } else {
        out = chars_of("curl -fsS --max-time 5 ");
    }
    push_str(&mut out, url.as_str());
    string_of(out.as_slice())
}

} // verus!
