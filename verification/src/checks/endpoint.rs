//! The connection settings of a check and what the checks derive from them.
use vstd::prelude::*;
use crate::checks::common::{shell_escape, shell_escape_spec};
use crate::text::{chars_of, push_all, push_str, string_of, trim, trim_char_spec, trim_spec};

verus! {

/// Connection settings of one check, as saved with `dm check-config`.
pub struct EndpointConfig {
    pub host: String,
    pub port: String,
    pub url: String,
    pub username: String,
    pub password: String,
    pub service_prefix: String,
    pub config_path: String,
    pub data_path: String,
    pub log_path: String,
    pub program_path: String,
}

/// A setting trimmed, or `default` where it is blank.
pub open spec fn or_default(value: Seq<char>, default: Seq<char>) -> Seq<char> {
    if trim_spec(value).len() == 0 {
        default
    } else {
        trim_spec(value)
    }
}

/// `s` without the `/` characters at its end.
pub open spec fn strip_trailing_slashes(s: Seq<char>) -> Seq<char>
    decreases s.len(),
{
    if s.len() > 0 && s.last() == '/' {
        strip_trailing_slashes(s.drop_last())
    } else {
        s
    }
}

fn trimmed_or(value: &str, default: &str) -> (r: String)
    ensures
        r@ == or_default(value@, default@),
{
    let vc = chars_of(value);
    let t = trim(vc.as_slice());
    if t.len() == 0 {
        default.to_owned()
    } else {
        string_of(t.as_slice())
    }
}

impl EndpointConfig {
    /// The host and port to connect to: the configured ones, trimmed, or the
    /// defaults where they are blank.
    pub fn address(&self, default_host: &str, default_port: &str) -> (r: (String, String))
        ensures
            r.0@ == or_default(self.host@, default_host@),
            r.1@ == or_default(self.port@, default_port@),
    {
        (trimmed_or(self.host.as_str(), default_host), trimmed_or(self.port.as_str(), default_port))
    }

    /// The base URL: the configured URL trimmed and without trailing `/`, else
    /// `<scheme>://<host>:<port>` from the address.
    pub fn base_url(&self, default_scheme: &str, default_host: &str, default_port: &str) -> (r: String)
        ensures
            r@ == (if trim_spec(self.url@).len() > 0 {
                strip_trailing_slashes(trim_spec(self.url@))
            } else {
                default_scheme@ + "://"@ + or_default(self.host@, default_host@) + ":"@ + or_default(
                    self.port@,
                    default_port@,
                )
            }),
    {
        let uc = chars_of(self.url.as_str());
        let t = trim(uc.as_slice());
        if t.len() > 0 {
            let mut n = t.len();
            assert(t@.take(n as int) =~= t@);
            while n > 0 && t[n - 1] == '/'
                invariant
                    n <= t@.len(),
                    strip_trailing_slashes(t@) == strip_trailing_slashes(t@.take(n as int)),
                decreases n,
            {
                assert(t@.take(n as int).drop_last() =~= t@.take(n - 1));
                n = n - 1;
            }
            let kept = crate::text::slice_to_vec(t.as_slice(), 0, n);
            proof {
                if n > 0 {
                    assert(t@.take(n as int).last() == t@[n - 1]);
                }
                assert(kept@ =~= t@.take(n as int));
                assert(t@.take(t@.len() as int) =~= t@);
            }
            return string_of(kept.as_slice());
        }
        let (host, port) = self.address(default_host, default_port);
        let mut out: Vec<char> = chars_of(default_scheme);
        push_str(&mut out, "://");
        push_str(&mut out, host.as_str());
        push_str(&mut out, ":");
        push_str(&mut out, port.as_str());
        string_of(out.as_slice())
    }
}

/// The Kafka bootstrap server: the configured URL trimmed, else `<host>:<port>` with
/// `127.0.0.1` and `9092` as defaults.
pub fn kafka_bootstrap(cfg: &EndpointConfig) -> (r: String)
    ensures
        r@ == (if trim_spec(cfg.url@).len() > 0 {
            trim_spec(cfg.url@)
        } else {
            or_default(cfg.host@, "127.0.0.1"@) + ":"@ + or_default(cfg.port@, "9092"@)
        }),
{
    let uc = chars_of(cfg.url.as_str());
    let t = trim(uc.as_slice());
    if t.len() > 0 {
        return string_of(t.as_slice());
    }
    let (host, port) = cfg.address("127.0.0.1", "9092");
    let mut out: Vec<char> = chars_of(host.as_str());
    push_str(&mut out, ":");
    push_str(&mut out, port.as_str());
    string_of(out.as_slice())
}

/// The credentials part of a `mysql` command line: `-u <user>` where a user is set,
/// then ` -p<password>` where a password is set, each shell-quoted.
pub fn mysql_auth(cfg: &EndpointConfig) -> (r: String)
    ensures
        r@ == (if trim_spec(cfg.username@).len() > 0 {
            "-u "@ + shell_escape_spec(cfg.username@)
        } else {
            Seq::empty()
        }) + (if trim_spec(cfg.password@).len() > 0 {
            " -p"@ + shell_escape_spec(cfg.password@)
        } else {
            Seq::empty()
        }),
{
    let mut out: Vec<char> = Vec::new();
    let uc = chars_of(cfg.username.as_str());
    if trim(uc.as_slice()).len() > 0 {
        push_str(&mut out, "-u ");
        let e = shell_escape(cfg.username.as_str());
        push_str(&mut out, e.as_str());
    }
    let ghost head = out@;
    let pc = chars_of(cfg.password.as_str());
    if trim(pc.as_slice()).len() > 0 {
        push_str(&mut out, " -p");
        let e = shell_escape(cfg.password.as_str());
        push_str(&mut out, e.as_str());
    }
    let r = string_of(out.as_slice());
    assert(r@ =~= head + (if trim_spec(cfg.password@).len() > 0 {
        " -p"@ + shell_escape_spec(cfg.password@)
    } else {
        Seq::empty()
    }));
    r
}

} // verus!
