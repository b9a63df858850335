//! What a check shows of a configuration file and of a log: the path it reads, the
//! first lines of the configuration and the matching log lines, numbered.
use vstd::prelude::*;
use crate::checks::common::{truncate, truncate_spec};
use crate::text::{chars_of, dec, dec_spec, lines, lines_spec, string_of, string_views, trim, trim_spec, views};

verus! {

/// Row `i` of a numbered table: the number `i + 1` and the line cut to `width`
/// characters.
pub open spec fn cut_row(ls: Seq<Seq<char>>, i: int, width: nat) -> Seq<Seq<char>> {
    seq![dec_spec((i + 1) as nat), truncate_spec(ls[i], width)]
}

/// The path a check reads: the configured one unless it is blank, else the first of
/// the default paths that exist.
pub open spec fn configured_or_first_spec(value: Seq<char>, existing: Seq<Seq<char>>) -> Option<Seq<char>> {
    if trim_spec(value).len() > 0 {
        Some(value)
    } else if existing.len() > 0 {
        Some(existing[0])
    } else {
        None
    }
}

pub open spec fn opt_string_view(o: Option<String>) -> Option<Seq<char>> {
    match o {
        Some(s) => Some(s@),
        None => None,
    }
}

/// `existing` holds the default paths that exist, in the order they are tried.
pub fn configured_or_first(value: &str, existing: &Vec<String>) -> (r: Option<String>)
    ensures
        opt_string_view(r) == configured_or_first_spec(value@, string_views(existing@)),
{
    let vc = chars_of(value);
    let t = trim(vc.as_slice());
    if t.len() > 0 {
        Some(value.to_owned())
    } else if existing.len() > 0 {
        Some(existing[0].clone())
    } else {
        None
    }
}

fn numbered_cut(ls: &Vec<Vec<char>>, cap: usize, width: usize) -> (r: Vec<Vec<String>>)
    ensures
        r@.len() == (if ls@.len() > cap {
            cap as int
        } else {
            ls@.len() as int
        }),
        forall|i: int| 0 <= i < r@.len() ==> string_views(#[trigger] r@[i]@) == cut_row(views(ls@), i, width as nat),
{
    let ghost lv = views(ls@);
    let n: usize = if ls.len() > cap {
        cap
    } else {
        ls.len()
    };
    let mut out: Vec<Vec<String>> = Vec::new();
    let mut i: usize = 0;
    while i < n
        invariant
            i <= n,
            n <= ls@.len(),
            n <= cap,
            lv == views(ls@),
            out@.len() == i,
            forall|k: int| 0 <= k < i ==> string_views(#[trigger] out@[k]@) == cut_row(lv, k, width as nat),
        decreases n - i,
    {
        let num = string_of(dec((i + 1) as u64).as_slice());
        let line = string_of(ls[i].as_slice());
        let cut = truncate(line.as_str(), width);
        let row = vec![num, cut];
        assert(string_views(row@) =~= cut_row(lv, i as int, width as nat));
        out.push(row);
        i = i + 1;
    }
    out
}

/// The preview of a configuration file: its first 160 lines, numbered from 1, each
/// cut to 220 characters.
pub fn config_preview_rows(content: &str) -> (r: Vec<Vec<String>>)
    ensures
        ({
            let ls = lines_spec(content@);
            &&& r@.len() == (if ls.len() > 160 {
                160
            } else {
                ls.len()
            })
            &&& forall|i: int| 0 <= i < r@.len() ==> string_views(#[trigger] r@[i]@) == cut_row(ls, i, 220)
        }),
{
    let cc = chars_of(content);
    let ls = lines(cc.as_slice());
    numbered_cut(&ls, 160, 220)
}

/// The table of matching log lines: each numbered from 1 and cut to 260 characters.
pub fn log_rows(errors: &Vec<String>) -> (r: Vec<Vec<String>>)
    ensures
        r@.len() == errors@.len(),
        forall|i: int| 0 <= i < r@.len() ==> string_views(#[trigger] r@[i]@) == cut_row(string_views(errors@), i, 260),
{
    let mut ls: Vec<Vec<char>> = Vec::new();
    let mut i: usize = 0;
    while i < errors.len()
        invariant
            i <= errors@.len(),
            ls@.len() == i,
            forall|k: int| 0 <= k < i ==> #[trigger] ls@[k]@ == errors@[k]@,
        decreases errors.len() - i,
    {
        ls.push(chars_of(errors[i].as_str()));
        i = i + 1;
    }
    assert(views(ls@) =~= string_views(errors@));
    numbered_cut(&ls, errors.len(), 260)
}

} // verus!
