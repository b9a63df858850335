//! Importing documents from the command line: the title of a Markdown file, its body
//! without header lines, and the identifier made from a title.
use vstd::prelude::*;
use crate::text::{chars_of, is_alphanumeric, is_ascii_alnum, join, join_spec, lines, lines_spec, push_str, slice_to_vec, split_char, split_char_spec, starts_with_spec, starts_with_str, string_of, to_lowercase, trim, trim_spec, unicode_alphanumeric, unicode_lowercase, views};

verus! {

/// The first line that starts with `# ` and has a title that is not blank.
pub open spec fn title_of(ls: Seq<Seq<char>>) -> Option<Seq<char>>
    decreases ls.len(),
{
    if ls.len() == 0 {
        None
    } else if starts_with_spec(ls[0], "# "@) && trim_spec(ls[0].skip(2)).len() > 0 {
        Some(trim_spec(ls[0].skip(2)))
    } else {
        title_of(ls.drop_first())
    }
}

pub fn parse_title(content: &str) -> (r: Option<String>)
    ensures
        match title_of(lines_spec(content@)) {
            Some(t) => r matches Some(s) && s@ == t,
            None => r is None,
        },
{
    let cc = chars_of(content);
    let ls = lines(cc.as_slice());
    let ghost lv = views(ls@);
    let mut i: usize = 0;
    assert(lv.skip(0) =~= lv);
    proof {
        reveal_strlit("# ");
    }
    while i < ls.len()
        invariant
            i <= ls@.len(),
            lv == views(ls@),
            lv == lines_spec(content@),
            "# "@.len() == 2,
            title_of(lv) == title_of(lv.skip(i as int)),
        decreases ls.len() - i,
    {
        assert(lv.skip(i as int)[0] == ls@[i as int]@);
        assert(lv.skip(i as int).drop_first() =~= lv.skip(i + 1));
        let line = ls[i].as_slice();
        if starts_with_str(line, "# ") {
            let rest = slice_to_vec(line, 2, line.len());
            assert(rest@ =~= line@.skip(2));
            let t = trim(rest.as_slice());
            if t.len() > 0 {
                return Some(string_of(t.as_slice()));
            }
        }
        i = i + 1;
    }
    None
}

/// The lines kept of an imported file: marker lines and the first title line dropped.
pub open spec fn import_lines(ls: Seq<Seq<char>>) -> (bool, Seq<Seq<char>>)
    decreases ls.len(),
{
    if ls.len() == 0 {
        (false, Seq::empty())
    } else {
        let (skipped, kept) = import_lines(ls.drop_last());
        let line = ls.last();
        if starts_with_spec(line, "<!-- "@) {
            (skipped, kept)
        } else if !skipped && starts_with_spec(line, "# "@) {
            (true, kept)
        } else {
            (skipped, kept.push(line))
        }
    }
}

pub fn strip_import_body(content: &str) -> (r: String)
    ensures
        r@ == trim_spec(join_spec(import_lines(lines_spec(content@)).1, "\n"@)),
{
    let cc = chars_of(content);
    let ls = lines(cc.as_slice());
    let ghost lv = views(ls@);
    let mut skipped = false;
    let mut kept: Vec<Vec<char>> = Vec::new();
    let mut i: usize = 0;
    assert(lv.take(0) =~= Seq::<Seq<char>>::empty());
    assert(views(kept@) =~= Seq::<Seq<char>>::empty());
    while i < ls.len()
        invariant
            i <= ls@.len(),
            lv == views(ls@),
            (skipped, views(kept@)) == import_lines(lv.take(i as int)),
        decreases ls.len() - i,
    {
        let line = ls[i].as_slice();
        assert(lv.take(i + 1).drop_last() =~= lv.take(i as int));
        assert(lv.take(i + 1).last() == line@);
        if starts_with_str(line, "<!-- ") {
        } else if !skipped && starts_with_str(line, "# ") {
            skipped = true;
        } else {
            let ghost before = views(kept@);
            kept.push(slice_to_vec(line, 0, line.len()));
            assert(line@.subrange(0, line@.len() as int) =~= line@);
            assert(views(kept@) =~= before.push(line@));
        }
        i = i + 1;
    }
    assert(lv.take(i as int) =~= lv);
    let nl = chars_of("\n");
    let joined = join(kept.as_slice(), nl.as_slice());
    let t = trim(joined.as_slice());
    string_of(t.as_slice())
}

/// A character of an identifier made from a title: letters and digits (in any
/// script), `-` and `_` are kept, everything else becomes `-`.
pub open spec fn slug_char(c: char) -> char {
    if is_ascii_alnum(c) || c == '-' || c == '_' || unicode_alphanumeric(c) {
        c
    } else {
        '-'
    }
}

/// The pieces between dashes that are not empty.
pub open spec fn nonempty_pieces(ps: Seq<Seq<char>>) -> Seq<Seq<char>>
    decreases ps.len(),
{
    if ps.len() == 0 {
        ps
    } else if ps.last().len() > 0 {
        nonempty_pieces(ps.drop_last()).push(ps.last())
    } else {
        nonempty_pieces(ps.drop_last())
    }
}

/// The identifier made from a title: trimmed, lowercased, other characters made `-`,
/// runs of `-` and dashes at the ends dropped, at most 96 characters; `doc-<now>`
/// when nothing is left.
pub open spec fn slug_spec(value: Seq<char>, now: Seq<char>) -> Seq<char> {
    let mapped = unicode_lowercase(trim_spec(value)).map_values(|c: char| slug_char(c));
    let clean = join_spec(nonempty_pieces(split_char_spec(mapped, '-')), "-"@);
    if clean.len() == 0 {
        "doc-"@ + now
    } else if clean.len() > 96 {
        clean.take(96)
    } else {
        clean
    }
}

pub fn slug(value: &str, now: &str) -> (r: String)
    ensures
        r@ == slug_spec(value@, now@),
{
    let vc = chars_of(value);
    let t = trim(vc.as_slice());
    let lower = to_lowercase(t.as_slice());
    let mut mapped: Vec<char> = Vec::new();
    let mut i: usize = 0;
    while i < lower.len()
        invariant
            i <= lower@.len(),
            mapped@ == lower@.take(i as int).map_values(|c: char| slug_char(c)),
        decreases lower.len() - i,
    {
        let c = lower[i];
        let keep = (c as u32) < 128 && (('a' <= c && c <= 'z') || ('A' <= c && c <= 'Z') || ('0' <= c
            && c <= '9')) || c == '-' || c == '_' || is_alphanumeric(c);
        let d = if keep {
            c
        } else {
            '-'
        };
        assert(d == slug_char(c));
        mapped.push(d);
        assert(lower@.take(i + 1).map_values(|c: char| slug_char(c)) =~= lower@.take(i as int).map_values(
            |c: char| slug_char(c),
        ).push(d));
        i = i + 1;
    }
    assert(lower@.take(i as int) =~= lower@);
    let pieces = split_char(mapped.as_slice(), '-');
    let ghost pv = views(pieces@);
    let mut kept: Vec<Vec<char>> = Vec::new();
    let mut j: usize = 0;
    assert(pv.take(0) =~= Seq::<Seq<char>>::empty());
    assert(views(kept@) =~= Seq::<Seq<char>>::empty());
    while j < pieces.len()
        invariant
            j <= pieces@.len(),
            pv == views(pieces@),
            views(kept@) == nonempty_pieces(pv.take(j as int)),
        decreases pieces.len() - j,
    {
        assert(pv.take(j + 1).drop_last() =~= pv.take(j as int));
        assert(pv.take(j + 1).last() == pieces@[j as int]@);
        if pieces[j].len() > 0 {
            let ghost before = views(kept@);
            kept.push(slice_to_vec(pieces[j].as_slice(), 0, pieces[j].len()));
            assert(pieces@[j as int]@.subrange(0, pieces@[j as int]@.len() as int) =~= pieces@[j as int]@);
            assert(views(kept@) =~= before.push(pv[j as int]));
        }
        j = j + 1;
    }
    assert(pv.take(j as int) =~= pv);
    let dash = vec!['-'];
    assert(dash@ =~= "-"@) by {
        reveal_strlit("-");
    }
    let clean = join(kept.as_slice(), dash.as_slice());
    if clean.len() == 0 {
        let mut out: Vec<char> = Vec::new();
        push_str(&mut out, "doc-");
        push_str(&mut out, now);
        string_of(out.as_slice())
    } else if clean.len() > 96 {
        let cut = slice_to_vec(clean.as_slice(), 0, 96);
        assert(cut@ =~= clean@.take(96));
        string_of(cut.as_slice())
    } else {
        string_of(clean.as_slice())
    }
}

} // verus!
