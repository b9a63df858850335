//! Reading `redis-cli INFO` output: one section's lines, and the values of given keys.
use vstd::prelude::*;
use crate::text::{chars_of, join, join_spec, lines, lines_spec, push_str, seq_eq, slice_to_vec, starts_with, starts_with_spec, starts_with_str, string_of, string_views, trim, trim_spec, views};

verus! {

/// Reading INFO text for one section: inside it, past its end, and the lines kept.
pub open spec fn section_scan(ls: Seq<Seq<char>>, section: Seq<char>) -> (bool, bool, Seq<Seq<char>>)
    decreases ls.len(),
{
    if ls.len() == 0 {
        (false, false, Seq::empty())
    } else {
        let (capture, done, out) = section_scan(ls.drop_last(), section);
        let line = ls.last();
        if done {
            (capture, done, out)
        } else if trim_spec(line) == "# "@ + section {
            (true, false, out)
        } else if capture && starts_with_spec(line, "#"@) {
            (capture, true, out)
        } else if capture && trim_spec(line).len() > 0 {
            (capture, false, out.push(line))
        } else {
            (capture, false, out)
        }
    }
}

/// The lines of section `section` (after its `# section` header, up to the next
/// header), blank ones dropped, joined with newlines; `None` when there are none.
pub open spec fn info_section_spec(info: Seq<char>, section: Seq<char>) -> Option<Seq<char>> {
    let out = section_scan(lines_spec(info), section).2;
    if out.len() == 0 {
        None
    } else {
        Some(join_spec(out, "\n"@))
    }
}

pub fn info_section(info: Option<&str>, section: &str) -> (r: Option<String>)
    ensures
        match info_section_spec(
            match info {
                Some(s) => s@,
                None => Seq::empty(),
            },
            section@,
        ) {
            Some(v) => r matches Some(s) && s@ == v,
            None => r is None,
        },
{
    let ic: Vec<char> = match info {
        Some(s) => chars_of(s),
        None => Vec::new(),
    };
    let mut header: Vec<char> = Vec::new();
    push_str(&mut header, "# ");
    push_str(&mut header, section);
    let ls = lines(ic.as_slice());
    let ghost lv = views(ls@);
    let mut capture = false;
    let mut done = false;
    let mut out: Vec<Vec<char>> = Vec::new();
    let mut i: usize = 0;
    assert(lv.take(0) =~= Seq::<Seq<char>>::empty());
    assert(views(out@) =~= Seq::<Seq<char>>::empty());
    while i < ls.len() && !done
        invariant
            i <= ls@.len(),
            lv == views(ls@),
            header@ == "# "@ + section@,
            (capture, done, views(out@)) == section_scan(lv.take(i as int), section@),
        decreases ls.len() - i,
    {
        let line = ls[i].as_slice();
        assert(lv.take(i + 1).drop_last() =~= lv.take(i as int));
        assert(lv.take(i + 1).last() == line@);
        let t = trim(line);
        if seq_eq(t.as_slice(), header.as_slice()) {
            capture = true;
        } else if capture && starts_with_str(line, "#") {
            done = true;
        } else if capture && t.len() > 0 {
            let ghost before = views(out@);
            out.push(slice_to_vec(line, 0, line.len()));
            assert(line@.subrange(0, line@.len() as int) =~= line@);
            assert(views(out@) =~= before.push(line@));
        }
        i = i + 1;
    }
    proof {
        lemma_section_done(lv, section@, i as int);
    }
    if out.len() == 0 {
        None
    } else {
        let nl = chars_of("\n");
        let j = join(out.as_slice(), nl.as_slice());
        Some(string_of(j.as_slice()))
    }
}

proof fn lemma_section_done(ls: Seq<Seq<char>>, section: Seq<char>, i: int)
    requires
        0 <= i <= ls.len(),
        i == ls.len() || section_scan(ls.take(i), section).1,
    ensures
        section_scan(ls, section).2 == section_scan(ls.take(i), section).2,
    decreases ls.len() - i,
{
    if i < ls.len() {
        assert(ls.take(i + 1).drop_last() =~= ls.take(i));
        lemma_section_done(ls, section, i + 1);
    } else {
        assert(ls.take(i) =~= ls);
    }
}

/// The text after `key:` on the first line that starts with it, else `-`.
pub open spec fn info_value(ls: Seq<Seq<char>>, key: Seq<char>) -> Seq<char>
    decreases ls.len(),
{
    if ls.len() == 0 {
        "-"@
    } else if starts_with_spec(ls[0], key + ":"@) {
        ls[0].skip(key.len() as int + 1)
    } else {
        info_value(ls.drop_first(), key)
    }
}

/// One row per key: the key and its value in the INFO text.
pub fn info_rows(info: Option<&str>, keys: &[&str]) -> (r: Vec<Vec<String>>)
    ensures
        r@.len() == keys@.len(),
        forall|i: int|
            0 <= i < keys@.len() ==> string_views(#[trigger] r@[i]@) == seq![
                keys@[i]@,
                info_value(
                    lines_spec(
                        match info {
                            Some(s) => s@,
                            None => Seq::empty(),
                        },
                    ),
                    keys@[i]@,
                ),
            ],
{
    let ghost text = match info {
        Some(s) => s@,
        None => Seq::<char>::empty(),
    };
    let ic: Vec<char> = match info {
        Some(s) => chars_of(s),
        None => Vec::new(),
    };
    let ls = lines(ic.as_slice());
    let ghost lv = views(ls@);
    let mut rows: Vec<Vec<String>> = Vec::new();
    let mut k: usize = 0;
    proof {
        reveal_strlit(":");
    }
    while k < keys.len()
        invariant
            k <= keys@.len(),
            lv == views(ls@),
            lv == lines_spec(text),
            ":"@.len() == 1,
            rows@.len() == k,
            forall|i: int|
                0 <= i < k ==> string_views(#[trigger] rows@[i]@) == seq![keys@[i]@, info_value(lv, keys@[i]@)],
        decreases keys.len() - k,
    {
        let mut prefix: Vec<char> = Vec::new();
        push_str(&mut prefix, keys[k]);
        push_str(&mut prefix, ":");
        let mut value: Vec<char> = vec!['-'];
        assert(value@ =~= "-"@) by {
            reveal_strlit("-");
        }
        let mut j: usize = 0;
        assert(lv.skip(0) =~= lv);
        while j < ls.len()
            invariant_except_break
                info_value(lv, keys@[k as int]@) == info_value(lv.skip(j as int), keys@[k as int]@),
                value@ == "-"@,
            invariant
                j <= ls@.len(),
                k < keys@.len(),
                lv == views(ls@),
                prefix@ == keys@[k as int]@ + ":"@,
                ":"@.len() == 1,
            ensures
                value@ == info_value(lv, keys@[k as int]@),
            decreases ls.len() - j,
        {
            assert(lv.skip(j as int)[0] == ls@[j as int]@);
            assert(lv.skip(j as int).drop_first() =~= lv.skip(j + 1));
            if crate::text::starts_with(ls[j].as_slice(), prefix.as_slice()) {
                let rest = slice_to_vec(ls[j].as_slice(), prefix.len(), ls[j].len());
                assert(rest@ =~= ls@[j as int]@.skip(keys@[k as int]@.len() as int + 1));
                value = rest;
                break;
            }
            j = j + 1;
            if j == ls.len() {
                assert(lv.skip(j as int) =~= Seq::<Seq<char>>::empty());
            }
        }
        let row = vec![keys[k].to_owned(), string_of(value.as_slice())];
        assert(string_views(row@) =~= seq![keys@[k as int]@, info_value(lv, keys@[k as int]@)]);
        rows.push(row);
        k = k + 1;
    }
    rows
}

} // verus!
