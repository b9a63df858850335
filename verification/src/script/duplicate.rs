//! Copying a script under a new identifier: which identifiers are accepted, how its
//! metadata is renamed and which script file takes the new name.
use vstd::prelude::*;
use crate::text::{chars_of, contains_spec, contains_str, ends_with_spec, ends_with_str, join, join_spec, lines, lines_spec, push_str, starts_with_spec, starts_with_str, string_of, trim, trim_spec, views};

verus! {

/// The identifier of a copy: the requested one trimmed, refused where it is empty or
/// holds a path separator.
pub open spec fn duplicate_id_spec(new_id: Seq<char>) -> Option<Seq<char>> {
    let t = trim_spec(new_id);
    if t.len() == 0 || t.contains('/') || t.contains('\\') {
        None
    } else {
        Some(t)
    }
}

pub fn duplicate_id(new_id: &str) -> (r: Option<String>)
    ensures
        match duplicate_id_spec(new_id@) {
            Some(t) => r matches Some(s) && s@ == t,
            None => r is None,
        },
{
    let c = chars_of(new_id);
    let t = trim(c.as_slice());
    let mut i: usize = 0;
    while i < t.len()
        invariant
            i <= t@.len(),
            t@ == trim_spec(new_id@),
            forall|j: int| 0 <= j < i ==> t@[j] != '/' && t@[j] != '\\',
        decreases t.len() - i,
    {
        if t[i] == '/' {
            assert(t@[i as int] == '/');
            assert(t@.contains('/'));
            return None;
        }
        if t[i] == '\\' {
            assert(t@[i as int] == '\\');
            assert(t@.contains('\\'));
            return None;
        }
        i = i + 1;
    }
    if t.len() == 0 {
        return None;
    }
    assert(!t@.contains('/'));
    assert(!t@.contains('\\'));
    Some(string_of(t.as_slice()))
}

/// A metadata line of the copy: a `name` line (one that starts with `name` and holds
/// `=`) names the new identifier, every other line stays.
pub open spec fn renamed_line(line: Seq<char>, new_id: Seq<char>) -> Seq<char> {
    if starts_with_spec(line, "name"@) && line.contains('=') {
        "name = \""@ + new_id + "\""@
    } else {
        line
    }
}

pub open spec fn renamed_lines(ls: Seq<Seq<char>>, new_id: Seq<char>) -> Seq<Seq<char>> {
    ls.map_values(|l: Seq<char>| renamed_line(l, new_id))
}

/// The metadata file of the copy: its lines, each renamed, joined by line feeds.
pub fn renamed_metadata(content: &str, new_id: &str) -> (r: String)
    ensures
        r@ == join_spec(renamed_lines(lines_spec(content@), new_id@), "\n"@),
{
    let c = chars_of(content);
    let ls = lines(c.as_slice());
    let ghost lv = views(ls@);
    let mut out: Vec<Vec<char>> = Vec::new();
    let mut i: usize = 0;
    while i < ls.len()
        invariant
            i <= ls@.len(),
            lv == views(ls@),
            views(out@) == renamed_lines(lv.take(i as int), new_id@),
        decreases ls.len() - i,
    {
        let line = ls[i].as_slice();
        let mut has_eq = false;
        let mut j: usize = 0;
        while j < line.len()
            invariant
                j <= line@.len(),
                has_eq <==> exists|k: int| 0 <= k < j && line@[k] == '=',
            decreases line.len() - j,
        {
            if line[j] == '=' {
                has_eq = true;
            }
            j = j + 1;
        }
        proof {
            if line@.contains('=') {
                let k = choose|k: int| 0 <= k < line@.len() && line@[k] == '=';
                assert(exists|k: int| 0 <= k < j && line@[k] == '=');
            }
            if has_eq {
                let k = choose|k: int| 0 <= k < j && line@[k] == '=';
                assert(line@.contains(line@[k]));
            }
        }
        let renamed: Vec<char> = if starts_with_str(line, "name") && has_eq {
            let mut v = chars_of("name = \"");
            push_str(&mut v, new_id);
            push_str(&mut v, "\"");
            v
        } else {
            crate::text::slice_to_vec(line, 0, line.len())
        };
        assert(line@.subrange(0, line@.len() as int) =~= line@);
        assert(lv[i as int] == line@);
        let ghost before = views(out@);
        out.push(renamed);
        assert(views(out@) =~= before.push(renamed_line(lv[i as int], new_id@)));
        assert(lv.take(i + 1) =~= lv.take(i as int).push(lv[i as int]));
        assert(renamed_lines(lv.take(i + 1), new_id@) =~= renamed_lines(lv.take(i as int), new_id@).push(
            renamed_line(lv[i as int], new_id@),
        ));
        i = i + 1;
    }
    assert(lv.take(i as int) =~= lv);
    let nl = chars_of("\n");
    let joined = join(out.as_slice(), nl.as_slice());
    string_of(joined.as_slice())
}

/// The new name of a copied file: a `.sh` file whose name starts with the source
/// identifier becomes `<new_id>.sh`; other files keep their names.
pub open spec fn renamed_file_spec(file_name: Seq<char>, source_id: Seq<char>, new_id: Seq<char>) -> Option<Seq<char>> {
    if starts_with_spec(file_name, source_id) && ends_with_spec(file_name, ".sh"@) {
        Some(new_id + ".sh"@)
    } else {
        None
    }
}

pub fn renamed_file(file_name: &str, source_id: &str, new_id: &str) -> (r: Option<String>)
    ensures
        match renamed_file_spec(file_name@, source_id@, new_id@) {
            Some(n) => r matches Some(s) && s@ == n,
            None => r is None,
        },
{
    let f = chars_of(file_name);
    let sc = chars_of(source_id);
    if crate::text::starts_with(f.as_slice(), sc.as_slice()) && ends_with_str(f.as_slice(), ".sh") {
        let mut v = chars_of(new_id);
        push_str(&mut v, ".sh");
        Some(string_of(v.as_slice()))
    } else {
        None
    }
}

} // verus!
