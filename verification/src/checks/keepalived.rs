//! Reading a keepalived configuration: the lines that set given keys, and the
//! brace-delimited blocks of a given kind.
use vstd::prelude::*;
use crate::checks::common::{truncate_chars, truncate_spec};
use crate::text::{chars_of, contains, contains_spec, dec, dec_spec, join, join_spec, lines, lines_spec, slice_to_vec, starts_with, starts_with_spec, string_of, string_views, trim, trim_spec, views};

verus! {

/// The first of `keys` that line `t` starts with.
pub open spec fn first_key(t: Seq<char>, keys: Seq<Seq<char>>) -> Option<Seq<char>>
    decreases keys.len(),
{
    if keys.len() == 0 {
        None
    } else if starts_with_spec(t, keys[0]) {
        Some(keys[0])
    } else {
        first_key(t, keys.drop_first())
    }
}

/// One row per line whose trimmed text starts with one of `keys`: that key and the
/// line, cut at 220 characters.
pub open spec fn key_rows(ls: Seq<Seq<char>>, keys: Seq<Seq<char>>) -> Seq<Seq<Seq<char>>>
    decreases ls.len(),
{
    if ls.len() == 0 {
        Seq::empty()
    } else {
        let rest = key_rows(ls.drop_last(), keys);
        let t = trim_spec(ls.last());
        match first_key(t, keys) {
            Some(k) => rest.push(seq![k, truncate_spec(t, 220)]),
            None => rest,
        }
    }
}

fn find_key(t: &[char], keys: &[&str]) -> (r: Option<usize>)
    ensures
        match r {
            Some(k) => k < keys@.len() && first_key(t@, keys@.map_values(|s: &str| s@)) == Some(keys@[k as int]@),
            None => first_key(t@, keys@.map_values(|s: &str| s@)) is None,
        },
{
    let ghost kv = keys@.map_values(|s: &str| s@);
    let mut i: usize = 0;
    assert(kv.skip(0) =~= kv);
    while i < keys.len()
        invariant
            i <= keys@.len(),
            kv == keys@.map_values(|s: &str| s@),
            first_key(t@, kv) == first_key(t@, kv.skip(i as int)),
        decreases keys.len() - i,
    {
        let kc = chars_of(keys[i]);
        assert(kv.skip(i as int)[0] == keys@[i as int]@);
        if starts_with(t, kc.as_slice()) {
            return Some(i);
        }
        assert(kv.skip(i as int).drop_first() =~= kv.skip(i + 1));
        i = i + 1;
    }
    None
}

pub fn extract_keepalived(config: &str, keys: &[&str]) -> (r: Vec<Vec<String>>)
    ensures
        r@.map_values(|row: Vec<String>| string_views(row@)) == key_rows(
            lines_spec(config@),
            keys@.map_values(|s: &str| s@),
        ),
{
    let ghost kv = keys@.map_values(|s: &str| s@);
    let cc = chars_of(config);
    let ls = lines(cc.as_slice());
    let ghost lv = views(ls@);
    let mut rows: Vec<Vec<String>> = Vec::new();
    let mut i: usize = 0;
    assert(lv.take(0) =~= Seq::<Seq<char>>::empty());
    assert(rows@.map_values(|row: Vec<String>| string_views(row@)) =~= Seq::<Seq<Seq<char>>>::empty());
    while i < ls.len()
        invariant
            i <= ls@.len(),
            lv == views(ls@),
            kv == keys@.map_values(|s: &str| s@),
            rows@.map_values(|row: Vec<String>| string_views(row@)) == key_rows(lv.take(i as int), kv),
        decreases ls.len() - i,
    {
        let t = trim(ls[i].as_slice());
        assert(lv.take(i + 1).drop_last() =~= lv.take(i as int));
        assert(lv.take(i + 1).last() == ls@[i as int]@);
        match find_key(t.as_slice(), keys) {
            Some(k) => {
                let mut row: Vec<String> = Vec::new();
                row.push(keys[k].to_owned());
                let cut = truncate_chars(t.as_slice(), 220);
                row.push(string_of(cut.as_slice()));
                assert(string_views(row@) =~= seq![keys@[k as int]@, truncate_spec(t@, 220)]);
                let ghost before = rows@.map_values(|row: Vec<String>| string_views(row@));
                rows.push(row);
                assert(rows@.map_values(|row: Vec<String>| string_views(row@)) =~= before.push(
                    seq![keys@[k as int]@, truncate_spec(t@, 220)],
                ));
            },
            None => {},
        }
        i = i + 1;
    }
    assert(lv.take(i as int) =~= lv);
    rows
}

/// Reading state of `extract_blocks`: inside a block, its brace depth, the lines of
/// the block so far, and the rows found.
pub struct BlockScan {
    pub capture: bool,
    pub depth: int,
    pub current: Seq<Seq<char>>,
    pub rows: Seq<Seq<Seq<char>>>,
}

pub open spec fn opens(t: Seq<char>) -> bool {
    contains_spec(t, seq!['{'])
}

pub open spec fn closes(t: Seq<char>) -> bool {
    contains_spec(t, seq!['}'])
}

/// One line read: a line that starts with `name` starts a block; inside a block,
/// braces move the depth, lines that are not blank are kept, and a closing brace
/// that brings the depth to zero or below ends the block as a row (its number and
/// its lines joined with ` | `, cut at 260 characters).
pub open spec fn block_step(st: BlockScan, line: Seq<char>, name: Seq<char>) -> BlockScan {
    let t = trim_spec(line);
    let s1 = if starts_with_spec(t, name) {
        BlockScan { capture: true, depth: 0, current: Seq::empty(), ..st }
    } else {
        st
    };
    if s1.capture {
        let d = s1.depth + (if opens(t) {
            1int
        } else {
            0int
        }) - (if closes(t) {
            1int
        } else {
            0int
        });
        let cur = if t.len() > 0 {
            s1.current.push(t)
        } else {
            s1.current
        };
        if d <= 0 && closes(t) {
            BlockScan {
                capture: false,
                depth: d,
                current: cur,
                rows: s1.rows.push(
                    seq![dec_spec((s1.rows.len() + 1) as nat), truncate_spec(join_spec(cur, " | "@), 260)],
                ),
            }
        } else {
            BlockScan { capture: true, depth: d, current: cur, rows: s1.rows }
        }
    } else {
        s1
    }
}

pub open spec fn block_scan(ls: Seq<Seq<char>>, name: Seq<char>) -> BlockScan
    decreases ls.len(),
{
    if ls.len() == 0 {
        BlockScan { capture: false, depth: 0, current: Seq::empty(), rows: Seq::empty() }
    } else {
        block_step(block_scan(ls.drop_last(), name), ls.last(), name)
    }
}

proof fn lemma_block_depth(ls: Seq<Seq<char>>, name: Seq<char>)
    ensures
        -(ls.len() as int) <= block_scan(ls, name).depth <= ls.len(),
        block_scan(ls, name).rows.len() <= ls.len(),
    decreases ls.len(),
{
    if ls.len() > 0 {
        lemma_block_depth(ls.drop_last(), name);
    }
}

/// The blocks of kind `name` in a configuration, one row each.
pub fn extract_blocks(config: &str, name: &str) -> (r: Vec<Vec<String>>)
    requires
        lines_spec(config@).len() <= i32::MAX,
    ensures
        r@.map_values(|row: Vec<String>| string_views(row@)) == block_scan(lines_spec(config@), name@).rows,
{
    let cc = chars_of(config);
    let nc = chars_of(name);
    let ls = lines(cc.as_slice());
    let ghost lv = views(ls@);
    let mut rows: Vec<Vec<String>> = Vec::new();
    let mut capture = false;
    let mut current: Vec<Vec<char>> = Vec::new();
    let mut depth: i32 = 0;
    let mut i: usize = 0;
    assert(lv.take(0) =~= Seq::<Seq<char>>::empty());
    assert(rows@.map_values(|row: Vec<String>| string_views(row@)) =~= Seq::<Seq<Seq<char>>>::empty());
    assert(views(current@) =~= Seq::<Seq<char>>::empty());
    while i < ls.len()
        invariant
            i <= ls@.len(),
            lv == views(ls@),
            lv.len() <= i32::MAX,
            nc@ == name@,
            ({
                let st = block_scan(lv.take(i as int), name@);
                &&& st.capture == capture
                &&& st.depth == depth as int
                &&& st.current == views(current@)
                &&& st.rows == rows@.map_values(|row: Vec<String>| string_views(row@))
            }),
        decreases ls.len() - i,
    {
        let t = trim(ls[i].as_slice());
        assert(lv.take(i + 1).drop_last() =~= lv.take(i as int));
        assert(lv.take(i + 1).last() == ls@[i as int]@);
        proof {
            lemma_block_depth(lv.take(i as int), name@);
        }
        if starts_with(t.as_slice(), nc.as_slice()) {
            capture = true;
            depth = 0;
            current = Vec::new();
            assert(views(current@) =~= Seq::<Seq<char>>::empty());
        }
        if capture {
            let open_brace = vec!['{'];
            let close_brace = vec!['}'];
            assert(open_brace@ =~= seq!['{']);
            assert(close_brace@ =~= seq!['}']);
            let has_open = contains(t.as_slice(), open_brace.as_slice());
            let has_close = contains(t.as_slice(), close_brace.as_slice());
            if has_open {
                depth = depth + 1;
            }
            if has_close {
                depth = depth - 1;
            }
            if t.len() > 0 {
                let ghost before = views(current@);
                current.push(slice_to_vec_all(t.as_slice()));
                assert(views(current@) =~= before.push(t@));
            }
            if depth <= 0 && has_close {
                let mut row: Vec<String> = Vec::new();
                let num = dec((rows.len() + 1) as u64);
                row.push(string_of(num.as_slice()));
                let sep = chars_of(" | ");
                let joined = join(current.as_slice(), sep.as_slice());
                let cut = truncate_chars(joined.as_slice(), 260);
                row.push(string_of(cut.as_slice()));
                let ghost before = rows@.map_values(|row: Vec<String>| string_views(row@));
                let ghost new_row = string_views(row@);
                assert(new_row =~= seq![
                    dec_spec((before.len() + 1) as nat),
                    truncate_spec(join_spec(views(current@), " | "@), 260),
                ]);
                rows.push(row);
                assert(rows@.map_values(|row: Vec<String>| string_views(row@)) =~= before.push(new_row));
                capture = false;
            }
        }
        i = i + 1;
    }
    assert(lv.take(i as int) =~= lv);
    rows
}

fn slice_to_vec_all(s: &[char]) -> (r: Vec<char>)
    ensures
        r@ == s@,
{
    let r = crate::text::slice_to_vec(s, 0, s.len());
    assert(r@ =~= s@);
    r
}

} // verus!
