//! Java report helpers: class histogram rows, report line wrapping, PDF text encoding
//! and blank values.
use vstd::prelude::*;
use crate::text::{chars_of, ends_with_spec, ends_with_str, join, join_spec, lines, lines_spec, parse_u64, parse_unsigned_spec, slice_to_vec, split_whitespace, split_ws, string_of, string_views, trim, trim_spec, views};

verus! {

/// A class histogram row: class name, instances, bytes.
pub open spec fn histogram_row(line: Seq<char>) -> Option<(Seq<char>, nat, nat)> {
    let parts = split_ws(line);
    if parts.len() < 4 || !ends_with_spec(parts[0], ":"@) {
        None
    } else {
        match (
            parse_unsigned_spec(parts[1], 10, u64::MAX as nat),
            parse_unsigned_spec(parts[2], 10, u64::MAX as nat),
        ) {
            (Some(n), Some(b)) => Some((join_spec(parts.skip(3), " "@), n, b)),
            _ => None,
        }
    }
}

/// The rows of the lines that are histogram rows, in order.
pub open spec fn histogram_rows(ls: Seq<Seq<char>>) -> Seq<(Seq<char>, nat, nat)>
    decreases ls.len(),
{
    if ls.len() == 0 {
        Seq::empty()
    } else {
        match histogram_row(ls.last()) {
            Some(r) => histogram_rows(ls.drop_last()).push(r),
            None => histogram_rows(ls.drop_last()),
        }
    }
}

/// `s` (largest first) with `x` placed after every row with at least as many bytes.
pub open spec fn insert_by_bytes(s: Seq<(Seq<char>, nat, nat)>, x: (Seq<char>, nat, nat)) -> Seq<(Seq<char>, nat, nat)>
    decreases s.len(),
{
    if s.len() == 0 {
        seq![x]
    } else if !(s.last().2 < x.2) {
        s.push(x)
    } else {
        insert_by_bytes(s.drop_last(), x).push(s.last())
    }
}

/// A stable sort by bytes, largest first.
pub open spec fn sort_by_bytes(s: Seq<(Seq<char>, nat, nat)>) -> Seq<(Seq<char>, nat, nat)>
    decreases s.len(),
{
    if s.len() == 0 {
        s
    } else {
        insert_by_bytes(sort_by_bytes(s.drop_last()), s.last())
    }
}

pub open spec fn row_views(v: Seq<(String, u64, u64)>) -> Seq<(Seq<char>, nat, nat)> {
    v.map_values(|r: (String, u64, u64)| (r.0@, r.1 as nat, r.2 as nat))
}

proof fn lemma_insert_bytes_split(s: Seq<(Seq<char>, nat, nat)>, x: (Seq<char>, nat, nat), k: int)
    requires
        0 <= k <= s.len(),
        forall|j: int| k <= j < s.len() ==> (#[trigger] s[j]).2 < x.2,
    ensures
        insert_by_bytes(s, x) == insert_by_bytes(s.take(k), x) + s.skip(k),
    decreases s.len() - k,
{
    if k < s.len() {
        lemma_insert_bytes_split(s.drop_last(), x, k);
        assert(s.drop_last().take(k) =~= s.take(k));
        assert(s.drop_last().skip(k).push(s.last()) =~= s.skip(k));
    } else {
        assert(s.take(k) =~= s);
        assert(s.skip(k) =~= Seq::<(Seq<char>, nat, nat)>::empty());
    }
}

fn insert_row(v: &mut Vec<(String, u64, u64)>, x: (String, u64, u64))
    ensures
        row_views(final(v)@) == insert_by_bytes(row_views(old(v)@), (x.0@, x.1 as nat, x.2 as nat)),
{
    let ghost xv = (x.0@, x.1 as nat, x.2 as nat);
    let ghost rv = row_views(v@);
    let mut k: usize = v.len();
    while k > 0
        invariant
            k <= v.len(),
            v@ == old(v)@,
            rv == row_views(v@),
            xv == (x.0@, x.1 as nat, x.2 as nat),
            forall|j: int| k <= j < v.len() ==> (#[trigger] rv[j]).2 < xv.2,
        ensures
            k <= v.len(),
            v@ == old(v)@,
            forall|j: int| k <= j < v.len() ==> (#[trigger] rv[j]).2 < xv.2,
            k == 0 || !(rv[k - 1].2 < xv.2),
        decreases k,
    {
        assert(rv[k - 1] == (v@[k - 1].0@, v@[k - 1].1 as nat, v@[k - 1].2 as nat));
        if !(v[k - 1].2 < x.2) {
            break;
        }
        k = k - 1;
    }
    proof {
        lemma_insert_bytes_split(rv, xv, k as int);
        if k > 0 {
            assert(rv.take(k as int).last() == rv[k - 1]);
        }
    }
    v.insert(k, x);
    assert(row_views(v@) =~= rv.take(k as int).push(xv) + rv.skip(k as int));
}

/// The rows of a `GC.class_histogram` text, largest byte count first.
pub fn class_histogram_rows(text: &str) -> (r: Vec<(String, u64, u64)>)
    ensures
        row_views(r@) == sort_by_bytes(histogram_rows(lines_spec(text@))),
{
    let tc = chars_of(text);
    let ls = lines(tc.as_slice());
    let ghost lv = views(ls@);
    let mut rows: Vec<(String, u64, u64)> = Vec::new();
    let mut i: usize = 0;
    assert(lv.take(0) =~= Seq::<Seq<char>>::empty());
    assert(row_views(rows@) =~= Seq::<(Seq<char>, nat, nat)>::empty());
    while i < ls.len()
        invariant
            i <= ls@.len(),
            lv == views(ls@),
            row_views(rows@) == sort_by_bytes(histogram_rows(lv.take(i as int))),
        decreases ls.len() - i,
    {
        let line = ls[i].as_slice();
        assert(lv.take(i + 1).drop_last() =~= lv.take(i as int));
        assert(lv.take(i + 1).last() == line@);
        let parts = split_whitespace(line);
        let ghost pv = views(parts@);
        if parts.len() >= 4 && ends_with_str(parts[0].as_slice(), ":") {
            assert(pv[0] == parts@[0]@ && pv[1] == parts@[1]@ && pv[2] == parts@[2]@);
            let n = parse_u64(parts[1].as_slice());
            let b = parse_u64(parts[2].as_slice());
            match (n, b) {
                (Some(n), Some(b)) => {
                    let mut rest: Vec<Vec<char>> = Vec::new();
                    let mut j: usize = 3;
                    assert(pv.skip(3).take(0) =~= Seq::<Seq<char>>::empty());
                    assert(views(rest@) =~= Seq::<Seq<char>>::empty());
                    while j < parts.len()
                        invariant
                            3 <= j <= parts@.len(),
                            pv == views(parts@),
                            views(rest@) == pv.skip(3).take(j - 3),
                        decreases parts.len() - j,
                    {
                        let ghost before = views(rest@);
                        rest.push(slice_to_vec(parts[j].as_slice(), 0, parts[j].len()));
                        assert(parts@[j as int]@.subrange(0, parts@[j as int]@.len() as int) =~= parts@[j as int]@);
                        assert(views(rest@) =~= before.push(pv[j as int]));
                        assert(pv.skip(3).take(j + 1 - 3) =~= pv.skip(3).take(j - 3).push(pv[j as int]));
                        j = j + 1;
                    }
                    assert(pv.skip(3).take(j - 3) =~= pv.skip(3));
                    let sp = vec![' '];
                    assert(sp@ =~= " "@) by {
                        reveal_strlit(" ");
                    }
                    let name = join(rest.as_slice(), sp.as_slice());
                    let ghost f = histogram_rows(lv.take(i as int));
                    let ghost x = (name@, n as nat, b as nat);
                    assert(histogram_rows(lv.take(i + 1)) == f.push(x));
                    assert(f.push(x).drop_last() =~= f);
                    insert_row(&mut rows, (string_of(name.as_slice()), n, b));
                },
                _ => {
                    assert(histogram_rows(lv.take(i + 1)) == histogram_rows(lv.take(i as int)));
                },
            }
        } else {
            assert(histogram_rows(lv.take(i + 1)) == histogram_rows(lv.take(i as int)));
        }
        i = i + 1;
    }
    assert(lv.take(i as int) =~= lv);
    rows
}

/// Columns a character takes in a PDF report line: one for ASCII, two otherwise.
pub open spec fn pdf_width(c: char) -> nat {
    if (c as u32) < 128 {
        1
    } else {
        2
    }
}

/// Wrapping one line: the lines finished, the line being filled and its width.
pub open spec fn wrap_scan(cs: Seq<char>, max: nat) -> (Seq<Seq<char>>, Seq<char>, nat)
    decreases cs.len(),
{
    if cs.len() == 0 {
        (Seq::empty(), Seq::empty(), 0)
    } else {
        let (done, cur, w) = wrap_scan(cs.drop_last(), max);
        let c = cs.last();
        if w + pdf_width(c) > max && cur.len() > 0 {
            (done.push(cur), "  "@.push(c), 2 + pdf_width(c))
        } else {
            (done, cur.push(c), w + pdf_width(c))
        }
    }
}

/// The report lines that one line becomes: an empty line stays one empty line; a
/// longer one is broken where the next character would pass `max` columns, and each
/// continuation starts with two spaces.
pub open spec fn wrap_line(line: Seq<char>, max: nat) -> Seq<Seq<char>> {
    if line.len() == 0 {
        seq![Seq::<char>::empty()]
    } else {
        let (done, cur, w) = wrap_scan(line, max);
        done.push(cur)
    }
}

pub open spec fn wrap_all(ls: Seq<Seq<char>>, max: nat) -> Seq<Seq<char>>
    decreases ls.len(),
{
    if ls.len() == 0 {
        Seq::empty()
    } else {
        wrap_all(ls.drop_last(), max) + wrap_line(ls.last(), max)
    }
}

fn wrap_one(out: &mut Vec<String>, line: &[char], max_width: usize)
    ensures
        string_views(final(out)@) == string_views(old(out)@) + wrap_line(line@, max_width as nat),
{
    let ghost base = string_views(out@);
    if line.len() == 0 {
        out.push(String::new());
        assert(string_views(out@) =~= base + seq![Seq::<char>::empty()]);
        return;
    }
    let mut cur: Vec<char> = Vec::new();
    let mut width: usize = 0;
    let mut i: usize = 0;
    assert(line@.take(0) =~= Seq::<char>::empty());
    proof {
        reveal_strlit("  ");
    }
    while i < line.len()
        invariant
            i <= line@.len(),
            line@.len() > 0,
            "  "@ == seq![' ', ' '],
            ({
                let (done, c, w) = wrap_scan(line@.take(i as int), max_width as nat);
                &&& string_views(out@) == base + done
                &&& cur@ == c
                &&& width == w
            }),
            width <= (if max_width > 4 {
                max_width
            } else {
                4
            }),
        decreases line.len() - i,
    {
        let ch = line[i];
        let cw: usize = if (ch as u32) < 128 {
            1
        } else {
            2
        };
        assert(line@.take(i + 1).drop_last() =~= line@.take(i as int));
        assert(line@.take(i + 1).last() == ch);
        let over = width > max_width || cw > max_width - width;
        if over && cur.len() > 0 {
            let ghost before = string_views(out@);
            let full = string_of(cur.as_slice());
            out.push(full);
            assert(string_views(out@) =~= before.push(cur@));
            cur = vec![' ', ' '];
            width = 2;
        }
        cur.push(ch);
        width = width + cw;
        i = i + 1;
    }
    assert(line@.take(i as int) =~= line@);
    let ghost before = string_views(out@);
    out.push(string_of(cur.as_slice()));
    assert(string_views(out@) =~= before.push(cur@));
}

/// The lines of a PDF report, wrapped to `max_width` columns.
pub fn wrap_pdf_lines(lines: &[String], max_width: usize) -> (r: Vec<String>)
    ensures
        string_views(r@) == wrap_all(string_views(lines@), max_width as nat),
{
    let ghost lv = string_views(lines@);
    let mut out: Vec<String> = Vec::new();
    let mut i: usize = 0;
    assert(lv.take(0) =~= Seq::<Seq<char>>::empty());
    assert(string_views(out@) =~= Seq::<Seq<char>>::empty());
    while i < lines.len()
        invariant
            i <= lines@.len(),
            lv == string_views(lines@),
            string_views(out@) == wrap_all(lv.take(i as int), max_width as nat),
        decreases lines.len() - i,
    {
        let lc = chars_of(lines[i].as_str());
        assert(lv.take(i + 1).drop_last() =~= lv.take(i as int));
        assert(lv.take(i + 1).last() == lc@);
        wrap_one(&mut out, lc.as_slice(), max_width);
        i = i + 1;
    }
    assert(lv.take(i as int) =~= lv);
    out
}

/// An upper-case hexadecimal digit.
pub open spec fn hex_digit(d: nat) -> char {
    if d < 10 {
        ((d + 48) as u32) as char
    } else {
        ((d + 55) as u32) as char
    }
}

/// A UTF-16 code unit as four upper-case hexadecimal digits.
pub open spec fn hex4(u: nat) -> Seq<char> {
    seq![hex_digit((u / 4096) % 16), hex_digit((u / 256) % 16), hex_digit((u / 16) % 16), hex_digit(u % 16)]
}

/// The UTF-16 code units of a character, in hexadecimal: one unit below U+10000,
/// else a surrogate pair.
pub open spec fn utf16_hex_char(c: char) -> Seq<char> {
    let cp = c as u32 as nat;
    if cp < 0x10000 {
        hex4(cp)
    } else {
        let v = (cp - 0x10000) as nat;
        hex4(0xD800 + v / 1024) + hex4(0xDC00 + v % 1024)
    }
}

pub open spec fn utf16_hex(s: Seq<char>) -> Seq<char>
    decreases s.len(),
{
    if s.len() == 0 {
        Seq::empty()
    } else {
        utf16_hex(s.drop_last()) + utf16_hex_char(s.last())
    }
}

fn push_hex4(out: &mut Vec<char>, u: u32)
    requires
        u < 0x10000,
    ensures
        final(out)@ == old(out)@ + hex4(u as nat),
{
    let ds: [u32; 4] = [(u / 4096) % 16, (u / 256) % 16, (u / 16) % 16, u % 16];
    let mut k: usize = 0;
    let ghost base = out@;
    while k < 4
        invariant
            k <= 4,
            ds@ == seq![(u / 4096) % 16, (u / 256) % 16, (u / 16) % 16, u % 16],
            out@ == base + hex4(u as nat).take(k as int),
        decreases 4 - k,
    {
        let d = ds[k];
        let c = if d < 10 {
            ((d + 48) as u8) as char
        } else {
            ((d + 55) as u8) as char
        };
        assert(c == hex_digit(d as nat));
        out.push(c);
        assert(hex4(u as nat).take(k + 1) =~= hex4(u as nat).take(k as int).push(c));
        k = k + 1;
    }
    assert(hex4(u as nat).take(4) =~= hex4(u as nat));
}

/// The text as hexadecimal UTF-16 code units, as a PDF string of a CJK font takes it.
pub fn utf16be_hex(value: &str) -> (r: String)
    ensures
        r@ == utf16_hex(value@),
{
    let vc = chars_of(value);
    let mut out: Vec<char> = Vec::new();
    let mut i: usize = 0;
    assert(vc@.take(0) =~= Seq::<char>::empty());
    while i < vc.len()
        invariant
            i <= vc@.len(),
            vc@ == value@,
            out@ == utf16_hex(vc@.take(i as int)),
        decreases vc.len() - i,
    {
        let c = vc[i];
        let cp = c as u32;
        assert(vc@.take(i + 1).drop_last() =~= vc@.take(i as int));
        if cp < 0x10000 {
            push_hex4(&mut out, cp);
        } else {
            proof {
                vstd::utf8::char_is_scalar(c);
            }
            assert(cp <= 0x10FFFF);
            let v = cp - 0x10000;
            push_hex4(&mut out, 0xD800 + v / 1024);
            push_hex4(&mut out, 0xDC00 + v % 1024);
            assert(out@ =~= utf16_hex(vc@.take(i as int)) + utf16_hex_char(c));
        }
        i = i + 1;
    }
    assert(vc@.take(i as int) =~= vc@);
    string_of(out.as_slice())
}

/// `-` for a blank value, else the value.
pub fn empty_dash(value: &str) -> (r: String)
    ensures
        r@ == (if trim_spec(value@).len() == 0 {
            "-"@
        } else {
            value@
        }),
{
    let vc = chars_of(value);
    let t = trim(vc.as_slice());
    if t.len() == 0 {
        "-".to_owned()
    } else {
        value.to_owned()
    }
}

} // verus!
