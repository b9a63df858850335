//! Terminal layout helpers: display widths of text (CJK characters take two
//! columns), padding and truncation to a width, and category badges.
use vstd::prelude::*;
use crate::text::{chars_of, eq_str, push_str, string_of};

verus! {

/// Columns that `c` takes in a terminal: two for CJK ideographs, CJK punctuation and
/// full-width forms, one for everything else (box drawing included).
pub open spec fn cw_spec(c: char) -> nat {
    let cp = c as u32;
    if cp < 128 {
        1
    } else if 0x2500 <= cp <= 0x259F {
        1
    } else if (0x4E00 <= cp <= 0x9FFF) || (0x3000 <= cp <= 0x303F) || (0xFF00 <= cp <= 0xFFEF) {
        2
    } else {
        1
    }
}

pub fn cw(c: char) -> (r: usize)
    ensures
        r == cw_spec(c),
{
    let cp = c as u32;
    if cp < 128 {
        return 1;
    }
    if 0x2500 <= cp && cp <= 0x259F {
        return 1;
    }
    if (0x4E00 <= cp && cp <= 0x9FFF) || (0x3000 <= cp && cp <= 0x303F) || (0xFF00 <= cp && cp
        <= 0xFFEF) {
        return 2;
    }
    1
}

/// Columns that the text takes.
pub open spec fn dw_spec(s: Seq<char>) -> nat
    decreases s.len(),
{
    if s.len() == 0 {
        0
    } else {
        dw_spec(s.drop_last()) + cw_spec(s.last())
    }
}

proof fn lemma_dw_prefix(s: Seq<char>, i: int)
    requires
        0 <= i <= s.len(),
    ensures
        dw_spec(s.take(i)) <= dw_spec(s),
    decreases s.len() - i,
{
    if i < s.len() {
        lemma_dw_prefix(s, i + 1);
        assert(s.take(i + 1).drop_last() =~= s.take(i));
    } else {
        assert(s.take(i) =~= s);
    }
}

proof fn lemma_dw_append(a: Seq<char>, b: Seq<char>)
    ensures
        dw_spec(a + b) == dw_spec(a) + dw_spec(b),
    decreases b.len(),
{
    if b.len() == 0 {
        assert(a + b =~= a);
    } else {
        lemma_dw_append(a, b.drop_last());
        assert((a + b).drop_last() =~= a + b.drop_last());
    }
}

/// Display width of a text; the width must fit in `usize`, as it does for any
/// string that memory holds.
pub fn dw(s: &str) -> (r: usize)
    requires
        dw_spec(s@) <= usize::MAX,
    ensures
        r == dw_spec(s@),
{
    let cs = chars_of(s);
    let mut total: usize = 0;
    let mut i: usize = 0;
    while i < cs.len()
        invariant
            i <= cs@.len(),
            cs@ == s@,
            dw_spec(s@) <= usize::MAX,
            total == dw_spec(cs@.take(i as int)),
        decreases cs.len() - i,
    {
        assert(cs@.take(i + 1).drop_last() =~= cs@.take(i as int));
        proof {
            lemma_dw_prefix(cs@, i + 1);
        }
        total = total + cw(cs[i]);
        i = i + 1;
    }
    assert(cs@.take(i as int) =~= cs@);
    total
}

/// Whether the text takes more than `w` columns.
fn dw_exceeds(s: &[char], w: usize) -> (r: bool)
    ensures
        r == (dw_spec(s@) > w),
{
    let mut total: usize = 0;
    let mut i: usize = 0;
    while i < s.len()
        invariant
            i <= s@.len(),
            total == dw_spec(s@.take(i as int)),
            total <= w,
        decreases s.len() - i,
    {
        assert(s@.take(i + 1).drop_last() =~= s@.take(i as int));
        let c = cw(s[i]);
        if c > w - total {
            proof {
                lemma_dw_prefix(s@, i + 1);
            }
            return true;
        }
        total = total + c;
        i = i + 1;
    }
    assert(s@.take(i as int) =~= s@);
    false
}

/// Reading `s` with `used` columns filled: characters are kept while they fit in
/// `limit` columns; at the first that does not, `..` ends the text.
pub open spec fn trunc_from(s: Seq<char>, limit: int, used: int) -> Seq<char>
    decreases s.len(),
{
    if s.len() == 0 {
        Seq::empty()
    } else if used + cw_spec(s[0]) > limit {
        ".."@
    } else {
        seq![s[0]] + trunc_from(s.drop_first(), limit, used + cw_spec(s[0]))
    }
}

/// `max` minus two, or zero.
pub open spec fn room(max: nat) -> int {
    if max >= 2 {
        max - 2
    } else {
        0
    }
}

/// The text as it is where it fits in `max` columns; a wider text is cut so that,
/// with `..` marking the cut, it fits in `max` columns.
pub open spec fn trunc_spec(s: Seq<char>, max: nat) -> Seq<char> {
    if dw_spec(s) <= max {
        s
    } else {
        trunc_from(s, room(max), 0)
    }
}

fn trunc_chars(cs: &[char], max: usize) -> (r: Vec<char>)
    ensures
        r@ == trunc_from(cs@, room(max as nat), 0),
{
    let limit: usize = if max >= 2 {
        max - 2
    } else {
        0
    };
    let mut out: Vec<char> = Vec::new();
    let mut w: usize = 0;
    let mut i: usize = 0;
    assert(cs@.skip(0) =~= cs@);
    while i < cs.len()
        invariant
            i <= cs@.len(),
            limit == room(max as nat),
            w <= limit,
            out@ + trunc_from(cs@.skip(i as int), limit as int, w as int) == trunc_from(cs@, room(max as nat), 0),
        decreases cs.len() - i,
    {
        let c = cs[i];
        let cwc = cw(c);
        assert(cs@.skip(i as int)[0] == c);
        if cwc > limit - w {
            push_str(&mut out, "..");
            return out;
        }
        assert(cs@.skip(i as int).drop_first() =~= cs@.skip(i + 1));
        let ghost before = out@;
        out.push(c);
        assert(out@ + trunc_from(cs@.skip(i + 1), limit as int, (w + cwc) as int) =~= before
            + trunc_from(cs@.skip(i as int), limit as int, w as int));
        w = w + cwc;
        i = i + 1;
    }
    assert(out@ + trunc_from(cs@.skip(i as int), limit as int, w as int) =~= out@);
    out
}

pub fn trunc(s: &str, max: usize) -> (r: String)
    ensures
        r@ == trunc_spec(s@, max as nat),
{
    let cs = chars_of(s);
    if !dw_exceeds(cs.as_slice(), max) {
        return s.to_owned();
    }
    let t = trunc_chars(cs.as_slice(), max);
    string_of(t.as_slice())
}

pub open spec fn spaces(n: nat) -> Seq<char> {
    Seq::new(n, |i: int| ' ')
}

/// The text padded with spaces to `w` columns; a wider text is cut with `..` and
/// padded as far as `w` columns remain.
pub open spec fn pad_spec(s: Seq<char>, w: nat) -> Seq<char> {
    if dw_spec(s) > w {
        let t = trunc_spec(s, w);
        if dw_spec(t) < w {
            t + spaces((w - dw_spec(t)) as nat)
        } else {
            t
        }
    } else {
        s + spaces((w - dw_spec(s)) as nat)
    }
}

proof fn lemma_trunc_from_width(s: Seq<char>, limit: int, used: int)
    requires
        0 <= used <= limit,
    ensures
        used + dw_spec(trunc_from(s, limit, used)) <= limit + 2,
        dw_spec(s) + used > limit ==> used + dw_spec(trunc_from(s, limit, used)) > limit,
        dw_spec(s) + used <= limit ==> trunc_from(s, limit, used) == s,
    decreases s.len(),
{
    reveal_strlit("..");
    assert(dw_spec(".."@) == 2) by {
        reveal_with_fuel(dw_spec, 3);
        assert(".."@.drop_last().drop_last() =~= Seq::<char>::empty());
    }
    if s.len() > 0 {
        lemma_dw_append(seq![s[0]], s.drop_first());
        assert(seq![s[0]] + s.drop_first() =~= s);
        assert(dw_spec(seq![s[0]]) == cw_spec(s[0])) by {
            reveal_with_fuel(dw_spec, 2);
            assert(seq![s[0]].drop_last() =~= Seq::<char>::empty());
        }
        if used + cw_spec(s[0]) <= limit {
            let t = trunc_from(s.drop_first(), limit, used + cw_spec(s[0]));
            lemma_trunc_from_width(s.drop_first(), limit, used + cw_spec(s[0]));
            lemma_dw_append(seq![s[0]], t);
        }
    }
}

fn spaces_vec(out: &mut Vec<char>, n: usize)
    ensures
        final(out)@ == old(out)@ + spaces(n as nat),
{
    let mut i: usize = 0;
    while i < n
        invariant
            i <= n,
            out@ == old(out)@ + spaces(i as nat),
        decreases n - i,
    {
        out.push(' ');
        assert(spaces((i + 1) as nat) =~= spaces(i as nat).push(' '));
        i = i + 1;
    }
}

pub fn pad(s: &str, w: usize) -> (r: String)
    ensures
        r@ == pad_spec(s@, w as nat),
{
    let cs = chars_of(s);
    if dw_exceeds(cs.as_slice(), w) {
        let mut t = trunc_chars(cs.as_slice(), w);
        proof {
            lemma_trunc_from_width(s@, room(w as nat), 0);
        }
        let tw = dw(string_of(t.as_slice()).as_str());
        if tw < w {
            spaces_vec(&mut t, w - tw);
        }
        string_of(t.as_slice())
    } else {
        let d = dw(s);
        let mut out = cs;
        spaces_vec(&mut out, w - d);
        string_of(out.as_slice())
    }
}

/// The badge that stands for a script category.
pub open spec fn category_icon_spec(cat: Seq<char>) -> Seq<char> {
    if cat == "系统安全"@ {
        "SEC"@
    } else if cat == "系统检查"@ {
        "SYS"@
    } else if cat == "日志管理"@ {
        "LOG"@
    } else if cat == "服务管理"@ {
        "SVC"@
    } else if cat == "网络"@ || cat == "网络诊断"@ {
        "NET"@
    } else if cat == "中间件"@ {
        "MID"@
    } else if cat == "Elasticsearch"@ {
        "ES"@
    } else if cat == "系统管理"@ {
        "ADM"@
    } else if cat == "性能监控"@ {
        "MON"@
    } else {
        "GEN"@
    }
}

pub fn category_icon(cat: &str) -> (r: &'static str)
    ensures
        r@ == category_icon_spec(cat@),
{
    let c = chars_of(cat);
    let c = c.as_slice();
    if eq_str(c, "系统安全") {
        "SEC"
    } else if eq_str(c, "系统检查") {
        "SYS"
    } else if eq_str(c, "日志管理") {
        "LOG"
    } else if eq_str(c, "服务管理") {
        "SVC"
    } else if eq_str(c, "网络") || eq_str(c, "网络诊断") {
        "NET"
    } else if eq_str(c, "中间件") {
        "MID"
    } else if eq_str(c, "Elasticsearch") {
        "ES"
    } else if eq_str(c, "系统管理") {
        "ADM"
    } else if eq_str(c, "性能监控") {
        "MON"
    } else {
        "GEN"
    }
}

/// The colour in which a category is shown.
pub open spec fn category_color_spec(cat: Seq<char>) -> (u8, u8, u8) {
    if cat == "系统安全"@ {
        (248, 113, 113)
    } else if cat == "系统检查"@ {
        (34, 211, 238)
    } else if cat == "日志管理"@ {
        (251, 191, 36)
    } else if cat == "服务管理"@ {
        (167, 139, 250)
    } else if cat == "网络"@ {
        (52, 211, 153)
    } else if cat == "中间件"@ {
        (232, 121, 249)
    } else if cat == "Elasticsearch"@ {
        (250, 204, 21)
    } else if cat == "系统管理"@ {
        (148, 163, 184)
    } else {
        (209, 213, 219)
    }
}

pub fn category_color(cat: &str) -> (r: (u8, u8, u8))
    ensures
        r == category_color_spec(cat@),
{
    let c = chars_of(cat);
    let c = c.as_slice();
    if eq_str(c, "系统安全") {
        (248, 113, 113)
    } else if eq_str(c, "系统检查") {
        (34, 211, 238)
    } else if eq_str(c, "日志管理") {
        (251, 191, 36)
    } else if eq_str(c, "服务管理") {
        (167, 139, 250)
    } else if eq_str(c, "网络") {
        (52, 211, 153)
    } else if eq_str(c, "中间件") {
        (232, 121, 249)
    } else if eq_str(c, "Elasticsearch") {
        (250, 204, 21)
    } else if eq_str(c, "系统管理") {
        (148, 163, 184)
    } else {
        (209, 213, 219)
    }
}

/// The uncoloured text of a category badge: `[ICON] category`.
pub fn category_badge(cat: &str) -> (r: String)
    ensures
        r@ == "["@ + category_icon_spec(cat@) + "] "@ + cat@,
{
    let mut out: Vec<char> = Vec::new();
    push_str(&mut out, "[");
    push_str(&mut out, category_icon(cat));
    push_str(&mut out, "] ");
    push_str(&mut out, cat);
    string_of(out.as_slice())
}

/// The fixed-width tag of a status word.
pub open spec fn status_tag_spec(status: Seq<char>) -> Seq<char> {
    if status == "ok"@ || status == "success"@ || status == "done"@ {
        "[OK]"@
    } else if status == "warn"@ || status == "warning"@ {
        "[WARN]"@
    } else if status == "error"@ || status == "fail"@ || status == "failed"@ {
        "[FAIL]"@
    } else if status == "running"@ {
        "[RUN]"@
    } else if status == "info"@ {
        "[INFO]"@
    } else {
        "[..]"@
    }
}

pub fn status_tag(status: &str) -> (r: &'static str)
    ensures
        r@ == status_tag_spec(status@),
{
    let c = chars_of(status);
    let c = c.as_slice();
    if eq_str(c, "ok") || eq_str(c, "success") || eq_str(c, "done") {
        "[OK]"
    } else if eq_str(c, "warn") || eq_str(c, "warning") {
        "[WARN]"
    } else if eq_str(c, "error") || eq_str(c, "fail") || eq_str(c, "failed") {
        "[FAIL]"
    } else if eq_str(c, "running") {
        "[RUN]"
    } else if eq_str(c, "info") {
        "[INFO]"
    } else {
        "[..]"
    }
}

// ---------------------------------------------------------------------------
// Laws
// ---------------------------------------------------------------------------

/// A truncated text fits in `max` columns (for `max` of two or more), a text that
/// fits comes back unchanged, and a wider one ends with the `..` marker.
pub proof fn law_trunc_fits(s: Seq<char>, max: nat)
    ensures
        max >= 2 ==> dw_spec(trunc_spec(s, max)) <= max,
        dw_spec(s) <= max ==> trunc_spec(s, max) == s,
        dw_spec(s) > max ==> trunc_spec(s, max) == trunc_from(s, room(max), 0),
{
    lemma_trunc_from_width(s, room(max), 0);
}

/// Padding gives exactly `w` columns (for `w` of two or more), and a text that
/// fits is kept whole.
pub proof fn law_pad_width(s: Seq<char>, w: nat)
    ensures
        w >= 2 ==> dw_spec(pad_spec(s, w)) == w,
        dw_spec(s) <= w ==> pad_spec(s, w).take(s.len() as int) == s,
{
    lemma_trunc_from_width(s, room(w), 0);
    let t = trunc_spec(s, w);
    if dw_spec(s) > w {
        if dw_spec(t) < w {
            lemma_dw_append(t, spaces((w - dw_spec(t)) as nat));
            lemma_dw_spaces((w - dw_spec(t)) as nat);
        }
    } else {
        lemma_dw_append(s, spaces((w - dw_spec(s)) as nat));
        lemma_dw_spaces((w - dw_spec(s)) as nat);
        assert((s + spaces((w - dw_spec(s)) as nat)).take(s.len() as int) =~= s);
    }
}

proof fn lemma_dw_spaces(n: nat)
    ensures
        dw_spec(spaces(n)) == n,
    decreases n,
{
    if n > 0 {
        lemma_dw_spaces((n - 1) as nat);
        assert(spaces(n).drop_last() =~= spaces((n - 1) as nat));
    }
}

} // verus!
