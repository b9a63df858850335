//! Character-sequence primitives that the rest of the library is built on.
//!
//! Strings are handled as `Vec<char>` / `&[char]`, whose view is the `Seq<char>`
//! that `String@` also has, so every contract speaks of plain character sequences.
use vstd::prelude::*;

verus! {

// ---------------------------------------------------------------------------
// Single characters
// ---------------------------------------------------------------------------

/// The Unicode `White_Space` property, which `char::is_whitespace` follows.
pub open spec fn is_ws_spec(c: char) -> bool {
    let u = c as u32;
    (0x09 <= u && u <= 0x0D) || u == 0x20 || u == 0x85 || u == 0xA0 || u == 0x1680 || (0x2000
        <= u && u <= 0x200A) || u == 0x2028 || u == 0x2029 || u == 0x202F || u == 0x205F || u
        == 0x3000
}

pub fn is_ws(c: char) -> (b: bool)
    ensures
        b == is_ws_spec(c),
{
    let u = c as u32;
    (0x09 <= u && u <= 0x0D) || u == 0x20 || u == 0x85 || u == 0xA0 || u == 0x1680 || (0x2000
        <= u && u <= 0x200A) || u == 0x2028 || u == 0x2029 || u == 0x202F || u == 0x205F || u
        == 0x3000
}

pub open spec fn is_ascii_upper(c: char) -> bool {
    'A' <= c && c <= 'Z'
}

pub open spec fn is_ascii_digit(c: char) -> bool {
    '0' <= c && c <= '9'
}

pub open spec fn is_ascii_alnum(c: char) -> bool {
    is_ascii_digit(c) || ('a' <= c && c <= 'z') || is_ascii_upper(c)
}

pub open spec fn is_ascii_char(c: char) -> bool {
    (c as u32) < 128
}

/// `char::to_ascii_lowercase`.
pub open spec fn ascii_lower_char(c: char) -> char {
    if is_ascii_upper(c) {
        ((c as u32) + 32) as char
    } else {
        c
    }
}

/// `char::to_ascii_uppercase`.
pub open spec fn ascii_upper_char(c: char) -> char {
    if 'a' <= c && c <= 'z' {
        ((c as u32) - 32) as char
    } else {
        c
    }
}

pub fn lower_ascii_char(c: char) -> (r: char)
    ensures
        r == ascii_lower_char(c),
{
    if 'A' <= c && c <= 'Z' {
        let b = (c as u8) + 32;
        assert(b as u32 == (c as u32) + 32);
        b as char
    } else {
        c
    }
}


// ---------------------------------------------------------------------------
// Conversions with `str` / `String`
// ---------------------------------------------------------------------------

/// `str::chars` collected into a vector: the characters of `s` in order.
#[verifier::external_body]
pub(crate) fn chars_of(s: &str) -> (v: Vec<char>)
    ensures
        v@ == s@,
{
    s.chars().collect()
}

/// `String::from_iter` over characters: a string holding exactly `cs`.
#[verifier::external_body]
pub(crate) fn string_of(cs: &[char]) -> (s: String)
    ensures
        s@ == cs@,
{
    cs.iter().collect()
}

/// What `str::to_lowercase` returns for a string with these characters.
pub uninterp spec fn unicode_lowercase(s: Seq<char>) -> Seq<char>;

pub open spec fn all_ascii(s: Seq<char>) -> bool {
    forall|i: int| 0 <= i < s.len() ==> is_ascii_char(#[trigger] s[i])
}

pub open spec fn ascii_lower(s: Seq<char>) -> Seq<char> {
    s.map_values(|c: char| ascii_lower_char(c))
}

pub open spec fn ascii_upper(s: Seq<char>) -> Seq<char> {
    s.map_values(|c: char| ascii_upper_char(c))
}

/// `str::to_lowercase`: full Unicode lowercasing. Its result is named by
/// `unicode_lowercase`; on text made of ASCII characters only, the documentation
/// states that it lowercases `A`-`Z` and keeps every other character.
#[verifier::external_body]
pub(crate) fn to_lowercase(s: &[char]) -> (r: Vec<char>)
    ensures
        r@ == unicode_lowercase(s@),
        all_ascii(s@) ==> r@ == ascii_lower(s@),
{
    s.iter().collect::<String>().to_lowercase().chars().collect()
}

// ---------------------------------------------------------------------------
// Whole-sequence predicates
// ---------------------------------------------------------------------------

pub open spec fn starts_with_spec(s: Seq<char>, p: Seq<char>) -> bool {
    p.len() <= s.len() && s.take(p.len() as int) == p
}

pub open spec fn ends_with_spec(s: Seq<char>, p: Seq<char>) -> bool {
    p.len() <= s.len() && s.skip(s.len() - p.len()) == p
}

pub open spec fn occurs_at(s: Seq<char>, p: Seq<char>, i: int) -> bool {
    0 <= i && i + p.len() <= s.len() && s.subrange(i, i + p.len()) == p
}

pub open spec fn contains_spec(s: Seq<char>, p: Seq<char>) -> bool {
    exists|i: int| occurs_at(s, p, i)
}

/// Index of the first occurrence of `p` in `s` at or after `from`.
pub open spec fn is_first_occurrence_from(s: Seq<char>, p: Seq<char>, from: int, i: int) -> bool {
    from <= i && occurs_at(s, p, i) && forall|j: int| from <= j < i ==> !occurs_at(s, p, j)
}

pub fn seq_eq(a: &[char], b: &[char]) -> (r: bool)
    ensures
        r == (a@ == b@),
{
    if a.len() != b.len() {
        return false;
    }
    let mut i: usize = 0;
    while i < a.len()
        invariant
            a.len() == b.len(),
            i <= a.len(),
            forall|j: int| 0 <= j < i ==> a@[j] == b@[j],
        decreases a.len() - i,
    {
        if a[i] != b[i] {
            return false;
        }
        i = i + 1;
    }
    assert(a@ =~= b@);
    true
}

/// Whether `p` occurs in `s` at position `at`.
pub fn matches_at(s: &[char], p: &[char], at: usize) -> (r: bool)
    ensures
        r == occurs_at(s@, p@, at as int),
{
    if at > s.len() || p.len() > s.len() - at {
        return false;
    }
    let mut j: usize = 0;
    while j < p.len()
        invariant
            at + p.len() <= s.len(),
            j <= p.len(),
            forall|k: int| 0 <= k < j ==> s@[at + k] == p@[k],
        decreases p.len() - j,
    {
        if s[at + j] != p[j] {
            assert(s@.subrange(at as int, at + p.len())[j as int] != p@[j as int]);
            return false;
        }
        j = j + 1;
    }
    assert(s@.subrange(at as int, at + p.len()) =~= p@);
    true
}

pub fn starts_with(s: &[char], p: &[char]) -> (r: bool)
    ensures
        r == starts_with_spec(s@, p@),
{
    let r = matches_at(s, p, 0);
    proof {
        if p@.len() <= s@.len() {
            assert(s@.subrange(0, p@.len() as int) =~= s@.take(p@.len() as int));
        }
    }
    r
}

pub fn ends_with(s: &[char], p: &[char]) -> (r: bool)
    ensures
        r == ends_with_spec(s@, p@),
{
    if p.len() > s.len() {
        return false;
    }
    let r = matches_at(s, p, s.len() - p.len());
    assert(s@.subrange(s@.len() - p@.len(), s@.len() as int) =~= s@.skip(s@.len() - p@.len()));
    r
}

/// First occurrence of `p` in `s` at or after `from`.
pub fn find_from(s: &[char], p: &[char], from: usize) -> (r: Option<usize>)
    ensures
        match r {
            Some(i) => is_first_occurrence_from(s@, p@, from as int, i as int),
            None => forall|j: int| from <= j ==> !occurs_at(s@, p@, j),
        },
{
    if from > s.len() {
        return None;
    }
    let mut i = from;
    while i < s.len()
        invariant
            from <= i <= s.len(),
            forall|j: int| from <= j < i ==> !occurs_at(s@, p@, j),
        decreases s.len() - i,
    {
        if matches_at(s, p, i) {
            return Some(i);
        }
        i = i + 1;
    }
    if matches_at(s, p, i) {
        return Some(i);
    }
    None
}

pub fn contains(s: &[char], p: &[char]) -> (r: bool)
    ensures
        r == contains_spec(s@, p@),
{
    match find_from(s, p, 0) {
        Some(_) => true,
        None => {
            assert forall|j: int| !occurs_at(s@, p@, j) by {
                if j < 0 {
                }
            }
            false
        },
    }
}

/// `str::contains` with a string-literal pattern.
pub fn contains_str(s: &[char], p: &str) -> (r: bool)
    ensures
        r == contains_spec(s@, p@),
{
    let pc = chars_of(p);
    contains(s, pc.as_slice())
}

pub fn starts_with_str(s: &[char], p: &str) -> (r: bool)
    ensures
        r == starts_with_spec(s@, p@),
{
    let pc = chars_of(p);
    starts_with(s, pc.as_slice())
}

pub fn ends_with_str(s: &[char], p: &str) -> (r: bool)
    ensures
        r == ends_with_spec(s@, p@),
{
    let pc = chars_of(p);
    ends_with(s, pc.as_slice())
}

pub fn eq_str(s: &[char], p: &str) -> (r: bool)
    ensures
        r == (s@ == p@),
{
    let pc = chars_of(p);
    seq_eq(s, pc.as_slice())
}

/// A copy of `s[from..to]`.
pub fn slice_to_vec(s: &[char], from: usize, to: usize) -> (r: Vec<char>)
    requires
        from <= to <= s.len(),
    ensures
        r@ == s@.subrange(from as int, to as int),
{
    let mut r: Vec<char> = Vec::new();
    let mut i = from;
    while i < to
        invariant
            from <= i <= to <= s.len(),
            r@ == s@.subrange(from as int, i as int),
        decreases to - i,
    {
        r.push(s[i]);
        i = i + 1;
        assert(r@ =~= s@.subrange(from as int, i as int));
    }
    r
}

pub fn to_ascii_lowercase(s: &[char]) -> (r: Vec<char>)
    ensures
        r@ == ascii_lower(s@),
{
    let mut r: Vec<char> = Vec::new();
    let mut i: usize = 0;
    while i < s.len()
        invariant
            i <= s.len(),
            r@ == ascii_lower(s@.take(i as int)),
        decreases s.len() - i,
    {
        let c = lower_ascii_char(s[i]);
        r.push(c);
        i = i + 1;
        assert(r@ =~= ascii_lower(s@.take(i as int)));
    }
    assert(s@.take(s@.len() as int) =~= s@);
    r
}

pub fn upper_ascii_char(c: char) -> (r: char)
    ensures
        r == ascii_upper_char(c),
{
    if 'a' <= c && c <= 'z' {
        let b = (c as u8) - 32;
        assert(b as u32 == (c as u32) - 32);
        b as char
    } else {
        c
    }
}


// ---------------------------------------------------------------------------
// Trimming
// ---------------------------------------------------------------------------

/// `s` without its leading characters that satisfy `f`.
pub open spec fn ltrim_by(s: Seq<char>, f: spec_fn(char) -> bool) -> Seq<char>
    decreases s.len(),
{
    if s.len() > 0 && f(s[0]) {
        ltrim_by(s.drop_first(), f)
    } else {
        s
    }
}

/// `s` without its trailing characters that satisfy `f`.
pub open spec fn rtrim_by(s: Seq<char>, f: spec_fn(char) -> bool) -> Seq<char>
    decreases s.len(),
{
    if s.len() > 0 && f(s.last()) {
        rtrim_by(s.drop_last(), f)
    } else {
        s
    }
}

pub open spec fn ws_pred() -> spec_fn(char) -> bool {
    |c: char| is_ws_spec(c)
}

pub open spec fn char_pred(x: char) -> spec_fn(char) -> bool {
    |c: char| c == x
}

/// `str::trim`.
pub open spec fn trim_spec(s: Seq<char>) -> Seq<char> {
    rtrim_by(ltrim_by(s, ws_pred()), ws_pred())
}

/// `str::trim_matches` with one character.
pub open spec fn trim_char_spec(s: Seq<char>, x: char) -> Seq<char> {
    rtrim_by(ltrim_by(s, char_pred(x)), char_pred(x))
}

proof fn lemma_ltrim_skip(s: Seq<char>, f: spec_fn(char) -> bool, i: int)
    requires
        0 <= i <= s.len(),
        forall|j: int| 0 <= j < i ==> f(#[trigger] s[j]),
    ensures
        ltrim_by(s, f) == ltrim_by(s.skip(i), f),
    decreases i,
{
    if i > 0 {
        assert(f(s[0]));
        lemma_ltrim_skip(s.drop_first(), f, i - 1);
        assert(s.drop_first().skip(i - 1) =~= s.skip(i));
    } else {
        assert(s.skip(0) =~= s);
    }
}

proof fn lemma_rtrim_take(s: Seq<char>, f: spec_fn(char) -> bool, i: int)
    requires
        0 <= i <= s.len(),
        forall|j: int| i <= j < s.len() ==> f(#[trigger] s[j]),
    ensures
        rtrim_by(s, f) == rtrim_by(s.take(i), f),
    decreases s.len() - i,
{
    if i < s.len() {
        assert(f(s.last()));
        lemma_rtrim_take(s.drop_last(), f, i);
        assert(s.drop_last().take(i) =~= s.take(i));
    } else {
        assert(s.take(i) =~= s);
    }
}

fn trims(c: char, ws: bool, x: char) -> (b: bool)
    ensures
        b == (if ws { ws_pred() } else { char_pred(x) })(c),
{
    if ws {
        is_ws(c)
    } else {
        c == x
    }
}

/// Positions `(a, b)` such that `s[a..b]` is `s` trimmed by `f` on both ends.
fn trim_bounds(s: &[char], ws: bool, x: char) -> (r: (usize, usize))
    ensures
        r.0 <= r.1 <= s.len(),
        ws ==> s@.subrange(r.0 as int, r.1 as int) == trim_spec(s@),
        !ws ==> s@.subrange(r.0 as int, r.1 as int) == trim_char_spec(s@, x),
{
    let ghost f = if ws { ws_pred() } else { char_pred(x) };
    let mut a: usize = 0;
    while a < s.len() && trims(s[a], ws, x)
        invariant
            a <= s.len(),
            f == (if ws { ws_pred() } else { char_pred(x) }),
            forall|j: int| 0 <= j < a ==> f(#[trigger] s@[j]),
        decreases s.len() - a,
    {
        a = a + 1;
    }
    proof {
        lemma_ltrim_skip(s@, f, a as int);
    }
    let ghost t = s@.skip(a as int);
    assert(ltrim_by(t, f) == t);
    let mut b: usize = s.len();
    while b > a && trims(s[b - 1], ws, x)
        invariant
            a <= b <= s.len(),
            f == (if ws { ws_pred() } else { char_pred(x) }),
            forall|j: int| b <= j < s.len() ==> f(#[trigger] s@[j]),
        decreases b,
    {
        b = b - 1;
    }
    proof {
        assert forall|j: int| b - a <= j < t.len() implies f(#[trigger] t[j]) by {
            assert(t[j] == s@[j + a]);
        }
        lemma_rtrim_take(t, f, b - a);
        assert(t.take(b - a) =~= s@.subrange(a as int, b as int));
        let u = s@.subrange(a as int, b as int);
        if u.len() > 0 {
            assert(u.last() == s@[b - 1]);
        }
        assert(rtrim_by(u, f) == u);
    }
    (a, b)
}

/// `str::trim`: `s` without leading and trailing Unicode whitespace.
pub fn trim(s: &[char]) -> (r: Vec<char>)
    ensures
        r@ == trim_spec(s@),
{
    let (a, b) = trim_bounds(s, true, ' ');
    slice_to_vec(s, a, b)
}

/// `str::trim_matches` with a single character.
pub fn trim_char(s: &[char], x: char) -> (r: Vec<char>)
    ensures
        r@ == trim_char_spec(s@, x),
{
    let (a, b) = trim_bounds(s, false, x);
    slice_to_vec(s, a, b)
}

/// `str::trim_end_matches` with a string pattern: strip `p` from the end as often as it is there.
pub open spec fn strip_suffixes(s: Seq<char>, p: Seq<char>) -> Seq<char>
    decreases s.len(),
{
    if p.len() > 0 && ends_with_spec(s, p) {
        strip_suffixes(s.take(s.len() - p.len()), p)
    } else {
        s
    }
}

/// `str::trim_start_matches` with a string pattern.
pub open spec fn strip_prefixes(s: Seq<char>, p: Seq<char>) -> Seq<char>
    decreases s.len(),
{
    if p.len() > 0 && starts_with_spec(s, p) {
        strip_prefixes(s.skip(p.len() as int), p)
    } else {
        s
    }
}

pub fn trim_end_matches(s: &[char], p: &[char]) -> (r: Vec<char>)
    ensures
        r@ == strip_suffixes(s@, p@),
{
    let mut cur: Vec<char> = slice_to_vec(s, 0, s.len());
    assert(s@.subrange(0, s@.len() as int) =~= s@);
    if p.len() == 0 {
        return cur;
    }
    while ends_with(cur.as_slice(), p)
        invariant
            p@.len() > 0,
            strip_suffixes(cur@, p@) == strip_suffixes(s@, p@),
        decreases cur@.len(),
    {
        let n = cur.len() - p.len();
        cur = slice_to_vec(cur.as_slice(), 0, n);
        assert(cur@ =~= cur@.take(n as int));
    }
    cur
}

pub fn trim_start_matches(s: &[char], p: &[char]) -> (r: Vec<char>)
    ensures
        r@ == strip_prefixes(s@, p@),
{
    let mut cur: Vec<char> = slice_to_vec(s, 0, s.len());
    assert(s@.subrange(0, s@.len() as int) =~= s@);
    if p.len() == 0 {
        return cur;
    }
    while starts_with(cur.as_slice(), p)
        invariant
            p@.len() > 0,
            strip_prefixes(cur@, p@) == strip_prefixes(s@, p@),
        decreases cur@.len(),
    {
        let old_cur = cur;
        cur = slice_to_vec(old_cur.as_slice(), p.len(), old_cur.len());
        assert(cur@ =~= old_cur@.skip(p@.len() as int));
    }
    cur
}

pub fn trim_end_matches_str(s: &[char], p: &str) -> (r: Vec<char>)
    ensures
        r@ == strip_suffixes(s@, p@),
{
    let pc = chars_of(p);
    trim_end_matches(s, pc.as_slice())
}

pub fn trim_start_matches_str(s: &[char], p: &str) -> (r: Vec<char>)
    ensures
        r@ == strip_prefixes(s@, p@),
{
    let pc = chars_of(p);
    trim_start_matches(s, pc.as_slice())
}

/// `str::strip_prefix`.
pub fn strip_prefix(s: &[char], p: &[char]) -> (r: Option<Vec<char>>)
    ensures
        match r {
            Some(rest) => starts_with_spec(s@, p@) && rest@ == s@.skip(p@.len() as int),
            None => !starts_with_spec(s@, p@),
        },
{
    if starts_with(s, p) {
        let rest = slice_to_vec(s, p.len(), s.len());
        assert(rest@ =~= s@.skip(p@.len() as int));
        Some(rest)
    } else {
        None
    }
}

pub fn strip_prefix_str(s: &[char], p: &str) -> (r: Option<Vec<char>>)
    ensures
        match r {
            Some(rest) => starts_with_spec(s@, p@) && rest@ == s@.skip(p@.len() as int),
            None => !starts_with_spec(s@, p@),
        },
{
    let pc = chars_of(p);
    strip_prefix(s, pc.as_slice())
}


// ---------------------------------------------------------------------------
// Splitting and joining
// ---------------------------------------------------------------------------

/// The character sequences that a vector of strings holds.
pub open spec fn views(v: Seq<Vec<char>>) -> Seq<Seq<char>> {
    v.map_values(|x: Vec<char>| x@)
}

//
// ---------------------------------------------------------------------------

/// Tokens finished so far and the token being read, after reading `s` left to right
/// with whitespace as separator.
pub open spec fn ws_scan(s: Seq<char>) -> (Seq<Seq<char>>, Seq<char>)
    decreases s.len(),
{
    if s.len() == 0 {
        (Seq::empty(), Seq::empty())
    } else {
        let (toks, cur) = ws_scan(s.drop_last());
        if is_ws_spec(s.last()) {
            if cur.len() > 0 {
                (toks.push(cur), Seq::empty())
            } else {
                (toks, Seq::empty())
            }
        } else {
            (toks, cur.push(s.last()))
        }
    }
}

/// `str::split_whitespace`: the maximal runs of non-whitespace characters, in order.
pub open spec fn split_ws(s: Seq<char>) -> Seq<Seq<char>> {
    let (toks, cur) = ws_scan(s);
    if cur.len() > 0 {
        toks.push(cur)
    } else {
        toks
    }
}

/// Pieces finished so far and the piece being read, splitting at `sep`.
pub open spec fn sep_scan(s: Seq<char>, sep: char) -> (Seq<Seq<char>>, Seq<char>)
    decreases s.len(),
{
    if s.len() == 0 {
        (Seq::empty(), Seq::empty())
    } else {
        let (parts, cur) = sep_scan(s.drop_last(), sep);
        if s.last() == sep {
            (parts.push(cur), Seq::empty())
        } else {
            (parts, cur.push(s.last()))
        }
    }
}

/// `str::split` with one character: always at least one piece.
pub open spec fn split_char_spec(s: Seq<char>, sep: char) -> Seq<Seq<char>> {
    let (parts, cur) = sep_scan(s, sep);
    parts.push(cur)
}

/// A line as `str::lines` yields it: a final `\r` before the `\n` is dropped.
pub open spec fn strip_cr(l: Seq<char>) -> Seq<char> {
    if l.len() > 0 && l.last() == '\r' {
        l.drop_last()
    } else {
        l
    }
}

/// `str::lines`: pieces ended by `\n` (without `\r\n`/`\n`), and a last piece without
/// line ending if it is not empty.
pub open spec fn lines_spec(s: Seq<char>) -> Seq<Seq<char>> {
    let (parts, cur) = sep_scan(s, '\n');
    let done = parts.map_values(|l: Seq<char>| strip_cr(l));
    if cur.len() > 0 {
        done.push(cur)
    } else {
        done
    }
}

pub fn split_whitespace(s: &[char]) -> (r: Vec<Vec<char>>)
    ensures
        views(r@) == split_ws(s@),
{
    let mut toks: Vec<Vec<char>> = Vec::new();
    let mut cur: Vec<char> = Vec::new();
    let mut i: usize = 0;
    while i < s.len()
        invariant
            i <= s.len(),
            (views(toks@), cur@) == ws_scan(s@.take(i as int)),
        decreases s.len() - i,
    {
        let c = s[i];
        proof {
            assert(s@.take(i + 1).drop_last() =~= s@.take(i as int));
        }
        if is_ws(c) {
            if cur.len() > 0 {
                let done = cur;
                toks.push(done);
                cur = Vec::new();
                assert(views(toks@) =~= ws_scan(s@.take(i as int)).0.push(done@));
            }
        } else {
            cur.push(c);
        }
        i = i + 1;
    }
    assert(s@.take(s@.len() as int) =~= s@);
    if cur.len() > 0 {
        let done = cur;
        toks.push(done);
        assert(views(toks@) =~= ws_scan(s@).0.push(done@));
    }
    toks
}

pub fn split_char(s: &[char], sep: char) -> (r: Vec<Vec<char>>)
    ensures
        views(r@) == split_char_spec(s@, sep),
        r.len() >= 1,
{
    let mut parts: Vec<Vec<char>> = Vec::new();
    let mut cur: Vec<char> = Vec::new();
    let mut i: usize = 0;
    while i < s.len()
        invariant
            i <= s.len(),
            (views(parts@), cur@) == sep_scan(s@.take(i as int), sep),
        decreases s.len() - i,
    {
        let c = s[i];
        proof {
            assert(s@.take(i + 1).drop_last() =~= s@.take(i as int));
        }
        if c == sep {
            let done = cur;
            parts.push(done);
            cur = Vec::new();
            assert(views(parts@) =~= sep_scan(s@.take(i as int), sep).0.push(done@));
        } else {
            cur.push(c);
        }
        i = i + 1;
    }
    assert(s@.take(s@.len() as int) =~= s@);
    let done = cur;
    parts.push(done);
    assert(views(parts@) =~= sep_scan(s@, sep).0.push(done@));
    parts
}

pub fn strip_cr_vec(l: Vec<char>) -> (r: Vec<char>)
    ensures
        r@ == strip_cr(l@),
{
    if l.len() > 0 && l[l.len() - 1] == '\r' {
        let n = l.len() - 1;
        let r = slice_to_vec(l.as_slice(), 0, n);
        assert(r@ =~= l@.drop_last());
        r
    } else {
        l
    }
}

pub fn lines(s: &[char]) -> (r: Vec<Vec<char>>)
    ensures
        views(r@) == lines_spec(s@),
{
    let mut done: Vec<Vec<char>> = Vec::new();
    let mut cur: Vec<char> = Vec::new();
    let mut i: usize = 0;
    while i < s.len()
        invariant
            i <= s.len(),
            cur@ == sep_scan(s@.take(i as int), '\n').1,
            views(done@) == sep_scan(s@.take(i as int), '\n').0.map_values(
                |l: Seq<char>| strip_cr(l),
            ),
        decreases s.len() - i,
    {
        let c = s[i];
        proof {
            assert(s@.take(i + 1).drop_last() =~= s@.take(i as int));
        }
        if c == '\n' {
            let piece = cur;
            let ghost pv = piece@;
            let ghost old_done = views(done@);
            let ghost parts = sep_scan(s@.take(i as int), '\n').0;
            let l = strip_cr_vec(piece);
            done.push(l);
            cur = Vec::new();
            assert(views(done@) =~= old_done.push(strip_cr(pv)));
            assert(parts.push(pv).map_values(|l: Seq<char>| strip_cr(l)) =~= parts.map_values(
                |l: Seq<char>| strip_cr(l),
            ).push(strip_cr(pv)));
        } else {
            cur.push(c);
        }
        i = i + 1;
    }
    assert(s@.take(s@.len() as int) =~= s@);
    if cur.len() > 0 {
        let piece = cur;
        done.push(piece);
        assert(views(done@) =~= lines_spec(s@));
    }
    done
}

/// `[T]::join` on strings: the parts with `sep` between consecutive ones.
pub open spec fn join_spec(parts: Seq<Seq<char>>, sep: Seq<char>) -> Seq<char>
    decreases parts.len(),
{
    if parts.len() == 0 {
        Seq::empty()
    } else if parts.len() == 1 {
        parts[0]
    } else {
        join_spec(parts.drop_last(), sep) + sep + parts.last()
    }
}

pub fn push_all(out: &mut Vec<char>, s: &[char])
    ensures
        final(out)@ == old(out)@ + s@,
{
    let mut i: usize = 0;
    while i < s.len()
        invariant
            i <= s.len(),
            out@ == old(out)@ + s@.take(i as int),
        decreases s.len() - i,
    {
        out.push(s[i]);
        i = i + 1;
        assert(out@ =~= old(out)@ + s@.take(i as int));
    }
    assert(s@.take(s@.len() as int) =~= s@);
}

pub fn push_str(out: &mut Vec<char>, s: &str)
    ensures
        final(out)@ == old(out)@ + s@,
{
    let sc = chars_of(s);
    push_all(out, sc.as_slice());
}

pub fn join(parts: &[Vec<char>], sep: &[char]) -> (r: Vec<char>)
    ensures
        r@ == join_spec(views(parts@), sep@),
{
    let ghost pv = views(parts@);
    let mut out: Vec<char> = Vec::new();
    let mut i: usize = 0;
    while i < parts.len()
        invariant
            i <= parts.len(),
            pv == views(parts@),
            out@ == join_spec(pv.take(i as int), sep@),
        decreases parts.len() - i,
    {
        if i > 0 {
            push_all(&mut out, sep);
        }
        push_all(&mut out, parts[i].as_slice());
        proof {
            assert(pv.take(i + 1).drop_last() =~= pv.take(i as int));
            assert(pv.take(i + 1).last() == parts@[i as int]@);
            if i == 0 {
                assert(out@ =~= join_spec(pv.take(1), sep@));
            }
        }
        i = i + 1;
    }
    assert(pv.take(parts@.len() as int) =~= pv);
    out
}


// ---------------------------------------------------------------------------
// Numbers
// ---------------------------------------------------------------------------

pub open spec fn digit_char(d: int) -> char {
    ((d + 48) as u32) as char
}

/// Decimal digits of `n`, as `u64::to_string` writes them.
pub open spec fn dec_spec(n: nat) -> Seq<char>
    decreases n,
{
    if n < 10 {
        seq![digit_char(n as int)]
    } else {
        dec_spec(n / 10).push(digit_char((n % 10) as int))
    }
}

/// Appends the decimal digits of `n`.
pub fn push_dec(out: &mut Vec<char>, n: u64)
    ensures
        final(out)@ == old(out)@ + dec_spec(n as nat),
    decreases n,
{
    if n >= 10 {
        push_dec(out, n / 10);
    }
    let d = (n % 10) as u8;
    let c = (d + 48) as char;
    assert(c == digit_char((n % 10) as int));
    out.push(c);
}

/// `u64::to_string` as characters.
pub fn dec(n: u64) -> (r: Vec<char>)
    ensures
        r@ == dec_spec(n as nat),
{
    let mut out: Vec<char> = Vec::new();
    push_dec(&mut out, n);
    assert(out@ =~= dec_spec(n as nat));
    out
}

/// Value of one digit in bases up to 36, as `char::to_digit` reads it.
pub open spec fn digit_value(c: char, radix: nat) -> Option<nat> {
    let u = c as u32;
    let v: int = if '0' <= c && c <= '9' {
        u - 48
    } else if 'a' <= c && c <= 'z' {
        u - 97 + 10
    } else if 'A' <= c && c <= 'Z' {
        u - 65 + 10
    } else {
        99
    };
    if v < radix {
        Some(v as nat)
    } else {
        None
    }
}

/// Value of a run of digits, read most significant first.
pub open spec fn digits_value(s: Seq<char>, radix: nat) -> Option<nat>
    decreases s.len(),
{
    if s.len() == 0 {
        Some(0)
    } else {
        match (digits_value(s.drop_last(), radix), digit_value(s.last(), radix)) {
            (Some(v), Some(d)) => Some(v * radix + d),
            _ => None,
        }
    }
}

/// `from_str_radix` for an unsigned type whose largest value is `max`: an optional
/// `+`, then at least one digit, and a value that fits.
pub open spec fn parse_unsigned_spec(s: Seq<char>, radix: nat, max: nat) -> Option<nat> {
    let body = if s.len() > 0 && s[0] == '+' {
        s.drop_first()
    } else {
        s
    };
    if body.len() == 0 {
        None
    } else {
        match digits_value(body, radix) {
            Some(v) => if v <= max {
                Some(v)
            } else {
                None
            },
            None => None,
        }
    }
}

fn digit_of(c: char, radix: u64) -> (r: Option<u64>)
    requires
        2 <= radix <= 36,
    ensures
        match digit_value(c, radix as nat) {
            Some(d) => r == Some(d as u64),
            None => r is None,
        },
{
    let u = c as u32;
    let v: u64 = if '0' <= c && c <= '9' {
        (u - 48) as u64
    } else if 'a' <= c && c <= 'z' {
        (u - 97 + 10) as u64
    } else if 'A' <= c && c <= 'Z' {
        (u - 65 + 10) as u64
    } else {
        99
    };
    if v < radix {
        Some(v)
    } else {
        None
    }
}

proof fn lemma_digits_prefix_bound(s: Seq<char>, radix: nat, k: int)
    requires
        radix >= 1,
        0 <= k <= s.len(),
        digits_value(s, radix) is Some,
    ensures
        digits_value(s.take(k), radix) is Some,
        digits_value(s.take(k), radix)->0 <= digits_value(s, radix)->0,
    decreases s.len(),
{
    if k == s.len() {
        assert(s.take(k) =~= s);
    } else {
        let v = digits_value(s.drop_last(), radix)->0;
        let d = digit_value(s.last(), radix)->0;
        assert(v * radix + d >= v) by (nonlinear_arith)
            requires
                radix >= 1,
                d >= 0,
                v >= 0,
        ;
        lemma_digits_prefix_bound(s.drop_last(), radix, k);
        assert(s.drop_last().take(k) =~= s.take(k));
    }
}

/// `u64::from_str_radix` (and `str::parse::<u64>` for radix 10), with `max` bounding
/// the type (`u32::MAX` for a `u32`).
pub fn parse_unsigned(s: &[char], radix: u64, max: u64) -> (r: Option<u64>)
    requires
        2 <= radix <= 36,
    ensures
        match parse_unsigned_spec(s@, radix as nat, max as nat) {
            Some(v) => r == Some(v as u64),
            None => r is None,
        },
{
    let start: usize = if s.len() > 0 && s[0] == '+' {
        1
    } else {
        0
    };
    let ghost body = if s@.len() > 0 && s@[0] == '+' {
        s@.drop_first()
    } else {
        s@
    };
    assert(body =~= s@.skip(start as int));
    if start >= s.len() {
        return None;
    }
    let mut acc: u64 = 0;
    let mut i: usize = start;
    while i < s.len()
        invariant
            start <= i <= s.len(),
            2 <= radix <= 36,
            body == s@.skip(start as int),
            body == (if s@.len() > 0 && s@[0] == '+' {
                s@.drop_first()
            } else {
                s@
            }),
            body.len() > 0,
            digits_value(body.take(i - start), radix as nat) == Some(acc as nat),
            acc <= max,
        decreases s.len() - i,
    {
        let ghost pre = body.take(i - start);
        assert(body.take(i + 1 - start).drop_last() =~= pre);
        assert(body.take(i + 1 - start).last() == s@[i as int]);
        match digit_of(s[i], radix) {
            None => {
                proof {
                    assert(digits_value(body.take(i + 1 - start), radix as nat) is None);
                    if digits_value(body, radix as nat) is Some {
                        lemma_digits_prefix_bound(body, radix as nat, i + 1 - start);
                    }
                }
                return None;
            },
            Some(d) => {
                let next = match acc.checked_mul(radix) {
                    Some(m) => m.checked_add(d),
                    None => None,
                };
                match next {
                    Some(n) if n <= max => {
                        acc = n;
                    },
                    _ => {
                        proof {
                            assert(digits_value(body.take(i + 1 - start), radix as nat) == Some(
                                (acc * radix + d) as nat,
                            ));
                            assert(acc * radix + d > max);
                            if digits_value(body, radix as nat) is Some {
                                lemma_digits_prefix_bound(body, radix as nat, i + 1 - start);
                            }
                        }
                        return None;
                    },
                }
            },
        }
        i = i + 1;
    }
    assert(body.take(s@.len() - start) =~= body);
    Some(acc)
}

pub fn parse_u64(s: &[char]) -> (r: Option<u64>)
    ensures
        match parse_unsigned_spec(s@, 10, u64::MAX as nat) {
            Some(v) => r == Some(v as u64),
            None => r is None,
        },
{
    parse_unsigned(s, 10, u64::MAX)
}

pub fn parse_u32(s: &[char]) -> (r: Option<u32>)
    ensures
        match parse_unsigned_spec(s@, 10, u32::MAX as nat) {
            Some(v) => r == Some(v as u32),
            None => r is None,
        },
{
    match parse_unsigned(s, 10, u32::MAX as u64) {
        Some(v) => Some(v as u32),
        None => None,
    }
}


// ---------------------------------------------------------------------------
// Searching
// ---------------------------------------------------------------------------

/// Position of the first `c` in `s`.
pub open spec fn first_index(s: Seq<char>, c: char) -> Option<int>
    decreases s.len(),
{
    if s.len() == 0 {
        None
    } else if s[0] == c {
        Some(0)
    } else {
        match first_index(s.drop_first(), c) {
            Some(i) => Some(i + 1),
            None => None,
        }
    }
}

/// Position of the last `c` in `s`.
pub open spec fn last_index(s: Seq<char>, c: char) -> Option<int>
    decreases s.len(),
{
    if s.len() == 0 {
        None
    } else if s.last() == c {
        Some(s.len() - 1)
    } else {
        last_index(s.drop_last(), c)
    }
}

proof fn lemma_first_index(s: Seq<char>, c: char, i: int)
    requires
        0 <= i <= s.len(),
        forall|j: int| 0 <= j < i ==> s[j] != c,
    ensures
        i < s.len() && s[i] == c ==> first_index(s, c) == Some(i),
        i == s.len() ==> first_index(s, c) is None,
    decreases i,
{
    if i > 0 {
        lemma_first_index(s.drop_first(), c, i - 1);
    }
}

proof fn lemma_last_index(s: Seq<char>, c: char, i: int)
    requires
        0 <= i <= s.len(),
        forall|j: int| i <= j < s.len() ==> s[j] != c,
    ensures
        i > 0 && s[i - 1] == c ==> last_index(s, c) == Some(i - 1),
        i == 0 ==> last_index(s, c) is None,
    decreases s.len() - i,
{
    if i < s.len() {
        lemma_last_index(s.drop_last(), c, i);
    }
}

pub fn find_char(s: &[char], c: char) -> (r: Option<usize>)
    ensures
        r matches Some(i) ==> first_index(s@, c) == Some(i as int),
        r is None ==> first_index(s@, c) is None,
        r matches Some(i) ==> i < s.len() && s@[i as int] == c,
{
    let mut i: usize = 0;
    while i < s.len()
        invariant
            i <= s.len(),
            forall|j: int| 0 <= j < i ==> s@[j] != c,
        decreases s.len() - i,
    {
        if s[i] == c {
            proof {
                lemma_first_index(s@, c, i as int);
            }
            return Some(i);
        }
        i = i + 1;
    }
    proof {
        lemma_first_index(s@, c, i as int);
    }
    None
}

pub fn rfind_char(s: &[char], c: char) -> (r: Option<usize>)
    ensures
        r matches Some(i) ==> last_index(s@, c) == Some(i as int),
        r is None ==> last_index(s@, c) is None,
        r matches Some(i) ==> i < s.len() && s@[i as int] == c,
{
    let mut i: usize = s.len();
    while i > 0
        invariant
            i <= s.len(),
            forall|j: int| i <= j < s.len() ==> s@[j] != c,
        decreases i,
    {
        if s[i - 1] == c {
            proof {
                lemma_last_index(s@, c, i as int);
            }
            return Some(i - 1);
        }
        i = i - 1;
    }
    proof {
        lemma_last_index(s@, c, i as int);
    }
    None
}

/// `str::find`: position of the first occurrence of `p` in `s`.
pub open spec fn find_spec(s: Seq<char>, p: Seq<char>) -> Option<int> {
    if exists|i: int| is_first_occurrence_from(s, p, 0, i) {
        Some(choose|i: int| is_first_occurrence_from(s, p, 0, i))
    } else {
        None
    }
}

proof fn lemma_first_occurrence_unique(s: Seq<char>, p: Seq<char>, i: int, j: int)
    requires
        is_first_occurrence_from(s, p, 0, i),
        is_first_occurrence_from(s, p, 0, j),
    ensures
        i == j,
{
    if i < j {
        assert(!occurs_at(s, p, i));
    }
    if j < i {
        assert(!occurs_at(s, p, j));
    }
}

pub fn find(s: &[char], p: &[char]) -> (r: Option<usize>)
    ensures
        r matches Some(i) ==> find_spec(s@, p@) == Some(i as int),
        r is None ==> find_spec(s@, p@) is None,
{
    match find_from(s, p, 0) {
        Some(i) => {
            proof {
                let k = choose|k: int| is_first_occurrence_from(s@, p@, 0, k);
                lemma_first_occurrence_unique(s@, p@, i as int, k);
            }
            Some(i)
        },
        None => {
            assert(!exists|i: int| is_first_occurrence_from(s@, p@, 0, i));
            None
        },
    }
}


// ---------------------------------------------------------------------------
// Replacing
// ---------------------------------------------------------------------------

/// `str::replace` with a non-empty pattern: every occurrence of `p`, found from the
/// left without overlapping, replaced by `r`.
pub open spec fn replace_spec(s: Seq<char>, p: Seq<char>, r: Seq<char>) -> Seq<char>
    decreases s.len(),
{
    if s.len() == 0 {
        Seq::empty()
    } else if p.len() > 0 && starts_with_spec(s, p) {
        r + replace_spec(s.skip(p.len() as int), p, r)
    } else {
        seq![s[0]] + replace_spec(s.drop_first(), p, r)
    }
}

pub fn replace(s: &[char], p: &[char], r: &[char]) -> (out: Vec<char>)
    requires
        p.len() > 0,
    ensures
        out@ == replace_spec(s@, p@, r@),
{
    let mut out: Vec<char> = Vec::new();
    let mut i: usize = 0;
    assert(s@.skip(0) =~= s@);
    while i < s.len()
        invariant
            i <= s.len(),
            p.len() > 0,
            replace_spec(s@, p@, r@) == out@ + replace_spec(s@.skip(i as int), p@, r@),
        decreases s.len() - i,
    {
        let ghost rest = s@.skip(i as int);
        if matches_at(s, p, i) {
            proof {
                assert(rest.take(p@.len() as int) =~= s@.subrange(i as int, i + p@.len()));
                assert(rest.skip(p@.len() as int) =~= s@.skip(i + p@.len()));
            }
            push_all(&mut out, r);
            i = i + p.len();
            assert(replace_spec(s@, p@, r@) =~= out@ + replace_spec(s@.skip(i as int), p@, r@));
        } else {
            proof {
                if p@.len() <= rest.len() {
                    assert(rest.take(p@.len() as int) =~= s@.subrange(i as int, i + p@.len()));
                }
                assert(rest.drop_first() =~= s@.skip(i + 1));
                assert(rest[0] == s@[i as int]);
            }
            out.push(s[i]);
            i = i + 1;
            assert(replace_spec(s@, p@, r@) =~= out@ + replace_spec(s@.skip(i as int), p@, r@));
        }
    }
    assert(s@.skip(i as int) =~= Seq::<char>::empty());
    assert(out@ + Seq::<char>::empty() =~= out@);
    out
}


// ---------------------------------------------------------------------------
// String order
// ---------------------------------------------------------------------------

/// `a <= b` in `String` order: character codes compared from the left, a prefix first.
pub open spec fn lex_le(a: Seq<char>, b: Seq<char>) -> bool
    decreases a.len(),
{
    if a.len() == 0 {
        true
    } else if b.len() == 0 {
        false
    } else if a[0] != b[0] {
        (a[0] as int) < (b[0] as int)
    } else {
        lex_le(a.drop_first(), b.drop_first())
    }
}

pub fn lex_le_exec(a: &[char], b: &[char]) -> (r: bool)
    ensures
        r == lex_le(a@, b@),
{
    let mut i: usize = 0;
    assert(a@.skip(0) =~= a@ && b@.skip(0) =~= b@);
    while i < a.len() && i < b.len() && a[i] == b[i]
        invariant
            i <= a.len(),
            i <= b.len(),
            lex_le(a@, b@) == lex_le(a@.skip(i as int), b@.skip(i as int)),
        decreases a.len() - i,
    {
        proof {
            assert(a@.skip(i as int).drop_first() =~= a@.skip(i + 1));
            assert(b@.skip(i as int).drop_first() =~= b@.skip(i + 1));
        }
        i = i + 1;
    }
    if i == a.len() {
        true
    } else if i == b.len() {
        false
    } else {
        a[i] < b[i]
    }
}


/// String order is total.
pub proof fn lemma_lex_le_total(a: Seq<char>, b: Seq<char>)
    ensures
        lex_le(a, b) || lex_le(b, a),
    decreases a.len(),
{
    if a.len() > 0 && b.len() > 0 {
        if a[0] == b[0] {
            lemma_lex_le_total(a.drop_first(), b.drop_first());
        } else {
            assert((a[0] as int) != (b[0] as int));
        }
    }
}

/// String order is transitive.
pub proof fn lemma_lex_le_trans(a: Seq<char>, b: Seq<char>, c: Seq<char>)
    requires
        lex_le(a, b),
        lex_le(b, c),
    ensures
        lex_le(a, c),
    decreases a.len(),
{
    if a.len() > 0 && a[0] == b[0] && b[0] == c[0] {
        lemma_lex_le_trans(a.drop_first(), b.drop_first(), c.drop_first());
    }
}


/// String order is antisymmetric.
pub proof fn lemma_lex_le_antisym(a: Seq<char>, b: Seq<char>)
    requires
        lex_le(a, b),
        lex_le(b, a),
    ensures
        a == b,
    decreases a.len(),
{
    if a.len() > 0 && b.len() > 0 {
        if a[0] == b[0] {
            lemma_lex_le_antisym(a.drop_first(), b.drop_first());
            assert(a =~= seq![a[0]] + a.drop_first());
            assert(b =~= seq![b[0]] + b.drop_first());
        } else {
            assert((a[0] as int) != (b[0] as int));
        }
    }
}

/// `a < b` in `String` order.
pub open spec fn lex_lt(a: Seq<char>, b: Seq<char>) -> bool {
    lex_le(a, b) && a != b
}

/// The texts of a sequence of strings.
pub open spec fn string_views(v: Seq<String>) -> Seq<Seq<char>> {
    v.map_values(|s: String| s@)
}

/// Each text comes before the next in `String` order, so no text occurs twice: the
/// order in which a `BTreeSet<String>` yields its elements.
pub open spec fn strictly_sorted(s: Seq<Seq<char>>) -> bool {
    forall|i: int, j: int| 0 <= i < j < s.len() ==> lex_lt(#[trigger] s[i], #[trigger] s[j])
}

/// Adds `x` to the strictly sorted strings `v` unless it is there already, as
/// `BTreeSet::insert` does.
pub fn insert_sorted_unique(v: &mut Vec<String>, x: String)
    requires
        strictly_sorted(string_views(old(v)@)),
    ensures
        strictly_sorted(string_views(final(v)@)),
        forall|y: Seq<char>|
            string_views(final(v)@).contains(y) <==> (string_views(old(v)@).contains(y) || y == x@),
{
    let ghost old_s = string_views(v@);
    let xc = chars_of(x.as_str());
    let mut i: usize = 0;
    while i < v.len()
        invariant
            i <= v.len(),
            v@ == old(v)@,
            old_s == string_views(v@),
            xc@ == x@,
            forall|j: int| 0 <= j < i ==> lex_lt(#[trigger] old_s[j], x@),
        ensures
            i <= v.len(),
            v@ == old(v)@,
            forall|j: int| 0 <= j < i ==> lex_lt(#[trigger] old_s[j], x@),
            i == v.len() || lex_le(x@, old_s[i as int]),
        decreases v.len() - i,
    {
        let vc = chars_of(v[i].as_str());
        if lex_le_exec(xc.as_slice(), vc.as_slice()) {
            break;
        }
        proof {
            lemma_lex_le_total(x@, old_s[i as int]);
        }
        i = i + 1;
    }
    if i < v.len() {
        let vc = chars_of(v[i].as_str());
        if seq_eq(vc.as_slice(), xc.as_slice()) {
            assert(old_s[i as int] == x@);
            return;
        }
    }
    v.insert(i, x);
    proof {
        let s = string_views(v@);
        assert(s =~= old_s.take(i as int).push(x@) + old_s.skip(i as int));
        assert forall|a: int, b: int| 0 <= a < b < s.len() implies lex_lt(#[trigger] s[a], #[trigger] s[b]) by {
            if b < i {
                assert(s[a] == old_s[a] && s[b] == old_s[b]);
            } else if b == i {
                assert(s[a] == old_s[a]);
            } else if a < i {
                assert(s[a] == old_s[a] && s[b] == old_s[b - 1]);
                if i < old_s.len() {
                    assert(lex_lt(old_s[i as int], old_s[b - 1]) || b - 1 == i);
                    if b - 1 > i {
                        lemma_lex_le_trans(old_s[a], x@, old_s[i as int]);
                        lemma_lex_le_trans(old_s[a], old_s[i as int], old_s[b - 1]);
                    } else {
                        lemma_lex_le_trans(old_s[a], x@, old_s[b - 1]);
                    }
                    if old_s[a] == old_s[b - 1] {
                        assert(lex_lt(old_s[a], old_s[b - 1]) || a == b - 1);
                    }
                }
            } else if a == i {
                assert(s[b] == old_s[b - 1]);
                if b - 1 > i {
                    lemma_lex_le_trans(x@, old_s[i as int], old_s[b - 1]);
                    if x@ == old_s[b - 1] {
                        lemma_lex_le_antisym(x@, old_s[i as int]);
                    }
                }
            } else {
                assert(s[a] == old_s[a - 1] && s[b] == old_s[b - 1]);
            }
        }
        assert forall|y: Seq<char>| s.contains(y) <==> (old_s.contains(y) || y == x@) by {
            if s.contains(y) {
                let k = choose|k: int| 0 <= k < s.len() && s[k] == y;
                if k < i {
                    assert(old_s[k] == y);
                } else if k > i {
                    assert(old_s[k - 1] == y);
                }
            }
            if old_s.contains(y) {
                let k = choose|k: int| 0 <= k < old_s.len() && old_s[k] == y;
                if k < i {
                    assert(s[k] == y);
                } else {
                    assert(s[k + 1] == y);
                }
            }
            if y == x@ {
                assert(s[i as int] == y);
            }
        }
    }
}


// ---------------------------------------------------------------------------
// Character classes and encoded length
// ---------------------------------------------------------------------------

/// What `char::is_alphanumeric` answers for `c`.
pub uninterp spec fn unicode_alphanumeric(c: char) -> bool;

/// `char::is_alphanumeric`: whether `c` is alphabetic or numeric in Unicode. Its
/// result is named `unicode_alphanumeric`; for an ASCII character the documentation
/// makes that the ASCII letters and digits.
#[verifier::external_body]
pub(crate) fn is_alphanumeric(c: char) -> (r: bool)
    ensures
        r == unicode_alphanumeric(c),
        is_ascii_char(c) ==> (r == is_ascii_alnum(c)),
{
    c.is_alphanumeric()
}

/// Bytes that `c` takes in UTF-8.
pub open spec fn utf8_width(c: char) -> nat {
    if (c as u32) < 0x80 {
        1
    } else if (c as u32) < 0x800 {
        2
    } else if (c as u32) < 0x10000 {
        3
    } else {
        4
    }
}

/// `str::len`: the length of the text in UTF-8 bytes.
pub open spec fn utf8_len(s: Seq<char>) -> nat
    decreases s.len(),
{
    if s.len() == 0 {
        0
    } else {
        utf8_len(s.drop_last()) + utf8_width(s.last())
    }
}

proof fn lemma_utf8_len_prefix(s: Seq<char>, i: int)
    requires
        0 <= i <= s.len(),
    ensures
        utf8_len(s.take(i)) <= utf8_len(s),
    decreases s.len() - i,
{
    if i < s.len() {
        lemma_utf8_len_prefix(s, i + 1);
        assert(s.take(i + 1).drop_last() =~= s.take(i));
    } else {
        assert(s.take(i) =~= s);
    }
}

/// Whether the text takes more than `limit` bytes in UTF-8.
pub fn utf8_len_exceeds(s: &[char], limit: u64) -> (r: bool)
    ensures
        r == (utf8_len(s@) > limit),
{
    let mut total: u64 = 0;
    let mut i: usize = 0;
    while i < s.len()
        invariant
            i <= s.len(),
            total == utf8_len(s@.take(i as int)),
            total <= limit,
        decreases s.len() - i,
    {
        let u = s[i] as u32;
        let w: u64 = if u < 0x80 {
            1
        } else if u < 0x800 {
            2
        } else if u < 0x10000 {
            3
        } else {
            4
        };
        assert(s@.take(i + 1).drop_last() =~= s@.take(i as int));
        assert(w == utf8_width(s@[i as int]));
        if w > limit || total > limit - w {
            proof {
                lemma_utf8_len_prefix(s@, i + 1);
            }
            return true;
        }
        total = total + w;
        i = i + 1;
    }
    assert(s@.take(i as int) =~= s@);
    false
}


/// One more element of a prefix: what the longer prefix contains.
pub proof fn lemma_take_contains<A>(s: Seq<A>, i: int)
    requires
        0 <= i < s.len(),
    ensures
        forall|y: A|
            #![trigger s.take(i + 1).contains(y)]
            #![trigger s.take(i).contains(y)]
            s.take(i + 1).contains(y) <==> (s.take(i).contains(y) || y == s[i]),
{
    assert forall|y: A| s.take(i + 1).contains(y) <==> (s.take(i).contains(y) || y == s[i]) by {
        let t1 = s.take(i + 1);
        let t0 = s.take(i);
        if t1.contains(y) {
            let k = choose|k: int| 0 <= k < t1.len() && t1[k] == y;
            if k < i {
                assert(t0[k] == y);
            }
        }
        if t0.contains(y) {
            let k = choose|k: int| 0 <= k < t0.len() && t0[k] == y;
            assert(t1[k] == y);
        }
        if y == s[i] {
            assert(t1[i] == y);
        }
    }
}


/// The text of an optional string slice.
pub open spec fn opt_str_view(s: Option<&str>) -> Option<Seq<char>> {
    match s {
        Some(v) => Some(v@),
        None => None,
    }
}


proof fn lemma_ltrim_head(s: Seq<char>, f: spec_fn(char) -> bool)
    ensures
        ltrim_by(s, f).len() == 0 || !f(ltrim_by(s, f)[0]),
    decreases s.len(),
{
    if s.len() > 0 && f(s[0]) {
        lemma_ltrim_head(s.drop_first(), f);
    }
}

proof fn lemma_rtrim_tail(s: Seq<char>, f: spec_fn(char) -> bool)
    ensures
        rtrim_by(s, f).len() == 0 || !f(rtrim_by(s, f).last()),
    decreases s.len(),
{
    if s.len() > 0 && f(s.last()) {
        lemma_rtrim_tail(s.drop_last(), f);
    }
}

proof fn lemma_rtrim_keeps_head(s: Seq<char>, f: spec_fn(char) -> bool)
    requires
        s.len() > 0,
        !f(s[0]),
    ensures
        rtrim_by(s, f).len() > 0,
        rtrim_by(s, f)[0] == s[0],
    decreases s.len(),
{
    if f(s.last()) {
        lemma_rtrim_keeps_head(s.drop_last(), f);
    }
}

/// Trimming twice trims no more than trimming once.
pub proof fn lemma_trim_idempotent(s: Seq<char>)
    ensures
        trim_spec(trim_spec(s)) == trim_spec(s),
{
    let f = ws_pred();
    let x = ltrim_by(s, f);
    let y = rtrim_by(x, f);
    lemma_ltrim_head(s, f);
    if y.len() > 0 {
        lemma_rtrim_keeps_head(x, f);
        assert(ltrim_by(y, f) == y);
    } else {
        assert(ltrim_by(y, f) == y);
    }
    lemma_rtrim_tail(x, f);
    assert(rtrim_by(y, f) == y);
}


/// Whether `i` is the last position where `p` occurs in `s`.
pub open spec fn is_last_occurrence(s: Seq<char>, p: Seq<char>, i: int) -> bool {
    occurs_at(s, p, i) && forall|j: int| i < j ==> !occurs_at(s, p, j)
}

/// `str::rfind` with a string pattern.
pub fn rfind_str(s: &[char], p: &str) -> (r: Option<usize>)
    ensures
        match r {
            Some(i) => is_last_occurrence(s@, p@, i as int),
            None => !contains_spec(s@, p@),
        },
{
    let pc = chars_of(p);
    if pc.len() > s.len() {
        assert forall|j: int| !occurs_at(s@, p@, j) by {}
        return None;
    }
    if pc.len() == 0 {
        assert(s@.subrange(s@.len() as int, s@.len() as int) =~= pc@);
        return Some(s.len());
    }
    let mut i: usize = s.len() - pc.len() + 1;
    while i > 0
        invariant
            i <= s.len() - pc@.len() + 1,
            pc@ == p@,
            pc@.len() <= s.len(),
            forall|j: int| i <= j ==> !occurs_at(s@, p@, j),
        decreases i,
    {
        if matches_at(s, pc.as_slice(), i - 1) {
            return Some(i - 1);
        }
        i = i - 1;
    }
    None
}

} // verus!
