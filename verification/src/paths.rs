//! Unix path components, as `std::path::Path` reads them, over character sequences.
use vstd::prelude::*;
use crate::text::{chars_of, join, last_index, push_all, rfind_char, seq_eq, slice_to_vec, split_char, split_char_spec, string_of, views};

verus! {

pub open spec fn is_dot(s: Seq<char>) -> bool {
    s.len() == 1 && s[0] == '.'
}

pub open spec fn is_dot_dot(s: Seq<char>) -> bool {
    s.len() == 2 && s[0] == '.' && s[1] == '.'
}

/// The last component of a path split at `/`, skipping empty and `.` pieces; `None`
/// when there is none or it is `..`.
pub open spec fn last_normal(segs: Seq<Seq<char>>) -> Option<Seq<char>>
    decreases segs.len(),
{
    if segs.len() == 0 {
        None
    } else {
        let l = segs.last();
        if l.len() == 0 || is_dot(l) {
            last_normal(segs.drop_last())
        } else if is_dot_dot(l) {
            None
        } else {
            Some(l)
        }
    }
}

/// `Path::file_name`.
pub open spec fn file_name_spec(p: Seq<char>) -> Option<Seq<char>> {
    last_normal(split_char_spec(p, '/'))
}

/// `Path::file_stem` of a file name: the part before its last `.`, unless that `.`
/// is the first character or there is none.
pub open spec fn stem_of(name: Seq<char>) -> Seq<char> {
    match last_index(name, '.') {
        Some(i) => if i == 0 {
            name
        } else {
            name.take(i)
        },
        None => name,
    }
}

/// `Path::extension` of a file name.
pub open spec fn extension_of(name: Seq<char>) -> Option<Seq<char>> {
    match last_index(name, '.') {
        Some(i) => if i == 0 {
            None
        } else {
            Some(name.skip(i + 1))
        },
        None => None,
    }
}

pub open spec fn file_stem_spec(p: Seq<char>) -> Option<Seq<char>> {
    match file_name_spec(p) {
        Some(n) => Some(stem_of(n)),
        None => None,
    }
}

pub open spec fn extension_spec(p: Seq<char>) -> Option<Seq<char>> {
    match file_name_spec(p) {
        Some(n) => extension_of(n),
        None => None,
    }
}

/// `Path::new(p).file_name()`.
pub fn file_name(p: &[char]) -> (r: Option<Vec<char>>)
    ensures
        match file_name_spec(p@) {
            Some(n) => r matches Some(v) && v@ == n,
            None => r is None,
        },
{
    let segs = split_char(p, '/');
    let ghost all = views(segs@);
    let mut k: usize = segs.len();
    assert(all.take(k as int) =~= all);
    while k > 0
        invariant
            k <= segs.len(),
            all == views(segs@),
            all == split_char_spec(p@, '/'),
            last_normal(all) == last_normal(all.take(k as int)),
        decreases k,
    {
        let l = &segs[k - 1];
        proof {
            assert(all.take(k as int).last() == l@);
            assert(all.take(k as int).drop_last() =~= all.take(k - 1));
        }
        if l.len() == 0 || (l.len() == 1 && l[0] == '.') {
            k = k - 1;
        } else if l.len() == 2 && l[0] == '.' && l[1] == '.' {
            return None;
        } else {
            let v = slice_to_vec(l.as_slice(), 0, l.len());
            assert(v@ =~= l@);
            return Some(v);
        }
    }
    assert(all.take(segs@.len() as int) =~= all);
    None
}

pub fn stem_of_name(name: &[char]) -> (r: Vec<char>)
    ensures
        r@ == stem_of(name@),
{
    match rfind_char(name, '.') {
        Some(i) => {
            if i == 0 {
                let v = slice_to_vec(name, 0, name.len());
                assert(v@ =~= name@);
                v
            } else {
                let v = slice_to_vec(name, 0, i);
                assert(v@ =~= name@.take(i as int));
                v
            }
        },
        None => {
            let v = slice_to_vec(name, 0, name.len());
            assert(v@ =~= name@);
            v
        },
    }
}

/// `Path::new(p).file_stem()`.
pub fn file_stem(p: &[char]) -> (r: Option<Vec<char>>)
    ensures
        match file_stem_spec(p@) {
            Some(n) => r matches Some(v) && v@ == n,
            None => r is None,
        },
{
    match file_name(p) {
        Some(n) => Some(stem_of_name(n.as_slice())),
        None => None,
    }
}

/// `Path::new(p).extension()`.
pub fn extension(p: &[char]) -> (r: Option<Vec<char>>)
    ensures
        match extension_spec(p@) {
            Some(n) => r matches Some(v) && v@ == n,
            None => r is None,
        },
{
    match file_name(p) {
        Some(n) => match rfind_char(n.as_slice(), '.') {
            Some(i) => {
                if i == 0 {
                    None
                } else {
                    let v = slice_to_vec(n.as_slice(), i + 1, n.len());
                    assert(v@ =~= n@.skip(i + 1));
                    Some(v)
                }
            },
            None => None,
        },
        None => None,
    }
}


/// `PathBuf::join`: an absolute `p` replaces `base`; otherwise `p` is appended, with a
/// `/` between them when `base` is not empty and does not end in one.
pub open spec fn path_join_spec(base: Seq<char>, p: Seq<char>) -> Seq<char> {
    if p.len() > 0 && p[0] == '/' {
        p
    } else if base.len() == 0 {
        p
    } else if base.last() == '/' {
        base + p
    } else {
        base + seq!['/'] + p
    }
}

pub fn path_join(base: &str, p: &str) -> (r: String)
    ensures
        r@ == path_join_spec(base@, p@),
{
    let bc = chars_of(base);
    let pc = chars_of(p);
    if pc.len() > 0 && pc[0] == '/' {
        return p.to_owned();
    }
    if bc.len() == 0 {
        return p.to_owned();
    }
    let mut out = bc;
    if out[out.len() - 1] != '/' {
        out.push('/');
    }
    push_all(&mut out, pc.as_slice());
    string_of(out.as_slice())
}

/// Components other than the root, `.` (except a leading one) and empty pieces, as
/// `Path::components` yields them.
pub open spec fn normal_parts(segs: Seq<Seq<char>>) -> Seq<Seq<char>>
    decreases segs.len(),
{
    if segs.len() == 0 {
        Seq::empty()
    } else if segs.last().len() == 0 || is_dot(segs.last()) {
        normal_parts(segs.drop_last())
    } else {
        normal_parts(segs.drop_last()).push(segs.last())
    }
}

/// A relative path that starts with the current directory `.`.
pub open spec fn leading_cur_dir(p: Seq<char>) -> bool {
    p.len() > 0 && p[0] == '.' && (p.len() == 1 || p[1] == '/')
}

/// `Path == Path`: the same components (root, leading `.`, and the other parts).
pub open spec fn path_eq_spec(a: Seq<char>, b: Seq<char>) -> bool {
    (a.len() > 0 && a[0] == '/') == (b.len() > 0 && b[0] == '/') && leading_cur_dir(a)
        == leading_cur_dir(b) && normal_parts(split_char_spec(a, '/')) == normal_parts(
        split_char_spec(b, '/'),
    )
}

fn normal_parts_of(p: &[char]) -> (r: Vec<Vec<char>>)
    ensures
        views(r@) == normal_parts(split_char_spec(p@, '/')),
{
    let segs = split_char(p, '/');
    let ghost sv = views(segs@);
    let mut out: Vec<Vec<char>> = Vec::new();
    let mut i: usize = 0;
    while i < segs.len()
        invariant
            i <= segs.len(),
            sv == views(segs@),
            views(out@) == normal_parts(sv.take(i as int)),
        decreases segs.len() - i,
    {
        let s = segs[i].as_slice();
        proof {
            assert(sv.take(i + 1).drop_last() =~= sv.take(i as int));
            assert(sv.take(i + 1).last() == s@);
        }
        if !(s.len() == 0 || (s.len() == 1 && s[0] == '.')) {
            let c = slice_to_vec(s, 0, s.len());
            assert(c@ =~= s@);
            out.push(c);
            assert(views(out@) =~= normal_parts(sv.take(i as int)).push(s@));
        }
        i = i + 1;
    }
    assert(sv.take(segs@.len() as int) =~= sv);
    out
}

fn parts_eq(a: &Vec<Vec<char>>, b: &Vec<Vec<char>>) -> (r: bool)
    ensures
        r == (views(a@) == views(b@)),
{
    if a.len() != b.len() {
        assert(views(a@).len() != views(b@).len());
        return false;
    }
    let mut i: usize = 0;
    while i < a.len()
        invariant
            i <= a.len(),
            a.len() == b.len(),
            forall|j: int| 0 <= j < i ==> a@[j]@ == b@[j]@,
        decreases a.len() - i,
    {
        if !seq_eq(a[i].as_slice(), b[i].as_slice()) {
            assert(views(a@)[i as int] != views(b@)[i as int]);
            return false;
        }
        i = i + 1;
    }
    assert(views(a@) =~= views(b@));
    true
}

/// `Path::new(a) == Path::new(b)`.
pub fn path_eq(a: &str, b: &str) -> (r: bool)
    ensures
        r == path_eq_spec(a@, b@),
{
    let ac = chars_of(a);
    let bc = chars_of(b);
    let a_root = ac.len() > 0 && ac[0] == '/';
    let b_root = bc.len() > 0 && bc[0] == '/';
    let a_cur = ac.len() > 0 && ac[0] == '.' && (ac.len() == 1 || ac[1] == '/');
    let b_cur = bc.len() > 0 && bc[0] == '.' && (bc.len() == 1 || bc[1] == '/');
    if a_root != b_root || a_cur != b_cur {
        return false;
    }
    let ap = normal_parts_of(ac.as_slice());
    let bp = normal_parts_of(bc.as_slice());
    parts_eq(&ap, &bp)
}

} // verus!
