//! Maintenance scripts: what a script directory offers and how scripts are listed.
use vstd::prelude::*;
use crate::text::{ascii_lower, chars_of, contains_spec, to_lowercase, unicode_lowercase, eq_str, lex_le, lex_le_exec, seq_eq, string_of, to_ascii_lowercase};
use crate::paths::{extension, extension_spec, path_join, path_join_spec};
use crate::script::metadata::{ScriptMetadata};

pub mod duplicate;
pub mod executor;
pub mod metadata;

verus! {

pub struct Script {
    pub id: String,
    pub name: String,
    pub description: String,
    pub feature: String,
    pub example: String,
    pub path: String,
    pub metadata: Option<ScriptMetadata>,
    pub modified: Option<String>,
    pub category: String,
    pub user_managed: bool,
}

/// `s` (sorted by name) with `x` placed after every script whose name is not greater.
pub open spec fn insert_by_name(s: Seq<Script>, x: Script) -> Seq<Script>
    decreases s.len(),
{
    if s.len() == 0 {
        seq![x]
    } else if lex_le(s.last().name@, x.name@) {
        s.push(x)
    } else {
        insert_by_name(s.drop_last(), x).push(s.last())
    }
}

/// A stable sort by name, as `sort_by(|a, b| a.name.cmp(&b.name))` gives.
pub open spec fn sort_by_name(s: Seq<Script>) -> Seq<Script>
    decreases s.len(),
{
    if s.len() == 0 {
        Seq::empty()
    } else {
        insert_by_name(sort_by_name(s.drop_last()), s.last())
    }
}

proof fn lemma_insert_split(s: Seq<Script>, x: Script, k: int)
    requires
        0 <= k <= s.len(),
        forall|j: int| k <= j < s.len() ==> !lex_le(#[trigger] s[j].name@, x.name@),
    ensures
        insert_by_name(s, x) == insert_by_name(s.take(k), x) + s.skip(k),
    decreases s.len() - k,
{
    if k < s.len() {
        lemma_insert_split(s.drop_last(), x, k);
        assert(s.drop_last().take(k) =~= s.take(k));
        assert(s.drop_last().skip(k).push(s.last()) =~= s.skip(k));
    } else {
        assert(s.take(k) =~= s);
        assert(s.skip(k) =~= Seq::<Script>::empty());
    }
}

fn insert_sorted(v: &mut Vec<Script>, x: Script)
    ensures
        final(v)@ == insert_by_name(old(v)@, x),
{
    let xn = chars_of(x.name.as_str());
    let mut k: usize = v.len();
    while k > 0
        invariant
            k <= v.len(),
            v@ == old(v)@,
            xn@ == x.name@,
            forall|j: int| k <= j < v.len() ==> !lex_le(#[trigger] v@[j].name@, x.name@),
        ensures
            k <= v.len(),
            v@ == old(v)@,
            forall|j: int| k <= j < v.len() ==> !lex_le(#[trigger] v@[j].name@, x.name@),
            k == 0 || lex_le(v@[k - 1].name@, x.name@),
        decreases k,
    {
        let en = chars_of(v[k - 1].name.as_str());
        if lex_le_exec(en.as_slice(), xn.as_slice()) {
            break;
        }
        k = k - 1;
    }
    proof {
        lemma_insert_split(v@, x, k as int);
        if k > 0 {
            assert(v@.take(k as int).last() == v@[k - 1]);
        }
    }
    let ghost before = v@;
    v.insert(k, x);
    assert(v@ =~= before.take(k as int).push(x) + before.skip(k as int));
}

/// What one script directory offers, in directory listing order.
pub struct ScriptDir {
    pub dir_name: String,
    pub script_path: Option<String>,
    pub metadata: Option<ScriptMetadata>,
    pub modified: Option<String>,
}

/// Whether `s` is the script that directory `d` with script file `path` gives: the
/// metadata's fields where there is metadata, else the directory name, `无描述`,
/// `未分类` and empty feature and example text.
pub open spec fn script_from(d: ScriptDir, s: Script) -> bool {
    &&& d.script_path matches Some(p) && s.path@ == p@
    &&& s.id@ == d.dir_name@
    &&& s.metadata == d.metadata
    &&& s.modified == d.modified
    &&& !s.user_managed
    &&& match d.metadata {
        Some(m) => {
            &&& s.name@ == m.name@
            &&& s.description@ == m.description@
            &&& s.category@ == m.category@
            &&& s.feature@ == m.feature@
            &&& s.example@ == m.example@
        },
        None => {
            &&& s.name@ == d.dir_name@
            &&& s.description@ == "无描述"@
            &&& s.category@ == "未分类"@
            &&& s.feature@ == Seq::<char>::empty()
            &&& s.example@ == Seq::<char>::empty()
        },
    }
}

/// Whether no entry before position `i` has the same directory name as entry `i`.
pub open spec fn first_of_name(entries: Seq<ScriptDir>, i: int) -> bool {
    forall|j: int| 0 <= j < i ==> #[trigger] entries[j].dir_name@ != entries[i].dir_name@
}

/// The entries that give a script: the first entry of each directory name (a later
/// directory of a name already seen is skipped even where the first had no script
/// file), and of those the ones with a script file, in order.
pub open spec fn kept_dirs(entries: Seq<ScriptDir>) -> Seq<ScriptDir>
    decreases entries.len(),
{
    if entries.len() == 0 {
        Seq::empty()
    } else {
        let k = kept_dirs(entries.drop_last());
        let i = entries.len() - 1;
        if first_of_name(entries, i) && entries[i].script_path is Some {
            k.push(entries[i])
        } else {
            k
        }
    }
}

fn script_for(d: ScriptDir) -> (s: Script)
    requires
        d.script_path is Some,
    ensures
        script_from(d, s),
{
    let path = match d.script_path {
        Some(p) => p,
        None => String::new(),
    };
    let (name, description, category, feature, example) = match &d.metadata {
        Some(m) => (m.name.clone(), m.description.clone(), m.category.clone(), m.feature.clone(), m.example.clone()),
        None => (d.dir_name.clone(), "无描述".to_owned(), "未分类".to_owned(), String::new(), String::new()),
    };
    Script {
        id: d.dir_name,
        name,
        description,
        feature,
        example,
        path,
        metadata: d.metadata,
        modified: d.modified,
        category,
        user_managed: false,
    }
}

fn name_seen(seen: &Vec<Vec<char>>, name: &[char]) -> (r: bool)
    ensures
        r == exists|j: int| 0 <= j < seen@.len() && #[trigger] seen@[j]@ == name@,
{
    let mut j: usize = 0;
    while j < seen.len()
        invariant
            j <= seen@.len(),
            forall|k: int| 0 <= k < j ==> #[trigger] seen@[k]@ != name@,
        decreases seen.len() - j,
    {
        if crate::text::seq_eq(seen[j].as_slice(), name) {
            return true;
        }
        j = j + 1;
    }
    false
}

/// Lists the scripts of the script directories, given as the entries of each
/// directory in turn: a directory name met again later is skipped, entries
/// without a script file give nothing, and the list is sorted by name (stably).
pub fn discover_scripts(entries: Vec<ScriptDir>) -> (r: Vec<Script>)
    ensures
        exists|u: Seq<Script>|
            {
                &&& u.len() == kept_dirs(entries@).len()
                &&& forall|i: int| 0 <= i < u.len() ==> script_from(#[trigger] kept_dirs(entries@)[i], u[i])
                &&& r@ == sort_by_name(u)
            },
        listed_by_discovery(entries@, r@),
{
    let ghost all = entries@;
    let n: usize = entries.len();
    let mut seen: Vec<Vec<char>> = Vec::new();
    let mut sorted: Vec<Script> = Vec::new();
    let ghost mut u: Seq<Script> = Seq::empty();
    let mut i: usize = 0;
    let mut rest = entries;
    assert(kept_dirs(all.take(0)) =~= Seq::<ScriptDir>::empty());
    while rest.len() > 0
        invariant
            i + rest@.len() == all.len(),
            all.len() == n,
            rest@ =~= all.skip(i as int),
            seen@.len() == i,
            forall|k: int| 0 <= k < i ==> #[trigger] seen@[k]@ == all[k].dir_name@,
            u.len() == kept_dirs(all.take(i as int)).len(),
            forall|k: int| 0 <= k < u.len() ==> script_from(#[trigger] kept_dirs(all.take(i as int))[k], u[k]),
            sorted@ == sort_by_name(u),
        decreases rest@.len(),
    {
        let d = rest.remove(0);
        proof {
            assert(d == all[i as int]);
        }
        let name = chars_of(d.dir_name.as_str());
        let dup = name_seen(&seen, name.as_slice());
        let ghost t = all.take(i + 1);
        proof {
            assert(t.drop_last() =~= all.take(i as int));
            assert(t[i as int] == all[i as int]);
            if dup {
                let j = choose|j: int| 0 <= j < seen@.len() && #[trigger] seen@[j]@ == name@;
                assert(t[j] == all[j]);
                assert(!first_of_name(t, i as int));
            } else {
                assert forall|j: int| 0 <= j < i implies #[trigger] t[j].dir_name@ != t[i as int].dir_name@ by {
                    assert(t[j] == all[j]);
                    assert(seen@[j]@ != name@);
                }
                assert(first_of_name(t, i as int));
            }
        }
        seen.push(name);
        if !dup && d.script_path.is_some() {
            let s = script_for(d);
            let ghost old_u = u;
            proof {
                u = u.push(s);
                assert(u.drop_last() =~= old_u);
            }
            insert_sorted(&mut sorted, s);
        }
        i = i + 1;
        proof {
            assert(all.skip(i as int) =~= all.skip(i - 1).drop_first());
        }
    }
    assert(all.take(i as int) =~= all);
    sorted
}

/// The first script of the list whose identifier is `id`.
pub open spec fn first_with_id(l: Seq<Script>, id: Seq<char>) -> Option<Script>
    decreases l.len(),
{
    if l.len() == 0 {
        None
    } else if l[0].id@ == id {
        Some(l[0])
    } else {
        first_with_id(l.drop_first(), id)
    }
}

/// Whether `l` is a listing that discovery gives for the directory entries: the
/// scripts of the kept directories, sorted by name.
pub open spec fn listed_by_discovery(entries: Seq<ScriptDir>, l: Seq<Script>) -> bool {
    exists|u: Seq<Script>|
        {
            &&& u.len() == kept_dirs(entries).len()
            &&& forall|i: int| 0 <= i < u.len() ==> script_from(#[trigger] kept_dirs(entries)[i], u[i])
            &&& l == sort_by_name(u)
        }
}

/// The first listed script whose identifier is `id`.
pub fn find_script(scripts: Vec<Script>, id: &str) -> (r: Option<Script>)
    ensures
        match r {
            Some(s) => exists|k: int|
                #![trigger scripts@[k]]
                0 <= k < scripts@.len() && s == scripts@[k] && s.id@ == id@
                    && forall|j: int| 0 <= j < k ==> (#[trigger] scripts@[j]).id@ != id@,
            None => forall|j: int| 0 <= j < scripts@.len() ==> (#[trigger] scripts@[j]).id@ != id@,
        },
        r == first_with_id(scripts@, id@),
{
    let ghost all = scripts@;
    let n: usize = scripts.len();
    let target = chars_of(id);
    let mut rest = scripts;
    let mut i: usize = 0;
    while rest.len() > 0
        invariant
            i + rest@.len() == all.len(),
            all.len() == n,
            all == scripts@,
            rest@ =~= all.skip(i as int),
            target@ == id@,
            forall|j: int| 0 <= j < i ==> (#[trigger] all[j]).id@ != id@,
            first_with_id(all, id@) == first_with_id(rest@, id@),
        decreases rest@.len(),
    {
        let ghost before = rest@;
        let s = rest.remove(0);
        assert(before.drop_first() =~= rest@);
        assert(s == all[i as int]);
        let sid = chars_of(s.id.as_str());
        if crate::text::seq_eq(sid.as_slice(), target.as_slice()) {
            assert(0 <= i < all.len() && s == all[i as int] && s.id@ == id@);
            assert(exists|k: int|
                #![trigger all[k]]
                0 <= k < all.len() && s == all[k] && s.id@ == id@
                    && forall|j: int| 0 <= j < k ==> (#[trigger] all[j]).id@ != id@);
            return Some(s);
        }
        i = i + 1;
        assert(all.skip(i as int) =~= all.skip(i - 1).drop_first());
    }
    None
}

proof fn lemma_push_contains(s: Seq<Script>, x: Script, y: Script)
    ensures
        s.push(x).contains(y) <==> (s.contains(y) || y == x),
{
    if s.contains(y) {
        let k = choose|k: int| 0 <= k < s.len() && s[k] == y;
        assert(s.push(x)[k] == y);
    }
    if y == x {
        assert(s.push(x)[s.len() as int] == x);
    }
    if s.push(x).contains(y) && y != x {
        let k = choose|k: int| 0 <= k < s.len() + 1 && s.push(x)[k] == y;
        assert(k < s.len());
        assert(s[k] == y);
    }
}

proof fn lemma_insert_contains(s: Seq<Script>, x: Script, y: Script)
    ensures
        insert_by_name(s, x).contains(y) <==> (s.contains(y) || y == x),
    decreases s.len(),
{
    if s.len() == 0 {
        lemma_push_contains(s, x, y);
        assert(s.push(x) =~= seq![x]);
    } else if lex_le(s.last().name@, x.name@) {
        lemma_push_contains(s, x, y);
    } else {
        let t = insert_by_name(s.drop_last(), x);
        lemma_insert_contains(s.drop_last(), x, y);
        lemma_push_contains(t, s.last(), y);
        lemma_push_contains(s.drop_last(), s.last(), y);
        assert(s.drop_last().push(s.last()) =~= s);
    }
}

/// Sorting by name keeps exactly the scripts it was given.
pub proof fn lemma_sort_contains(u: Seq<Script>, y: Script)
    ensures
        sort_by_name(u).contains(y) <==> u.contains(y),
    decreases u.len(),
{
    if u.len() > 0 {
        lemma_sort_contains(u.drop_last(), y);
        lemma_insert_contains(sort_by_name(u.drop_last()), u.last(), y);
        if u.contains(y) && y != u.last() {
            let k = choose|k: int| 0 <= k < u.len() && u[k] == y;
            assert(u.drop_last()[k] == y);
        }
        if u.drop_last().contains(y) {
            let k = choose|k: int| 0 <= k < u.len() - 1 && u.drop_last()[k] == y;
            assert(u[k] == y);
        }
        assert(u[u.len() - 1] == u.last());
    }
}

/// Finding a script among the script directories: the result is the first script
/// with the identifier in the listing that discovery gives for the same entries
/// (`listed_by_discovery`, the relation that `discover_scripts` states of its result). It is the script of a directory of that name that discovery keeps,
/// and there is none exactly when no kept directory has that name.
pub fn find_script_in(entries: Vec<ScriptDir>, id: &str) -> (r: Option<Script>)
    ensures
        exists|u: Seq<Script>|
            #![trigger sort_by_name(u)]
            {
                &&& u.len() == kept_dirs(entries@).len()
                &&& forall|i: int| 0 <= i < u.len() ==> script_from(#[trigger] kept_dirs(entries@)[i], u[i])
                &&& match r {
                    Some(s) => exists|k: int|
                        #![trigger sort_by_name(u)[k]]
                        0 <= k < sort_by_name(u).len() && s == sort_by_name(u)[k] && s.id@ == id@ && forall|j: int|
                            0 <= j < k ==> (#[trigger] sort_by_name(u)[j]).id@ != id@,
                    None => forall|j: int|
                        0 <= j < sort_by_name(u).len() ==> (#[trigger] sort_by_name(u)[j]).id@ != id@,
                }
            },
        match r {
            Some(s) => exists|k: int|
                0 <= k < kept_dirs(entries@).len() && #[trigger] kept_dirs(entries@)[k].dir_name@ == id@
                    && script_from(kept_dirs(entries@)[k], s),
            None => forall|k: int|
                0 <= k < kept_dirs(entries@).len() ==> #[trigger] kept_dirs(entries@)[k].dir_name@ != id@,
        },
        exists|l: Seq<Script>| #[trigger] listed_by_discovery(entries@, l) && r == first_with_id(l, id@),
{
    let ghost kept = kept_dirs(entries@);
    let scripts = discover_scripts(entries);
    let ghost u = choose|u: Seq<Script>|
        {
            &&& u.len() == kept.len()
            &&& forall|i: int| 0 <= i < u.len() ==> script_from(#[trigger] kept[i], u[i])
            &&& scripts@ == sort_by_name(u)
        };
    let ghost listing = scripts@;
    let r = find_script(scripts, id);
    assert(listed_by_discovery(entries@, listing) && r == first_with_id(listing, id@));
    let ghost rg = r;
    proof {
        match rg {
            Some(s0) => {
                let s = s0;
                let k = choose|k: int|
                    #![trigger scripts@[k]]
                    0 <= k < scripts@.len() && s == scripts@[k] && s.id@ == id@
                        && forall|j: int| 0 <= j < k ==> (#[trigger] scripts@[j]).id@ != id@;
                assert(sort_by_name(u).contains(s));
                lemma_sort_contains(u, s);
                let m = choose|m: int| 0 <= m < u.len() && u[m] == s;
                assert(script_from(kept[m], u[m]));
                assert(kept[m].dir_name@ == id@);
            },
            None => {
                assert forall|k: int| 0 <= k < kept.len() implies #[trigger] kept[k].dir_name@ != id@ by {
                    assert(script_from(kept[k], u[k]));
                    assert(u.contains(u[k]));
                    lemma_sort_contains(u, u[k]);
                    let j = choose|j: int| 0 <= j < sort_by_name(u).len() && sort_by_name(u)[j] == u[k];
                    assert(scripts@[j] == u[k]);
                }
            },
        }
    }
    r
}

/// The extensions that mark a script file, compared in ASCII lowercase.
pub open spec fn script_extension(e: Seq<char>) -> bool {
    let l = ascii_lower(e);
    ||| l == "sh"@
    ||| l == "bash"@
    ||| l == "zsh"@
    ||| l == "ksh"@
    ||| l == "py"@
    ||| l == "python"@
    ||| l == "js"@
    ||| l == "mjs"@
    ||| l == "pl"@
    ||| l == "perl"@
    ||| l == "rb"@
    ||| l == "lua"@
    ||| l == "php"@
    ||| l == "awk"@
    ||| l == "expect"@
    ||| l == "exp"@
    ||| l == "run"@
    ||| l == "bin"@
}

fn is_script_extension(e: &[char]) -> (r: bool)
    ensures
        r == script_extension(e@),
{
    let l = to_ascii_lowercase(e);
    let x = l.as_slice();
    eq_str(x, "sh") || eq_str(x, "bash") || eq_str(x, "zsh") || eq_str(x, "ksh") || eq_str(x, "py")
        || eq_str(x, "python") || eq_str(x, "js") || eq_str(x, "mjs") || eq_str(x, "pl")
        || eq_str(x, "perl") || eq_str(x, "rb") || eq_str(x, "lua") || eq_str(x, "php")
        || eq_str(x, "awk") || eq_str(x, "expect") || eq_str(x, "exp") || eq_str(x, "run")
        || eq_str(x, "bin")
}

/// The position of the entry of directory `dir` that the extension scan picks, from
/// position `i` on: entries that are not files are passed over, the first file with
/// a script extension is picked, and a file without an extension ends the scan with
/// nothing picked.
pub open spec fn extension_pick(dir: Seq<char>, entries: Seq<(String, bool)>, i: int) -> Option<int>
    decreases entries.len() - i,
{
    if i < 0 || i >= entries.len() {
        None
    } else if !entries[i].1 {
        extension_pick(dir, entries, i + 1)
    } else {
        match extension_spec(path_join_spec(dir, entries[i].0@)) {
            None => None,
            Some(e) => if script_extension(e) {
                Some(i)
            } else {
                extension_pick(dir, entries, i + 1)
            },
        }
    }
}

/// The script file of directory `dir` named `dir_name`: `<dir_name>.sh` where it
/// exists, else the file that the extension scan picks, else a file named like the
/// directory.
pub open spec fn script_file_spec(
    dir: Seq<char>,
    dir_name: Seq<char>,
    sh_exists: bool,
    entries: Seq<(String, bool)>,
    same_name_is_file: bool,
) -> Option<Seq<char>> {
    if sh_exists {
        Some(path_join_spec(dir, dir_name + ".sh"@))
    } else {
        match extension_pick(dir, entries, 0) {
            Some(i) => Some(path_join_spec(dir, entries[i].0@)),
            None => if same_name_is_file {
                Some(path_join_spec(dir, dir_name))
            } else {
                None
            },
        }
    }
}

/// Picks the script file of directory `dir` named `dir_name`, given whether
/// `<dir_name>.sh` exists there, its entries in listing order (file name, whether
/// it is a file) and whether an entry named like the directory is a file.
pub fn choose_script_file(
    dir: &str,
    dir_name: &str,
    sh_exists: bool,
    entries: &Vec<(String, bool)>,
    same_name_is_file: bool,
) -> (r: Option<String>)
    ensures
        match script_file_spec(dir@, dir_name@, sh_exists, entries@, same_name_is_file) {
            Some(p) => r matches Some(s) && s@ == p,
            None => r is None,
        },
{
    if sh_exists {
        let mut n = chars_of(dir_name);
        crate::text::push_str(&mut n, ".sh");
        let name = string_of(n.as_slice());
        return Some(path_join(dir, name.as_str()));
    }
    let mut picked: Option<usize> = None;
    let mut i: usize = 0;
    while i < entries.len()
        invariant_except_break
            i <= entries@.len(),
            picked is None,
            extension_pick(dir@, entries@, 0) == extension_pick(dir@, entries@, i as int),
        ensures
            match picked {
                Some(k) => extension_pick(dir@, entries@, 0) == Some(k as int) && k < entries@.len(),
                None => extension_pick(dir@, entries@, 0) is None,
            },
        decreases entries.len() - i,
    {
        if !entries[i].1 {
            i = i + 1;
            continue;
        }
        let p = path_join(dir, entries[i].0.as_str());
        let pc = chars_of(p.as_str());
        match extension(pc.as_slice()) {
            None => {
                break;
            },
            Some(e) => {
                if is_script_extension(e.as_slice()) {
                    picked = Some(i);
                    break;
                }
            },
        }
        i = i + 1;
    }
    match picked {
        Some(k) => Some(path_join(dir, entries[k].0.as_str())),
        None => if same_name_is_file {
            Some(path_join(dir, dir_name))
        } else {
            None
        },
    }
}

/// Whether `text` lowercased holds `q` (already lowercased).
pub open spec fn mentions(text: Seq<char>, q: Seq<char>) -> bool {
    contains_spec(unicode_lowercase(text), q)
}

/// Whether a script is listed for a search (matched lowercased against its name,
/// description, identifier, feature and category) and a category (matched exactly).
pub open spec fn script_listed(s: Script, search: Option<Seq<char>>, category: Option<Seq<char>>) -> bool {
    (match search {
        Some(q) => {
            let l = unicode_lowercase(q);
            mentions(s.name@, l) || mentions(s.description@, l) || mentions(s.id@, l) || mentions(s.feature@, l)
                || mentions(s.category@, l)
        },
        None => true,
    }) && (match category {
        Some(c) => s.category@ == c,
        None => true,
    })
}

fn mentions_exec(text: &str, q: &[char]) -> (r: bool)
    ensures
        r == mentions(text@, q@),
{
    let tc = chars_of(text);
    let l = to_lowercase(tc.as_slice());
    crate::text::contains(l.as_slice(), q)
}

pub fn script_matches(s: &Script, search: Option<&str>, category: Option<&str>) -> (r: bool)
    ensures
        r == script_listed(
            *s,
            match search {
                Some(q) => Some(q@),
                None => None,
            },
            match category {
                Some(c) => Some(c@),
                None => None,
            },
        ),
{
    let by_search = match search {
        Some(q) => {
            let qc = chars_of(q);
            let l = to_lowercase(qc.as_slice());
            let ls = l.as_slice();
            mentions_exec(s.name.as_str(), ls) || mentions_exec(s.description.as_str(), ls) || mentions_exec(
                s.id.as_str(),
                ls,
            ) || mentions_exec(s.feature.as_str(), ls) || mentions_exec(s.category.as_str(), ls)
        },
        None => true,
    };
    let by_category = match category {
        Some(c) => {
            let a = chars_of(s.category.as_str());
            let b = chars_of(c);
            seq_eq(a.as_slice(), b.as_slice())
        },
        None => true,
    };
    by_search && by_category
}

/// The arguments that a script is run with: its arguments, then each parameter,
/// `KEY=VALUE` written as `--KEY=VALUE`.
pub fn script_arguments(args: &Vec<String>, params: &Vec<String>) -> (r: Vec<String>)
    ensures
        r@.len() == args@.len() + params@.len(),
        forall|i: int| 0 <= i < args@.len() ==> #[trigger] r@[i]@ == args@[i]@,
        forall|j: int|
            0 <= j < params@.len() ==> #[trigger] r@[args@.len() + j]@ == (if contains_spec(params@[j]@, "="@) {
                "--"@ + params@[j]@
            } else {
                params@[j]@
            }),
{
    let mut out: Vec<String> = Vec::new();
    let mut i: usize = 0;
    while i < args.len()
        invariant
            i <= args@.len(),
            out@.len() == i,
            forall|k: int| 0 <= k < i ==> #[trigger] out@[k]@ == args@[k]@,
        decreases args.len() - i,
    {
        out.push(args[i].clone());
        i = i + 1;
    }
    let mut j: usize = 0;
    while j < params.len()
        invariant
            j <= params@.len(),
            out@.len() == args@.len() + j,
            forall|k: int| 0 <= k < args@.len() ==> #[trigger] out@[k]@ == args@[k]@,
            forall|k: int|
                0 <= k < j ==> #[trigger] out@[args@.len() + k]@ == (if contains_spec(params@[k]@, "="@) {
                    "--"@ + params@[k]@
                } else {
                    params@[k]@
                }),
        decreases params.len() - j,
    {
        let pc = chars_of(params[j].as_str());
        if crate::text::contains_str(pc.as_slice(), "=") {
            let mut t = chars_of("--");
            crate::text::push_str(&mut t, params[j].as_str());
            out.push(string_of(t.as_slice()));
        } else {
            out.push(params[j].clone());
        }
        assert(out@[args@.len() + j] == out@.last());
        j = j + 1;
    }
    out
}

} // verus!
