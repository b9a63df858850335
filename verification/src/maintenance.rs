//! Maintenance records: listing newest first, lookup, edits, completion and removal,
//! over the records in the order the record file holds them.
use vstd::prelude::*;
use crate::text::{chars_of, contains, dec_spec, eq_str, lemma_lex_le_total, lemma_lex_le_trans, lex_le, lex_le_exec, opt_str_view, push_dec, push_str, seq_eq, string_of};

verus! {

#[derive(Debug)]
pub struct MaintenanceRecord {
    pub id: String,
    pub title: String,
    pub description: String,
    pub category: String,
    pub operator: String,
    pub timestamp: String,
    pub status: String,
    pub result: String,
}

/// A record's fields as text.
pub struct RecordView {
    pub id: Seq<char>,
    pub title: Seq<char>,
    pub description: Seq<char>,
    pub category: Seq<char>,
    pub operator: Seq<char>,
    pub timestamp: Seq<char>,
    pub status: Seq<char>,
    pub result: Seq<char>,
}

impl View for MaintenanceRecord {
    type V = RecordView;

    open spec fn view(&self) -> RecordView {
        RecordView {
            id: self.id@,
            title: self.title@,
            description: self.description@,
            category: self.category@,
            operator: self.operator@,
            timestamp: self.timestamp@,
            status: self.status@,
            result: self.result@,
        }
    }
}

// ---------------------------------------------------------------------------
// Listing
// ---------------------------------------------------------------------------

/// The records of category `cat` (all records when no category is given), in order.
pub open spec fn in_category(s: Seq<MaintenanceRecord>, cat: Option<Seq<char>>) -> Seq<MaintenanceRecord>
    decreases s.len(),
{
    if s.len() == 0 {
        s
    } else {
        let k = in_category(s.drop_last(), cat);
        let keep = match cat {
            Some(c) => s.last().category@ == c,
            None => true,
        };
        if keep {
            k.push(s.last())
        } else {
            k
        }
    }
}

/// `s` (newest first) with `x` placed after every record whose timestamp is not older.
pub open spec fn insert_newest_first(s: Seq<MaintenanceRecord>, x: MaintenanceRecord) -> Seq<MaintenanceRecord>
    decreases s.len(),
{
    if s.len() == 0 {
        seq![x]
    } else if lex_le(x.timestamp@, s.last().timestamp@) {
        s.push(x)
    } else {
        insert_newest_first(s.drop_last(), x).push(s.last())
    }
}

/// A stable sort by timestamp, newest first, as
/// `sort_by(|a, b| b.timestamp.cmp(&a.timestamp))` gives.
pub open spec fn sort_newest_first(s: Seq<MaintenanceRecord>) -> Seq<MaintenanceRecord>
    decreases s.len(),
{
    if s.len() == 0 {
        Seq::empty()
    } else {
        insert_newest_first(sort_newest_first(s.drop_last()), s.last())
    }
}

proof fn lemma_insert_split(s: Seq<MaintenanceRecord>, x: MaintenanceRecord, k: int)
    requires
        0 <= k <= s.len(),
        forall|j: int| k <= j < s.len() ==> !lex_le(x.timestamp@, #[trigger] s[j].timestamp@),
    ensures
        insert_newest_first(s, x) == insert_newest_first(s.take(k), x) + s.skip(k),
    decreases s.len() - k,
{
    if k < s.len() {
        lemma_insert_split(s.drop_last(), x, k);
        assert(s.drop_last().take(k) =~= s.take(k));
        assert(s.drop_last().skip(k).push(s.last()) =~= s.skip(k));
    } else {
        assert(s.take(k) =~= s);
        assert(s.skip(k) =~= Seq::<MaintenanceRecord>::empty());
    }
}

fn insert_newest(v: &mut Vec<MaintenanceRecord>, x: MaintenanceRecord)
    ensures
        final(v)@ == insert_newest_first(old(v)@, x),
{
    let xt = chars_of(x.timestamp.as_str());
    let mut k: usize = v.len();
    while k > 0
        invariant
            k <= v.len(),
            v@ == old(v)@,
            xt@ == x.timestamp@,
            forall|j: int| k <= j < v.len() ==> !lex_le(x.timestamp@, #[trigger] v@[j].timestamp@),
        ensures
            k <= v.len(),
            v@ == old(v)@,
            forall|j: int| k <= j < v.len() ==> !lex_le(x.timestamp@, #[trigger] v@[j].timestamp@),
            k == 0 || lex_le(x.timestamp@, v@[k - 1].timestamp@),
        decreases k,
    {
        let et = chars_of(v[k - 1].timestamp.as_str());
        if lex_le_exec(xt.as_slice(), et.as_slice()) {
            break;
        }
        k = k - 1;
    }
    proof {
        lemma_insert_split(v@, x, k as int);
        if k > 0 {
            assert(v@.take(k as int).last() == v@[k - 1]);
        }
    }
    let ghost before = v@;
    v.insert(k, x);
    assert(v@ =~= before.take(k as int).push(x) + before.skip(k as int));
}

/// The records of `category` (all of them when none is given), newest first.
pub fn list_records(records: Vec<MaintenanceRecord>, category: Option<&str>) -> (r: Vec<MaintenanceRecord>)
    ensures
        r@ == sort_newest_first(in_category(records@, opt_str_view(category))),
{
    let ghost all = records@;
    let ghost cat = opt_str_view(category);
    let n: usize = records.len();
    let cat_chars: Option<Vec<char>> = match category {
        Some(c) => Some(chars_of(c)),
        None => None,
    };
    let mut rest = records;
    let mut sorted: Vec<MaintenanceRecord> = Vec::new();
    let mut i: usize = 0;
    assert(all.take(0) =~= Seq::<MaintenanceRecord>::empty());
    while rest.len() > 0
        invariant
            i + rest@.len() == all.len(),
            all.len() == n,
            rest@ =~= all.skip(i as int),
            match cat_chars {
                Some(c) => cat == Some(c@),
                None => cat is None,
            },
            sorted@ == sort_newest_first(in_category(all.take(i as int), cat)),
        decreases rest@.len(),
    {
        let x = rest.remove(0);
        let ghost t = all.take(i + 1);
        proof {
            assert(x == all[i as int]);
            assert(t.drop_last() =~= all.take(i as int));
            assert(t.last() == x);
        }
        let keep = match &cat_chars {
            Some(c) => {
                let xc = chars_of(x.category.as_str());
                seq_eq(xc.as_slice(), c.as_slice())
            },
            None => true,
        };
        let ghost f = in_category(all.take(i as int), cat);
        proof {
            assert(keep == match cat {
                Some(c) => t.last().category@ == c,
                None => true,
            });
            if keep {
                assert(in_category(t, cat) == f.push(x));
                assert(f.push(x).drop_last() =~= f);
            } else {
                assert(in_category(t, cat) == f);
            }
        }
        if keep {
            insert_newest(&mut sorted, x);
        }
        i = i + 1;
        assert(all.skip(i as int) =~= all.skip(i - 1).drop_first());
    }
    assert(all.take(i as int) =~= all);
    sorted
}

// ---------------------------------------------------------------------------
// Lookup
// ---------------------------------------------------------------------------

pub open spec fn has_id(s: Seq<MaintenanceRecord>, id: Seq<char>) -> bool {
    exists|j: int| 0 <= j < s.len() && (#[trigger] s[j]).id@ == id
}

/// Position `k` holds the first record of `s` with identifier `id`.
pub open spec fn first_with_id(s: Seq<MaintenanceRecord>, id: Seq<char>, k: int) -> bool {
    &&& 0 <= k < s.len()
    &&& s[k].id@ == id
    &&& forall|j: int| 0 <= j < k ==> (#[trigger] s[j]).id@ != id
}

fn find_first(s: &Vec<MaintenanceRecord>, id: &[char]) -> (r: Option<usize>)
    ensures
        match r {
            Some(k) => first_with_id(s@, id@, k as int),
            None => !has_id(s@, id@),
        },
{
    let mut j: usize = 0;
    while j < s.len()
        invariant
            j <= s@.len(),
            forall|k: int| 0 <= k < j ==> (#[trigger] s@[k]).id@ != id@,
        decreases s.len() - j,
    {
        let c = chars_of(s[j].id.as_str());
        if seq_eq(c.as_slice(), id) {
            return Some(j);
        }
        j = j + 1;
    }
    None
}

/// The record with identifier `id`, looked up among all records listed newest first.
pub fn get_record(records: Vec<MaintenanceRecord>, id: &str) -> (r: Option<MaintenanceRecord>)
    ensures
        ({
            let listed = sort_newest_first(in_category(records@, None));
            match r {
                Some(x) => exists|k: int| first_with_id(listed, id@, k) && x == listed[k],
                None => !has_id(listed, id@),
            }
        }),
{
    let listed = list_records(records, None);
    let idc = chars_of(id);
    match find_first(&listed, idc.as_slice()) {
        Some(k) => {
            let ghost l = listed@;
            let mut listed = listed;
            let x = listed.swap_remove(k);
            assert(x == l[k as int]);
            Some(x)
        },
        None => None,
    }
}

// ---------------------------------------------------------------------------
// Changes
// ---------------------------------------------------------------------------

/// Text of an optional replacement: the new value where one is given, else the old.
pub open spec fn replaced(new: Option<&str>, old: Seq<char>) -> Seq<char> {
    match new {
        Some(v) => v@,
        None => old,
    }
}

/// The status a requested status stands for: `completed`, or else `open`.
pub open spec fn status_value(v: Seq<char>) -> Seq<char> {
    if v == "completed"@ {
        "completed"@
    } else {
        "open"@
    }
}

/// `n` is `o` with the given fields replaced.
pub open spec fn edited(
    o: RecordView,
    n: RecordView,
    title: Option<&str>,
    description: Option<&str>,
    category: Option<&str>,
    operator: Option<&str>,
    result: Option<&str>,
    status: Option<&str>,
) -> bool {
    &&& n.id == o.id
    &&& n.timestamp == o.timestamp
    &&& n.title == replaced(title, o.title)
    &&& n.description == replaced(description, o.description)
    &&& n.category == replaced(category, o.category)
    &&& n.operator == replaced(operator, o.operator)
    &&& n.result == replaced(result, o.result)
    &&& n.status == match status {
        Some(v) => status_value(v@),
        None => o.status,
    }
}

fn text_or(new: Option<&str>, old: &String) -> (r: String)
    ensures
        r@ == replaced(new, old@),
{
    match new {
        Some(v) => v.to_owned(),
        None => old.clone(),
    }
}

fn copy_record(r: &MaintenanceRecord) -> (c: MaintenanceRecord)
    ensures
        c@ == r@,
{
    MaintenanceRecord {
        id: r.id.clone(),
        title: r.title.clone(),
        description: r.description.clone(),
        category: r.category.clone(),
        operator: r.operator.clone(),
        timestamp: r.timestamp.clone(),
        status: r.status.clone(),
        result: r.result.clone(),
    }
}

pub open spec fn not_found_error() -> Seq<char> {
    "记录不存在"@
}

/// Edits the first record with identifier `id` and gives it back; `记录不存在`
/// when there is none, with the records unchanged.
pub fn update_record(
    records: &mut Vec<MaintenanceRecord>,
    id: &str,
    title: Option<&str>,
    description: Option<&str>,
    category: Option<&str>,
    operator: Option<&str>,
    result: Option<&str>,
    status: Option<&str>,
) -> (r: Result<MaintenanceRecord, String>)
    ensures
        r is Ok <==> has_id(old(records)@, id@),
        match r {
            Ok(x) => exists|k: int|
                #![trigger old(records)@[k]]
                first_with_id(old(records)@, id@, k) && final(records)@ == old(records)@.update(k, final(records)@[k])
                    && final(records)@[k]@ == x@ && edited(
                    old(records)@[k]@,
                    x@,
                    title,
                    description,
                    category,
                    operator,
                    result,
                    status,
                ),
            Err(e) => e@ == not_found_error() && final(records)@ == old(records)@,
        },
{
    let idc = chars_of(id);
    match find_first(records, idc.as_slice()) {
        None => Err("记录不存在".to_owned()),
        Some(k) => {
            let new_status = match status {
                Some(v) => {
                    let vc = chars_of(v);
                    if eq_str(vc.as_slice(), "completed") {
                        "completed".to_owned()
                    } else {
                        "open".to_owned()
                    }
                },
                None => records[k].status.clone(),
            };
            let o = &records[k];
            let n = MaintenanceRecord {
                id: o.id.clone(),
                title: text_or(title, &o.title),
                description: text_or(description, &o.description),
                category: text_or(category, &o.category),
                operator: text_or(operator, &o.operator),
                timestamp: o.timestamp.clone(),
                status: new_status,
                result: text_or(result, &o.result),
            };
            let copy = copy_record(&n);
            records.set(k, n);
            Ok(copy)
        },
    }
}

/// `n` is `o` after a completion toggle: a completed record opens again and keeps
/// its result; any other record is completed with result `result`.
pub open spec fn toggled(o: RecordView, n: RecordView, result: Seq<char>) -> bool {
    &&& n == (if o.status == "completed"@ {
        RecordView { status: "open"@, ..o }
    } else {
        RecordView { status: "completed"@, result: result, ..o }
    })
}

/// Toggles the completion of the first record with identifier `id`; `记录不存在`
/// when there is none, with the records unchanged.
pub fn complete_record(records: &mut Vec<MaintenanceRecord>, id: &str, result: &str) -> (r: Result<(), String>)
    ensures
        r is Ok <==> has_id(old(records)@, id@),
        match r {
            Ok(_) => exists|k: int|
                #![trigger old(records)@[k]]
                first_with_id(old(records)@, id@, k) && final(records)@ == old(records)@.update(k, final(records)@[k])
                    && toggled(old(records)@[k]@, final(records)@[k]@, result@),
            Err(e) => e@ == not_found_error() && final(records)@ == old(records)@,
        },
{
    let idc = chars_of(id);
    match find_first(records, idc.as_slice()) {
        None => Err("记录不存在".to_owned()),
        Some(k) => {
            let o = &records[k];
            let sc = chars_of(o.status.as_str());
            let was_completed = eq_str(sc.as_slice(), "completed");
            let mut n = copy_record(o);
            if was_completed {
                n.status = "open".to_owned();
            } else {
                n.status = "completed".to_owned();
                n.result = result.to_owned();
            }
            records.set(k, n);
            Ok(())
        },
    }
}

/// The records whose identifier is not `id`, in order.
pub open spec fn without_id(s: Seq<MaintenanceRecord>, id: Seq<char>) -> Seq<MaintenanceRecord>
    decreases s.len(),
{
    if s.len() == 0 {
        s
    } else if s.last().id@ == id {
        without_id(s.drop_last(), id)
    } else {
        without_id(s.drop_last(), id).push(s.last())
    }
}

/// The records left once every record with identifier `id` is removed; `记录不存在`
/// when there is none.
pub fn delete_record(records: Vec<MaintenanceRecord>, id: &str) -> (r: Result<Vec<MaintenanceRecord>, String>)
    ensures
        r is Ok <==> has_id(records@, id@),
        match r {
            Ok(v) => v@ == without_id(records@, id@),
            Err(e) => e@ == not_found_error(),
        },
{
    let ghost all = records@;
    let n: usize = records.len();
    let idc = chars_of(id);
    let mut rest = records;
    let mut kept: Vec<MaintenanceRecord> = Vec::new();
    let mut removed = false;
    let mut i: usize = 0;
    assert(all.take(0) =~= Seq::<MaintenanceRecord>::empty());
    while rest.len() > 0
        invariant
            i + rest@.len() == all.len(),
            all.len() == n,
            rest@ =~= all.skip(i as int),
            idc@ == id@,
            kept@ == without_id(all.take(i as int), id@),
            removed <==> has_id(all.take(i as int), id@),
        decreases rest@.len(),
    {
        let x = rest.remove(0);
        let ghost t = all.take(i + 1);
        proof {
            assert(x == all[i as int]);
            assert(t.drop_last() =~= all.take(i as int));
            assert(t.last() == x);
        }
        let xc = chars_of(x.id.as_str());
        if seq_eq(xc.as_slice(), idc.as_slice()) {
            removed = true;
            assert(t[i as int] == x);
        } else {
            kept.push(x);
        }
        proof {
            if !removed {
                assert forall|j: int| 0 <= j < t.len() implies (#[trigger] t[j]).id@ != id@ by {
                    if j < i {
                        assert(t[j] == all.take(i as int)[j]);
                    }
                }
            } else if !has_id(all.take(i as int), id@) {
                assert(t[i as int] == x);
            } else {
                let j = choose|j: int| 0 <= j < i && (#[trigger] all.take(i as int)[j]).id@ == id@;
                assert(t[j] == all.take(i as int)[j]);
            }
        }
        i = i + 1;
        assert(all.skip(i as int) =~= all.skip(i - 1).drop_first());
    }
    assert(all.take(i as int) =~= all);
    if removed {
        Ok(kept)
    } else {
        Err("记录不存在".to_owned())
    }
}

// ---------------------------------------------------------------------------
// New records
// ---------------------------------------------------------------------------

/// `n` as `format!("{:04}", n)` writes it: at least four digits, zero-padded.
pub open spec fn zero_pad4(n: nat) -> Seq<char> {
    if n < 10 {
        "000"@ + dec_spec(n)
    } else if n < 100 {
        "00"@ + dec_spec(n)
    } else if n < 1000 {
        "0"@ + dec_spec(n)
    } else {
        dec_spec(n)
    }
}

/// A new open record: its identifier is the compact creation time `stamp`, `-`, and
/// the milliseconds `millis` (modulo 10000) in four digits.
pub fn create_record(
    title: &str,
    description: &str,
    category: &str,
    operator: &str,
    stamp: &str,
    millis: u32,
    timestamp: &str,
) -> (r: MaintenanceRecord)
    ensures
        r@ == (RecordView {
            id: stamp@ + "-"@ + zero_pad4((millis % 10000) as nat),
            title: title@,
            description: description@,
            category: category@,
            operator: operator@,
            timestamp: timestamp@,
            status: "open"@,
            result: Seq::empty(),
        }),
{
    let m = millis % 10000;
    let mut idc: Vec<char> = Vec::new();
    push_str(&mut idc, stamp);
    push_str(&mut idc, "-");
    if m < 10 {
        push_str(&mut idc, "000");
    } else if m < 100 {
        push_str(&mut idc, "00");
    } else if m < 1000 {
        push_str(&mut idc, "0");
    }
    push_dec(&mut idc, m as u64);
    proof {
        reveal_strlit("");
    }
    let r = MaintenanceRecord {
        id: string_of(idc.as_slice()),
        title: title.to_owned(),
        description: description.to_owned(),
        category: category.to_owned(),
        operator: operator.to_owned(),
        timestamp: timestamp.to_owned(),
        status: "open".to_owned(),
        result: String::new(),
    };
    assert(r.id@ =~= stamp@ + "-"@ + zero_pad4((millis % 10000) as nat));
    r
}


/// The tag shown before a record's title for its category.
pub open spec fn category_tag_spec(category: Seq<char>) -> Seq<char> {
    if category == "常规维护"@ {
        "[MAINT]"@
    } else if category == "紧急修复"@ {
        "[HOTFIX]"@
    } else if category == "系统升级"@ {
        "[UPGRADE]"@
    } else if category == "数据迁移"@ {
        "[DATA]"@
    } else {
        "[NOTE]"@
    }
}

pub fn category_tag(category: &str) -> (r: &'static str)
    ensures
        r@ == category_tag_spec(category@),
{
    let c = chars_of(category);
    if eq_str(c.as_slice(), "常规维护") {
        "[MAINT]"
    } else if eq_str(c.as_slice(), "紧急修复") {
        "[HOTFIX]"
    } else if eq_str(c.as_slice(), "系统升级") {
        "[UPGRADE]"
    } else if eq_str(c.as_slice(), "数据迁移") {
        "[DATA]"
    } else {
        "[NOTE]"
    }
}

// ---------------------------------------------------------------------------
// Laws
// ---------------------------------------------------------------------------

/// Newest first: no record is newer than one before it.
pub open spec fn newest_first(s: Seq<MaintenanceRecord>) -> bool {
    forall|i: int, j: int|
        0 <= i < j < s.len() ==> lex_le(#[trigger] s[j].timestamp@, #[trigger] s[i].timestamp@)
}

proof fn lemma_insert_contents(s: Seq<MaintenanceRecord>, x: MaintenanceRecord)
    ensures
        insert_newest_first(s, x).to_multiset() =~= s.to_multiset().insert(x),
    decreases s.len(),
{
    broadcast use vstd::seq_lib::group_to_multiset_ensures;

    if s.len() == 0 {
        assert(seq![x] =~= s.push(x));
    } else if lex_le(x.timestamp@, s.last().timestamp@) {
    } else {
        lemma_insert_contents(s.drop_last(), x);
        assert(s.drop_last().push(s.last()) =~= s);
    }
}

proof fn lemma_contains_from_multiset(s: Seq<MaintenanceRecord>, t: Seq<MaintenanceRecord>, x: MaintenanceRecord, i: int)
    requires
        t.to_multiset() =~= s.to_multiset().insert(x),
        0 <= i < t.len(),
    ensures
        t[i] == x || s.contains(t[i]),
{
    broadcast use vstd::seq_lib::group_to_multiset_ensures;

    assert(t.contains(t[i]));
    assert(t.to_multiset().count(t[i]) > 0);
}

proof fn lemma_insert_newest_first(s: Seq<MaintenanceRecord>, x: MaintenanceRecord)
    requires
        newest_first(s),
    ensures
        newest_first(insert_newest_first(s, x)),
    decreases s.len(),
{
    if s.len() == 0 {
    } else if lex_le(x.timestamp@, s.last().timestamp@) {
        let t = s.push(x);
        assert forall|i: int, j: int| 0 <= i < j < t.len() implies lex_le(
            #[trigger] t[j].timestamp@,
            #[trigger] t[i].timestamp@,
        ) by {
            if j == s.len() {
                if i < s.len() - 1 {
                    assert(lex_le(s[s.len() - 1].timestamp@, s[i].timestamp@));
                    lemma_lex_le_trans(x.timestamp@, s.last().timestamp@, s[i].timestamp@);
                }
            } else {
                assert(t[i] == s[i] && t[j] == s[j]);
            }
        }
    } else {
        let d = s.drop_last();
        let last = s.last();
        let t0 = insert_newest_first(d, x);
        assert(newest_first(d)) by {
            assert forall|i: int, j: int| 0 <= i < j < d.len() implies lex_le(
                #[trigger] d[j].timestamp@,
                #[trigger] d[i].timestamp@,
            ) by {
                assert(d[i] == s[i] && d[j] == s[j]);
            }
        }
        lemma_insert_newest_first(d, x);
        lemma_insert_contents(d, x);
        lemma_lex_le_total(x.timestamp@, last.timestamp@);
        let t = t0.push(last);
        assert forall|i: int, j: int| 0 <= i < j < t.len() implies lex_le(
            #[trigger] t[j].timestamp@,
            #[trigger] t[i].timestamp@,
        ) by {
            if j == t0.len() {
                lemma_contains_from_multiset(d, t0, x, i);
                if t0[i] != x {
                    let k = choose|k: int| 0 <= k < d.len() && d[k] == t0[i];
                    assert(s[k] == d[k]);
                    assert(lex_le(s[s.len() - 1].timestamp@, s[k].timestamp@));
                }
            } else {
                assert(t[i] == t0[i] && t[j] == t0[j]);
            }
        }
    }
}

proof fn lemma_sort_newest_first(s: Seq<MaintenanceRecord>)
    ensures
        newest_first(sort_newest_first(s)),
        sort_newest_first(s).to_multiset() =~= s.to_multiset(),
    decreases s.len(),
{
    broadcast use vstd::seq_lib::group_to_multiset_ensures;

    if s.len() > 0 {
        lemma_sort_newest_first(s.drop_last());
        lemma_insert_newest_first(sort_newest_first(s.drop_last()), s.last());
        lemma_insert_contents(sort_newest_first(s.drop_last()), s.last());
        assert(s.drop_last().push(s.last()) =~= s);
    }
}

proof fn lemma_in_category(s: Seq<MaintenanceRecord>, cat: Option<Seq<char>>)
    ensures
        forall|i: int|
            0 <= i < in_category(s, cat).len() ==> match cat {
                Some(c) => (#[trigger] in_category(s, cat)[i]).category@ == c,
                None => true,
            },
        cat is None ==> in_category(s, cat) == s,
    decreases s.len(),
{
    if s.len() > 0 {
        lemma_in_category(s.drop_last(), cat);
        let k = in_category(s.drop_last(), cat);
        assert forall|i: int| 0 <= i < in_category(s, cat).len() implies match cat {
            Some(c) => (#[trigger] in_category(s, cat)[i]).category@ == c,
            None => true,
        } by {
            if i < k.len() {
                assert(in_category(s, cat)[i] == k[i]);
            }
        }
        if cat is None {
            assert(s.drop_last().push(s.last()) =~= s);
        }
    }
}

/// Listing gives the records newest first: no record is newer than one listed
/// before it.
pub proof fn law_listing_newest_first(records: Seq<MaintenanceRecord>, category: Option<Seq<char>>)
    ensures
        newest_first(sort_newest_first(in_category(records, category))),
{
    lemma_sort_newest_first(in_category(records, category));
}

/// Listing neither loses nor invents records: it gives exactly the records of the
/// category (every record when none is given), each as often as it occurs.
pub proof fn law_listing_keeps_records(records: Seq<MaintenanceRecord>, category: Option<Seq<char>>)
    ensures
        sort_newest_first(in_category(records, category)).to_multiset()
            =~= in_category(records, category).to_multiset(),
        category is None ==> in_category(records, category) == records,
        forall|i: int|
            0 <= i < in_category(records, category).len() ==> match category {
                Some(c) => (#[trigger] in_category(records, category)[i]).category@ == c,
                None => true,
            },
{
    lemma_sort_newest_first(in_category(records, category));
    lemma_in_category(records, category);
}

/// Toggling completion twice gives an open or completed record its status back.
pub proof fn law_toggle_twice(o: RecordView, m: RecordView, n: RecordView, r1: Seq<char>, r2: Seq<char>)
    requires
        o.status == "open"@ || o.status == "completed"@,
        toggled(o, m, r1),
        toggled(m, n, r2),
    ensures
        n.status == o.status,
{
    reveal_strlit("open");
    reveal_strlit("completed");
    assert("open"@ != "completed"@) by {
        assert("open"@.len() != "completed"@.len());
    }
}

/// After a deletion no record with the identifier is left, and every other record
/// stays, in its order.
pub proof fn law_delete_removes(s: Seq<MaintenanceRecord>, id: Seq<char>)
    ensures
        !has_id(without_id(s, id), id),
        forall|i: int| 0 <= i < s.len() && (#[trigger] s[i]).id@ != id ==> without_id(s, id).contains(s[i]),
    decreases s.len(),
{
    if s.len() > 0 {
        law_delete_removes(s.drop_last(), id);
        let k = without_id(s.drop_last(), id);
        assert forall|i: int| 0 <= i < s.len() && (#[trigger] s[i]).id@ != id implies without_id(s, id).contains(s[i]) by {
            if i < s.len() - 1 {
                assert(s.drop_last()[i] == s[i]);
                let j = choose|j: int| 0 <= j < k.len() && k[j] == s[i];
                if s.last().id@ != id {
                    assert(without_id(s, id)[j] == s[i]);
                }
            } else {
                assert(without_id(s, id)[k.len() as int] == s[i]);
            }
        }
        if has_id(without_id(s, id), id) {
            let j = choose|j: int| 0 <= j < without_id(s, id).len() && (#[trigger] without_id(s, id)[j]).id@ == id;
            if j < k.len() {
                assert(without_id(s, id)[j] == k[j]);
            }
        }
    }
}

} // verus!
