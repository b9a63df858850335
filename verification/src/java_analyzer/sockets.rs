//! Listening TCP sockets: what `/proc/net/tcp` lists, and which of them a process
//! holds open.
use vstd::prelude::*;
use crate::text::{chars_of, dec, dec_spec, ends_with_spec, eq_str, insert_sorted_unique, last_index, lines, lines_spec, parse_unsigned, parse_unsigned_spec, rfind_char, seq_eq, slice_to_vec, split_whitespace, split_ws, starts_with_spec, string_of, string_views, strictly_sorted, strip_prefix_str, views};

verus! {

/// Pairs of strings as text.
pub open spec fn pair_views(v: Seq<(String, String)>) -> Seq<(Seq<char>, Seq<char>)> {
    v.map_values(|p: (String, String)| (p.0@, p.1@))
}

/// The socket of one row of a TCP table, as (inode, port in decimal): a row with at
/// least ten fields whose state (field 4) is `0A`, listening, and whose local
/// address (field 2) ends in `:` and a port in hexadecimal.
pub open spec fn socket_entry(line: Seq<char>) -> Option<(Seq<char>, Seq<char>)> {
    let f = split_ws(line);
    if f.len() < 10 || f[3] != "0A"@ {
        None
    } else {
        match last_index(f[1], ':') {
            None => None,
            Some(k) => match parse_unsigned_spec(f[1].skip(k + 1), 16, 65535) {
                Some(p) => Some((f[9], dec_spec(p))),
                None => None,
            },
        }
    }
}

pub open spec fn socket_entries(ls: Seq<Seq<char>>) -> Seq<(Seq<char>, Seq<char>)>
    decreases ls.len(),
{
    if ls.len() == 0 {
        Seq::empty()
    } else {
        let prev = socket_entries(ls.drop_last());
        match socket_entry(ls.last()) {
            Some(e) => prev.push(e),
            None => prev,
        }
    }
}

/// The rows of a table: its lines after the header line.
pub open spec fn table_rows(text: Seq<char>) -> Seq<Seq<char>> {
    let ls = lines_spec(text);
    if ls.len() == 0 {
        ls
    } else {
        ls.drop_first()
    }
}

fn socket_of_line(line: &[char]) -> (r: Option<(String, String)>)
    ensures
        match socket_entry(line@) {
            Some(e) => r matches Some(p) && p.0@ == e.0 && p.1@ == e.1,
            None => r is None,
        },
{
    let f = split_whitespace(line);
    proof {
        if f@.len() >= 10 {
            assert(views(f@)[1] == f@[1]@);
            assert(views(f@)[3] == f@[3]@);
            assert(views(f@)[9] == f@[9]@);
        }
    }
    if f.len() < 10 {
        return None;
    }
    if !eq_str(f[3].as_slice(), "0A") {
        return None;
    }
    let local = f[1].as_slice();
    match rfind_char(local, ':') {
        None => None,
        Some(k) => {
            let hex = slice_to_vec(local, k + 1, local.len());
            assert(hex@ =~= local@.skip(k + 1));
            match parse_unsigned(hex.as_slice(), 16, 65535) {
                None => None,
                Some(p) => {
                    let inode = string_of(f[9].as_slice());
                    let port = string_of(dec(p).as_slice());
                    Some((inode, port))
                },
            }
        },
    }
}

/// The listening sockets of a TCP table (`/proc/net/tcp` or `/proc/net/tcp6`) as
/// (inode, port) pairs, in table order.
pub fn listening_sockets(table: &str) -> (r: Vec<(String, String)>)
    ensures
        pair_views(r@) == socket_entries(table_rows(table@)),
{
    let tc = chars_of(table);
    let ls = lines(tc.as_slice());
    let ghost lv = views(ls@);
    let ghost rows = table_rows(table@);
    let mut out: Vec<(String, String)> = Vec::new();
    if ls.len() == 0 {
        assert(pair_views(out@) =~= Seq::<(Seq<char>, Seq<char>)>::empty());
        return out;
    }
    assert(rows =~= lv.drop_first());
    let mut i: usize = 1;
    assert(rows.take(0) =~= Seq::<Seq<char>>::empty());
    assert(pair_views(out@) =~= Seq::<(Seq<char>, Seq<char>)>::empty());
    while i < ls.len()
        invariant
            1 <= i <= ls@.len(),
            lv == views(ls@),
            lv == lines_spec(table@),
            rows == lv.drop_first(),
            pair_views(out@) == socket_entries(rows.take(i - 1)),
        decreases ls.len() - i,
    {
        assert(rows.take(i as int).drop_last() =~= rows.take(i - 1));
        assert(rows.take(i as int).last() == ls@[i as int]@);
        let e = socket_of_line(ls[i].as_slice());
        match e {
            Some(p) => {
                let ghost before = pair_views(out@);
                out.push(p);
                assert(pair_views(out@) =~= before.push((p.0@, p.1@)));
            },
            None => {},
        }
        i = i + 1;
    }
    assert(rows.take(i - 1) =~= rows);
    out
}

/// The socket inode that a file descriptor link such as `socket:[1234]` names.
pub open spec fn socket_inode(target: Seq<char>) -> Option<Seq<char>> {
    if starts_with_spec(target, "socket:["@) && ends_with_spec(target.skip(8), "]"@) {
        Some(target.skip(8).drop_last())
    } else {
        None
    }
}

/// The port that the last entry for `inode` gives, as a map filled in order keeps.
pub open spec fn port_of_inode(sockets: Seq<(Seq<char>, Seq<char>)>, inode: Seq<char>) -> Option<Seq<char>>
    decreases sockets.len(),
{
    if sockets.len() == 0 {
        None
    } else if sockets.last().0 == inode {
        Some(sockets.last().1)
    } else {
        port_of_inode(sockets.drop_last(), inode)
    }
}

/// The port that a file descriptor link leads to, if it is a listening socket.
pub open spec fn port_of_target(sockets: Seq<(Seq<char>, Seq<char>)>, target: Seq<char>) -> Option<Seq<char>> {
    match socket_inode(target) {
        Some(i) => port_of_inode(sockets, i),
        None => None,
    }
}

fn inode_of_target(target: &[char]) -> (r: Option<Vec<char>>)
    ensures
        match socket_inode(target@) {
            Some(i) => r matches Some(v) && v@ == i,
            None => r is None,
        },
{
    proof {
        reveal_strlit("socket:[");
        reveal_strlit("]");
    }
    match strip_prefix_str(target, "socket:[") {
        None => None,
        Some(rest) => {
            assert("socket:["@.len() == 8);
            assert(rest@ =~= target@.skip(8));
            assert("]"@ =~= seq![']']);
            if rest.len() > 0 && rest[rest.len() - 1] == ']' {
                let v = slice_to_vec(rest.as_slice(), 0, rest.len() - 1);
                assert(v@ =~= rest@.drop_last());
                assert(ends_with_spec(target@.skip(8), "]"@)) by {
                    assert(target@.skip(8).skip(target@.skip(8).len() - 1) =~= seq![']']);
                }
                Some(v)
            } else {
                assert(!ends_with_spec(target@.skip(8), "]"@)) by {
                    if rest@.len() > 0 {
                        assert(rest@.skip(rest@.len() - 1)[0] == rest@.last());
                    }
                }
                None
            }
        },
    }
}

fn port_lookup(sockets: &Vec<(String, String)>, inode: &[char]) -> (r: Option<String>)
    ensures
        match port_of_inode(pair_views(sockets@), inode@) {
            Some(p) => r matches Some(s) && s@ == p,
            None => r is None,
        },
{
    let ghost pv = pair_views(sockets@);
    let mut k: usize = sockets.len();
    assert(pv.take(k as int) =~= pv);
    while k > 0
        invariant
            k <= sockets@.len(),
            pv == pair_views(sockets@),
            port_of_inode(pv, inode@) == port_of_inode(pv.take(k as int), inode@),
        decreases k,
    {
        let ghost t = pv.take(k as int);
        assert(t.last() == (sockets@[k - 1].0@, sockets@[k - 1].1@));
        assert(t.drop_last() =~= pv.take(k - 1));
        let key = chars_of(sockets[k - 1].0.as_str());
        if seq_eq(key.as_slice(), inode) {
            return Some(sockets[k - 1].1.clone());
        }
        k = k - 1;
    }
    None
}

/// The listening ports that a process holds open, from the targets of its file
/// descriptor links and the listening sockets (later entries for an inode win):
/// each port once, in `String` order.
pub fn process_listen_ports(targets: &Vec<String>, sockets: &Vec<(String, String)>) -> (r: Vec<String>)
    ensures
        strictly_sorted(string_views(r@)),
        forall|y: Seq<char>|
            string_views(r@).contains(y) <==> exists|k: int|
                0 <= k < targets@.len() && port_of_target(pair_views(sockets@), #[trigger] targets@[k]@) == Some(y),
{
    let ghost pv = pair_views(sockets@);
    let mut out: Vec<String> = Vec::new();
    let mut i: usize = 0;
    while i < targets.len()
        invariant
            i <= targets@.len(),
            pv == pair_views(sockets@),
            strictly_sorted(string_views(out@)),
            forall|y: Seq<char>|
                string_views(out@).contains(y) <==> exists|k: int|
                    0 <= k < i && port_of_target(pv, #[trigger] targets@[k]@) == Some(y),
        decreases targets.len() - i,
    {
        let tc = chars_of(targets[i].as_str());
        let ghost before = string_views(out@);
        match inode_of_target(tc.as_slice()) {
            None => {},
            Some(inode) => {
                match port_lookup(sockets, inode.as_slice()) {
                    None => {},
                    Some(port) => {
                        let ghost pw = port@;
                        insert_sorted_unique(&mut out, port);
                        assert forall|y: Seq<char>|
                            string_views(out@).contains(y) implies exists|k: int|
                                0 <= k < i + 1 && port_of_target(pv, #[trigger] targets@[k]@) == Some(y) by {
                            if y == pw {
                                assert(port_of_target(pv, targets@[i as int]@) == Some(y));
                            } else {
                                assert(before.contains(y));
                            }
                        }
                    },
                }
            },
        }
        assert forall|y: Seq<char>|
            (exists|k: int| 0 <= k < i + 1 && port_of_target(pv, #[trigger] targets@[k]@) == Some(y))
                implies string_views(out@).contains(y) by {
            let k = choose|k: int| 0 <= k < i + 1 && port_of_target(pv, #[trigger] targets@[k]@) == Some(y);
            if k < i {
                assert(before.contains(y));
            }
        }
        i = i + 1;
    }
    out
}

} // verus!
