//! The node's peer list, as given on the command line and completed by
//! discovery.

use vstd::prelude::*;
use crate::raft_node::strings_view;

verus! {

/// Calls `String::push`. Claims: the character is appended to the string.
#[verifier::external_body]
fn string_push(s: &mut String, c: char)
    ensures
        final(s)@ == old(s)@.push(c),
{
    s.push(c)
}

/// One character of a left-to-right scan that cuts a text at commas: the
/// pieces finished so far, and the piece being read. Empty pieces are dropped.
pub open spec fn split_step(acc: (Seq<Seq<char>>, Seq<char>), c: char) -> (Seq<Seq<char>>, Seq<char>) {
    if c == ',' {
        (if acc.1.len() > 0 { acc.0.push(acc.1) } else { acc.0 }, Seq::empty())
    } else {
        (acc.0, acc.1.push(c))
    }
}

/// The state of the scan after a text.
pub open spec fn split_scan(s: Seq<char>) -> (Seq<Seq<char>>, Seq<char>)
    decreases s.len(),
{
    if s.len() == 0 {
        (Seq::empty(), Seq::empty())
    } else {
        split_step(split_scan(s.drop_last()), s.last())
    }
}

/// The non-empty pieces of a comma-separated text, in order.
pub open spec fn peer_list(s: Seq<char>) -> Seq<Seq<char>> {
    let (done, cur) = split_scan(s);
    if cur.len() > 0 {
        done.push(cur)
    } else {
        done
    }
}

/// The peers named in a comma-separated list, empty names left out.
pub fn parse_peers(list: &str) -> (peers: Vec<String>)
    ensures
        strings_view(peers@) == peer_list(list@),
{
    let mut done: Vec<String> = Vec::new();
    let mut cur = String::new();
    let ghost text = list@;
    for c in it: list.chars()
        invariant
            it.seq() == text,
            strings_view(done@) == split_scan(text.take(it.index() as int)).0,
            cur@ == split_scan(text.take(it.index() as int)).1,
    {
        let ghost i = it.index() as int;
        proof {
            assert(text.take(i + 1).drop_last() =~= text.take(i));
        }
        if c == ',' {
            if !cur.as_str().is_empty() {
                done.push(cur);
            }
            cur = String::new();
        } else {
            string_push(&mut cur, c);
        }
    }
    assert(text.take(text.len() as int) =~= text);
    if !cur.as_str().is_empty() {
        done.push(cur);
    }
    done
}

/// Adds a discovered peer unless the list already names it.
pub fn add_peer(peers: &mut Vec<String>, uri: String)
    ensures
        strings_view(old(peers)@).contains(uri@) ==> final(peers)@ == old(peers)@,
        !strings_view(old(peers)@).contains(uri@) ==> final(peers)@ == old(peers)@.push(uri),
{
    let n = peers.len();
    let mut i: usize = 0;
    while i < n
        invariant
            n == peers@.len(),
            i <= n,
            forall|k: int| 0 <= k < i ==> peers@[k]@ != uri@,
        decreases n - i,
    {
        if peers[i] == uri {
            assert(strings_view(peers@)[i as int] == uri@);
            return;
        }
        i = i + 1;
    }
    peers.push(uri);
}

} // verus!
