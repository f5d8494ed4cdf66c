//! Properties of the store and of replication that hold across operations.

use vstd::prelude::*;
use vstd::utf8::encode_utf8;
use crate::command::{decode_command, encode_command};
use crate::config::{peer_list, split_scan};
use crate::text::{occurs_at, str_contains};
use crate::wire::{bincode_deserialized, le_bytes};
use crate::command::CommandView;
use crate::raft::{entries_view, AppendEntriesRequestSpec, LogEntry, LogEntrySpec};
use crate::raft_node::{
    batch_entries, concat_batches, driver_run, entries_carry, entries_commands, proposals_of, replication_targets,
    request_peers, DriverEvent, PeerRequest, RaftNode, MAX_BATCH,
};
use crate::state_machine::{apply_command, apply_commands};

verus! {

/// After a `Put`, reading the key gives the value written, and every other
/// key reads as before.
pub proof fn lemma_read_after_put(kv: Map<Seq<char>, Seq<char>>, key: Seq<char>, value: Seq<char>)
    ensures
        apply_command(kv, CommandView::Put { key, value }).contains_key(key),
        apply_command(kv, CommandView::Put { key, value })[key] == value,
        forall|k: Seq<char>|
            k != key ==> (#[trigger] apply_command(kv, CommandView::Put { key, value }).contains_key(k)
                == kv.contains_key(k)) && (kv.contains_key(k) ==> apply_command(
                kv,
                CommandView::Put { key, value },
            )[k] == kv[k]),
{
}

/// After a `Del`, the key has no value, and every other key reads as before.
pub proof fn lemma_read_after_del(kv: Map<Seq<char>, Seq<char>>, key: Seq<char>)
    ensures
        !apply_command(kv, CommandView::Del { key }).contains_key(key),
        forall|k: Seq<char>|
            k != key ==> (#[trigger] apply_command(kv, CommandView::Del { key }).contains_key(k)
                == kv.contains_key(k)) && (kv.contains_key(k) ==> apply_command(
                kv,
                CommandView::Del { key },
            )[k] == kv[k]),
{
}

/// A `Del` undoes a `Put` of a key that had no value.
pub proof fn lemma_del_undoes_put(kv: Map<Seq<char>, Seq<char>>, key: Seq<char>, value: Seq<char>)
    requires
        !kv.contains_key(key),
    ensures
        apply_command(apply_command(kv, CommandView::Put { key, value }), CommandView::Del { key }) == kv,
{
}

/// A second `Put` of a key overwrites the first.
pub proof fn lemma_put_overwrites(kv: Map<Seq<char>, Seq<char>>, key: Seq<char>, v1: Seq<char>, v2: Seq<char>)
    ensures
        apply_command(apply_command(kv, CommandView::Put { key, value: v1 }), CommandView::Put { key, value: v2 })
            == apply_command(kv, CommandView::Put { key, value: v2 }),
{
    assert(apply_command(apply_command(kv, CommandView::Put { key, value: v1 }), CommandView::Put { key, value: v2 })
        =~= apply_command(kv, CommandView::Put { key, value: v2 }));
}

/// Applying two batches one after the other is applying their
/// concatenation.
pub proof fn lemma_batches_compose(kv: Map<Seq<char>, Seq<char>>, a: Seq<CommandView>, b: Seq<CommandView>)
    ensures
        apply_commands(apply_commands(kv, a), b) == apply_commands(kv, a + b),
    decreases b.len(),
{
    if b.len() > 0 {
        lemma_batches_compose(kv, a, b.drop_last());
        assert((a + b).drop_last() =~= a + b.drop_last());
    }
}

/// Replication keeps a follower in step with its leader: when the follower
/// starts from the leader's log and store, the leader flushes a batch and
/// sends the entries it appended, and the follower handles them, both end
/// with the same log and the same store.
pub proof fn lemma_follower_matches_leader(
    leader_before: RaftNode,
    leader_after: RaftNode,
    follower_before: RaftNode,
    follower_after: RaftNode,
    cmds: Seq<CommandView>,
    sent: AppendEntriesRequestSpec,
)
    requires
        follower_before.log_view() == leader_before.log_view(),
        follower_before.state_machine@ == leader_before.state_machine@,
        leader_after.log_view() == leader_before.log_view() + sent.entries,
        leader_after.state_machine@ == apply_commands(leader_before.state_machine@, cmds),
        entries_carry(sent.entries, cmds),
        follower_after.log_view() == follower_before.log_view() + sent.entries,
        follower_after.state_machine@ == apply_commands(
            follower_before.state_machine@,
            entries_commands(sent.entries),
        ),
    ensures
        follower_after.log_view() == leader_after.log_view(),
        follower_after.state_machine@ == leader_after.state_machine@,
{
    assert(entries_commands(sent.entries) =~= cmds);
}

/// Entries are numbered by their position in the log, from 1.
pub open spec fn log_indexed(log: Seq<LogEntrySpec>) -> bool {
    forall|i: int| 0 <= i < log.len() ==> #[trigger] log[i].index == i + 1
}

/// A leader's log stays numbered by position when it appends a batch.
pub proof fn lemma_leader_log_stays_indexed(log: Seq<LogEntrySpec>, term: u64, cmds: Seq<CommandView>)
    requires
        log_indexed(log),
        log.len() + cmds.len() < u64::MAX,
    ensures
        log_indexed(log + batch_entries(log.len() + 1int, term, cmds)),
{
}

/// Over any run of the proposal driver, every flushed batch holds between 1
/// and `MAX_BATCH` proposals, fewer than `MAX_BATCH` stay pending, and the
/// flushed batches followed by the pending proposals are exactly the
/// proposals received, in the order received: none lost, repeated or moved.
pub proof fn lemma_driver_run<T>(events: Seq<DriverEvent<T>>)
    ensures
        forall|i: int|
            0 <= i < driver_run(events).0.len() ==> 1 <= (#[trigger] driver_run(events).0[i]).len()
                <= MAX_BATCH,
        driver_run(events).1.len() < MAX_BATCH,
        concat_batches(driver_run(events).0) + driver_run(events).1 == proposals_of(events),
    decreases events.len(),
{
    if events.len() > 0 {
        let prev = events.drop_last();
        lemma_driver_run(prev);
        let (flushed, pending) = driver_run(prev);
        match events.last() {
            DriverEvent::Proposal(p) => {
                assert(concat_batches(flushed) + pending.push(p) =~= (concat_batches(flushed) + pending).push(p));
                if pending.len() + 1 >= MAX_BATCH {
                    let now = flushed.push(pending.push(p));
                    assert(now.drop_last() =~= flushed);
                    assert(concat_batches(now) + Seq::<T>::empty() =~= concat_batches(flushed) + pending.push(p));
                }
            },
            DriverEvent::Timeout => {
                if pending.len() > 0 {
                    let now = flushed.push(pending);
                    assert(now.drop_last() =~= flushed);
                    assert(concat_batches(now) + Seq::<T>::empty() =~= concat_batches(flushed) + pending);
                }
            },
        }
    }
}

/// A string contains another exactly when the other's UTF-8 bytes stand
/// somewhere inside its own, with some bytes before and some after.
pub proof fn lemma_contains_is_infix(hay: Seq<char>, needle: Seq<char>)
    ensures
        str_contains(hay, needle) <==> exists|before: Seq<u8>, after: Seq<u8>|
            encode_utf8(hay) == before + encode_utf8(needle) + after,
{
    let h = encode_utf8(hay);
    let n = encode_utf8(needle);
    if str_contains(hay, needle) {
        let i = choose|i: int| #[trigger] occurs_at(h, n, i);
        assert(h =~= h.take(i) + n + h.skip(i + n.len()));
    }
    if exists|before: Seq<u8>, after: Seq<u8>| h == before + n + after {
        let (before, after) = choose|before: Seq<u8>, after: Seq<u8>| h == before + n + after;
        assert(h.subrange(before.len() as int, before.len() + n.len() as int) =~= n);
        assert(occurs_at(h, n, before.len() as int));
    }
}

/// The peers a leader replicates to are its peers, in order, less those
/// whose address contains the leader's id.
pub proof fn lemma_replication_targets_filter(peers: Seq<Seq<char>>, id: Seq<char>)
    ensures
        replication_targets(peers, id) == peers.filter(|p: Seq<char>| !str_contains(p, id)),
    decreases peers.len(),
{
    reveal_with_fuel(Seq::<_>::filter, 1);
    if peers.len() > 0 {
        lemma_replication_targets_filter(peers.drop_last(), id);
    }
}

/// Applying a sequence of commands and then one more is applying the one
/// more to the result.
pub proof fn lemma_apply_commands_push(kv: Map<Seq<char>, Seq<char>>, cmds: Seq<CommandView>, c: CommandView)
    ensures
        apply_commands(kv, cmds.push(c)) == apply_command(apply_commands(kv, cmds), c),
{
    assert(cmds.push(c).drop_last() =~= cmds);
}

/// After any commands ending with a `Put` of a key, the key holds the value
/// put; after any commands ending with a `Del` of a key, the key holds
/// nothing.
pub proof fn lemma_last_write_wins(
    kv: Map<Seq<char>, Seq<char>>,
    cmds: Seq<CommandView>,
    key: Seq<char>,
    value: Seq<char>,
)
    ensures
        apply_commands(kv, cmds.push(CommandView::Put { key, value })).contains_key(key),
        apply_commands(kv, cmds.push(CommandView::Put { key, value }))[key] == value,
        !apply_commands(kv, cmds.push(CommandView::Del { key })).contains_key(key),
{
    lemma_apply_commands_push(kv, cmds, CommandView::Put { key, value });
    lemma_apply_commands_push(kv, cmds, CommandView::Del { key });
}

/// A key that no command names keeps what it held.
pub proof fn lemma_untouched_key(kv: Map<Seq<char>, Seq<char>>, cmds: Seq<CommandView>, key: Seq<char>)
    requires
        forall|i: int|
            0 <= i < cmds.len() ==> match #[trigger] cmds[i] {
                CommandView::Put { key: k, value: _ } => k != key,
                CommandView::Del { key: k } => k != key,
            },
    ensures
        apply_commands(kv, cmds).contains_key(key) == kv.contains_key(key),
        kv.contains_key(key) ==> apply_commands(kv, cmds)[key] == kv[key],
    decreases cmds.len(),
{
    if cmds.len() > 0 {
        let prev = cmds.drop_last();
        assert forall|i: int| 0 <= i < prev.len() implies match #[trigger] prev[i] {
            CommandView::Put { key: k, value: _ } => k != key,
            CommandView::Del { key: k } => k != key,
        } by {
            assert(prev[i] == cmds[i]);
        }
        lemma_untouched_key(kv, prev, key);
        let last = cmds[cmds.len() - 1];
        assert(cmds.last() == last);
    }
}

/// A timeout leaves nothing pending, and flushes what was pending if
/// anything was; a proposal that does not fill the batch flushes nothing and
/// waits at the end of the pending batch.
pub proof fn lemma_driver_timeout_and_proposal<T>(events: Seq<DriverEvent<T>>, p: T)
    ensures
        driver_run(events.push(DriverEvent::Timeout)).1.len() == 0,
        driver_run(events).1.len() > 0 ==> driver_run(events.push(DriverEvent::Timeout)).0
            == driver_run(events).0.push(driver_run(events).1),
        driver_run(events).1.len() == 0 ==> driver_run(events.push(DriverEvent::Timeout)).0
            == driver_run(events).0,
        driver_run(events).1.len() + 1 < MAX_BATCH ==> {
            &&& driver_run(events.push(DriverEvent::Proposal(p))).0 == driver_run(events).0
            &&& driver_run(events.push(DriverEvent::Proposal(p))).1 == driver_run(events).1.push(p)
        },
{
    assert(events.push(DriverEvent::Timeout).drop_last() =~= events);
    assert(events.push(DriverEvent::Proposal(p)).drop_last() =~= events);
}

/// A `Put` is encoded as the tag 0 in four bytes, then the key, then the
/// value, each as its UTF-8 length in eight little-endian bytes followed by
/// its UTF-8 bytes; a `Del` as the tag 1, then the key.
pub proof fn lemma_command_encoding(key: Seq<char>, value: Seq<char>)
    ensures
        encode_command(CommandView::Put { key, value }) == seq![0u8, 0u8, 0u8, 0u8]
            + le_bytes(encode_utf8(key).len(), 8) + encode_utf8(key)
            + le_bytes(encode_utf8(value).len(), 8) + encode_utf8(value),
        encode_command(CommandView::Del { key }) == seq![1u8, 0u8, 0u8, 0u8]
            + le_bytes(encode_utf8(key).len(), 8) + encode_utf8(key),
{
    reveal_with_fuel(le_bytes, 5);
    assert(le_bytes(0, 4) =~= seq![0u8, 0u8, 0u8, 0u8]);
    assert(le_bytes(1, 4) =~= seq![1u8, 0u8, 0u8, 0u8]);
    assert(encode_command(CommandView::Put { key, value }) =~= seq![0u8, 0u8, 0u8, 0u8]
        + le_bytes(encode_utf8(key).len(), 8) + encode_utf8(key)
        + le_bytes(encode_utf8(value).len(), 8) + encode_utf8(value));
    assert(encode_command(CommandView::Del { key }) =~= seq![1u8, 0u8, 0u8, 0u8]
        + le_bytes(encode_utf8(key).len(), 8) + encode_utf8(key));
}

/// Bytes that bincode reads as a pair of strings decode to a `Put` of the
/// first as key and the second as value; bytes it reads as a lone string
/// decode to a `Del` of it.
pub proof fn lemma_command_decoding(bytes: Seq<u8>, a: Seq<char>, b: Seq<char>)
    ensures
        bincode_deserialized(bytes) == Some(Ok::<(Seq<char>, Seq<char>), Seq<char>>((a, b)))
            ==> decode_command(bytes) == Some(CommandView::Put { key: a, value: b }),
        bincode_deserialized(bytes) == Some(Err::<(Seq<char>, Seq<char>), Seq<char>>(a))
            ==> decode_command(bytes) == Some(CommandView::Del { key: a }),
{
}

/// A text without commas names itself alone, or nothing when it is empty.
pub proof fn lemma_peer_list_single(s: Seq<char>)
    requires
        !s.contains(','),
    ensures
        s.len() > 0 ==> peer_list(s) == seq![s],
        s.len() == 0 ==> peer_list(s) == Seq::<Seq<char>>::empty(),
{
    lemma_scan_without_commas(s);
}

proof fn lemma_scan_without_commas(s: Seq<char>)
    requires
        !s.contains(','),
    ensures
        split_scan(s) == (Seq::<Seq<char>>::empty(), s),
    decreases s.len(),
{
    if s.len() > 0 {
        let prev = s.drop_last();
        assert(!prev.contains(',')) by {
            if prev.contains(',') {
                let i = choose|i: int| 0 <= i < prev.len() && prev[i] == ',';
                assert(s[i] == ',');
            }
        }
        lemma_scan_without_commas(prev);
        assert(s[s.len() - 1] != ',');
        assert(prev.push(s.last()) =~= s);
    }
}

/// Scanning on from a point where no piece is open adds the pieces of what
/// follows.
proof fn lemma_scan_from_cut(p: Seq<char>, b: Seq<char>)
    requires
        split_scan(p).1.len() == 0,
    ensures
        split_scan(p + b) == (split_scan(p).0 + split_scan(b).0, split_scan(b).1),
    decreases b.len(),
{
    if b.len() == 0 {
        assert(p + b =~= p);
    } else {
        lemma_scan_from_cut(p, b.drop_last());
        assert((p + b).drop_last() =~= p + b.drop_last());
        assert((p + b).last() == b.last());
        let d = split_scan(p).0;
        let x = split_scan(b.drop_last()).0;
        let y = split_scan(b.drop_last()).1;
        assert((d + x).push(y) =~= d + x.push(y));
    }
}

/// The pieces of two texts joined by a comma are the pieces of the first
/// followed by the pieces of the second.
pub proof fn lemma_peer_list_join(a: Seq<char>, b: Seq<char>)
    ensures
        peer_list(a + seq![','] + b) == peer_list(a) + peer_list(b),
{
    let ac = a + seq![','];
    assert(ac.drop_last() =~= a);
    assert(ac.last() == ',');
    lemma_scan_from_cut(ac, b);
    let d = split_scan(ac).0;
    let x = split_scan(b).0;
    let y = split_scan(b).1;
    assert((d + x).push(y) =~= d + x.push(y));
    assert(d + x =~= d + x);
    if y.len() == 0 {
        assert(peer_list(b) == x);
    }
    assert(peer_list(a) == d);
}

/// The entries a leader creates for a batch are numbered on from the given
/// index in batch order, stamped with the leader's term, and each carries its
/// command's encoding.
pub proof fn lemma_batch_entries_fields(first: int, term: u64, cmds: Seq<CommandView>, i: int)
    requires
        0 <= i < cmds.len(),
        0 <= first,
        first + cmds.len() <= u64::MAX,
    ensures
        batch_entries(first, term, cmds).len() == cmds.len(),
        batch_entries(first, term, cmds)[i].index == first + i,
        batch_entries(first, term, cmds)[i].term == term,
        batch_entries(first, term, cmds)[i].data == encode_command(cmds[i]),
{
}

/// The addresses of peer requests, and the meaning of log entries, are taken
/// one for one and in order.
pub proof fn lemma_views_in_order(reqs: Seq<PeerRequest>, entries: Seq<LogEntry>)
    ensures
        request_peers(reqs).len() == reqs.len(),
        forall|j: int| 0 <= j < reqs.len() ==> #[trigger] request_peers(reqs)[j] == reqs[j].peer@,
        entries_view(entries).len() == entries.len(),
        forall|j: int| 0 <= j < entries.len() ==> #[trigger] entries_view(entries)[j] == entries[j]@,
{
}

/// One more proposal joins the end of the proposals received, a timeout adds
/// none; one more batch joins the end of the batches laid end to end.
pub proof fn lemma_proposals_and_batches<T>(events: Seq<DriverEvent<T>>, p: T, batches: Seq<Seq<T>>, b: Seq<T>)
    ensures
        proposals_of(events.push(DriverEvent::Proposal(p))) == proposals_of(events).push(p),
        proposals_of(events.push(DriverEvent::Timeout)) == proposals_of(events),
        concat_batches(batches.push(b)) == concat_batches(batches) + b,
        proposals_of(Seq::<DriverEvent<T>>::empty()).len() == 0,
        concat_batches(Seq::<Seq<T>>::empty()).len() == 0,
{
    assert(events.push(DriverEvent::Proposal(p)).drop_last() =~= events);
    assert(events.push(DriverEvent::Timeout).drop_last() =~= events);
    assert(batches.push(b).drop_last() =~= batches);
}

} // verus!
