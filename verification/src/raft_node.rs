//! The decisions of a Raft node: what a leader does with a batch of
//! proposals, what a follower does with an append request, how proposals are
//! gathered into batches, and how votes are answered.

use vstd::prelude::*;
use crate::command::{decode_command, encode_command, Command, CommandView};
use crate::raft::{
    duplicate_entries, entries_view, AppendEntriesRequest, AppendEntriesRequestSpec,
    AppendEntriesResponse, LogEntry, LogEntrySpec, RequestVoteRequest, RequestVoteResponse,
};
use crate::state_machine::{apply_commands, StateMachine};
use crate::text::{contains, str_contains};
use crate::laws::{lemma_batches_compose, lemma_replication_targets_filter};

verus! {

/// A batch is flushed once it holds this many proposals.
pub const MAX_BATCH: usize = 1000;

/// The part a node plays in the cluster.
#[derive(PartialEq, Eq, Structural, Clone, Copy, Debug)]
pub enum Role {
    Follower,
    Candidate,
    Leader,
}

/// The state of one node: its identity, the persistent and volatile Raft
/// state, and the key-value store its log drives.
pub struct RaftNode {
    pub id: String,
    pub peers: Vec<String>,
    pub current_term: u64,
    pub voted_for: Option<String>,
    pub log: Vec<LogEntry>,
    pub commit_index: u64,
    pub last_applied: u64,
    pub state_machine: StateMachine,
    pub role: Role,
    pub leader_id: Option<String>,
}

/// An append request addressed to one peer.
pub struct PeerRequest {
    pub peer: String,
    pub request: AppendEntriesRequest,
}

/// What a flush decides: the reply owed to every proposal of the batch, and
/// the append requests to send.
pub struct FlushOutcome {
    pub reply: Result<(), String>,
    pub requests: Vec<PeerRequest>,
}

/// Something the proposal driver waits for: a proposal (a command, with
/// whatever the caller keeps beside it), or the end of a wait.
pub enum DriverEvent<T> {
    Proposal(T),
    Timeout,
}

/// What the proposal driver does next.
pub enum DriverAction {
    Wait,
    Flush,
}

/// One step of the driver on the pending proposals: the proposals pending
/// after the event, and whether they are flushed.
pub open spec fn driver_spec<T>(pending: Seq<T>, event: DriverEvent<T>) -> (Seq<T>, bool) {
    match event {
        DriverEvent::Proposal(p) => (pending.push(p), pending.len() + 1 >= MAX_BATCH),
        DriverEvent::Timeout => (pending, pending.len() > 0),
    }
}

/// A run of the driver over a sequence of events, from nothing pending: the
/// batches flushed, in order, and the proposals still pending. A flush hands
/// the pending proposals over and leaves nothing pending.
pub open spec fn driver_run<T>(events: Seq<DriverEvent<T>>) -> (Seq<Seq<T>>, Seq<T>)
    decreases events.len(),
{
    if events.len() == 0 {
        (Seq::empty(), Seq::empty())
    } else {
        let (flushed, pending) = driver_run(events.drop_last());
        let (next, flush) = driver_spec(pending, events.last());
        if flush {
            (flushed.push(next), Seq::empty())
        } else {
            (flushed, next)
        }
    }
}

/// The proposals among a sequence of events, in order.
pub open spec fn proposals_of<T>(events: Seq<DriverEvent<T>>) -> Seq<T>
    decreases events.len(),
{
    if events.len() == 0 {
        Seq::empty()
    } else {
        match events.last() {
            DriverEvent::Proposal(p) => proposals_of(events.drop_last()).push(p),
            DriverEvent::Timeout => proposals_of(events.drop_last()),
        }
    }
}

/// Batches laid end to end.
pub open spec fn concat_batches<T>(batches: Seq<Seq<T>>) -> Seq<T>
    decreases batches.len(),
{
    if batches.len() == 0 {
        Seq::empty()
    } else {
        concat_batches(batches.drop_last()) + batches.last()
    }
}

/// The meanings of a sequence of commands.
pub open spec fn commands_view(cmds: Seq<Command>) -> Seq<CommandView> {
    cmds.map_values(|c: Command| c@)
}

/// The views of a sequence of strings.
pub open spec fn strings_view(s: Seq<String>) -> Seq<Seq<char>> {
    s.map_values(|x: String| x@)
}

/// The entries a leader creates for a batch: consecutive indices from
/// `first_index`, the leader's term, and each command's encoding.
pub open spec fn batch_entries(first_index: int, term: u64, cmds: Seq<CommandView>) -> Seq<LogEntrySpec> {
    Seq::new(
        cmds.len(),
        |i: int| LogEntrySpec { index: (first_index + i) as u64, term, data: encode_command(cmds[i]) },
    )
}

/// Each entry decodes to the command at the same position.
pub open spec fn entries_carry(entries: Seq<LogEntrySpec>, cmds: Seq<CommandView>) -> bool {
    &&& entries.len() == cmds.len()
    &&& forall|i: int| 0 <= i < entries.len() ==> decode_command(#[trigger] entries[i].data) == Some(cmds[i])
}

/// Every entry holds an encoded command.
pub open spec fn entries_decode(entries: Seq<LogEntrySpec>) -> bool {
    forall|i: int| 0 <= i < entries.len() ==> (decode_command(#[trigger] entries[i].data) is Some)
}

/// The commands that a sequence of entries holds.
pub open spec fn entries_commands(entries: Seq<LogEntrySpec>) -> Seq<CommandView> {
    entries.map_values(|e: LogEntrySpec| decode_command(e.data).unwrap())
}

/// The peers a leader replicates to, in order: those whose address does not
/// contain the leader's id.
pub open spec fn replication_targets(peers: Seq<Seq<char>>, id: Seq<char>) -> Seq<Seq<char>>
    decreases peers.len(),
{
    if peers.len() == 0 {
        Seq::empty()
    } else {
        let rest = replication_targets(peers.drop_last(), id);
        if str_contains(peers.last(), id) {
            rest
        } else {
            rest.push(peers.last())
        }
    }
}

/// The addresses of a sequence of peer requests.
pub open spec fn request_peers(reqs: Seq<PeerRequest>) -> Seq<Seq<char>> {
    reqs.map_values(|r: PeerRequest| r.peer@)
}

impl RaftNode {
    /// The meaning of the node's log.
    pub open spec fn log_view(&self) -> Seq<LogEntrySpec> {
        entries_view(self.log@)
    }

    /// The store is what replaying the log's commands on an empty store gives.
    pub open spec fn replays_log(&self) -> bool {
        &&& entries_decode(self.log_view())
        &&& self.state_machine@ == apply_commands(Map::empty(), entries_commands(self.log_view()))
    }

    /// Everything but the log and the store is the same in both nodes.
    pub open spec fn same_settings(&self, other: RaftNode) -> bool {
        &&& self.id == other.id
        &&& self.peers == other.peers
        &&& self.current_term == other.current_term
        &&& self.voted_for == other.voted_for
        &&& self.commit_index == other.commit_index
        &&& self.last_applied == other.last_applied
        &&& self.role == other.role
        &&& self.leader_id == other.leader_id
    }

    /// A fresh follower with an empty log and store, in term 0.
    pub fn new(id: String, peers: Vec<String>) -> (node: RaftNode)
        ensures
            node.id == id,
            node.peers == peers,
            node.current_term == 0,
            node.voted_for is None,
            node.log@.len() == 0,
            node.commit_index == 0,
            node.last_applied == 0,
            node.state_machine@ == Map::<Seq<char>, Seq<char>>::empty(),
            node.role == Role::Follower,
            node.leader_id is None,
            node.replays_log(),
    {
        let node = RaftNode {
            id,
            peers,
            current_term: 0,
            voted_for: None,
            log: Vec::new(),
            commit_index: 0,
            last_applied: 0,
            state_machine: StateMachine::new(),
            role: Role::Follower,
            leader_id: None,
        };
        node
    }

    /// Answers a vote request: the vote is always granted, in the node's
    /// current term.
    pub fn handle_request_vote(&self, req: RequestVoteRequest) -> (resp: RequestVoteResponse)
        ensures
            resp.term == self.current_term,
            resp.vote_granted,
    {
        RequestVoteResponse { term: self.current_term, vote_granted: true }
    }

    /// Appends the entries of a leader's request to the log and applies the
    /// command of each to the store, in order. Every entry must hold an
    /// encoded command.
    pub fn handle_append_entries(&mut self, req: AppendEntriesRequest) -> (resp: AppendEntriesResponse)
        requires
            entries_decode(req@.entries),
        ensures
            final(self).same_settings(*old(self)),
            final(self).log_view() == old(self).log_view() + req@.entries,
            final(self).state_machine@ == apply_commands(
                old(self).state_machine@,
                entries_commands(req@.entries),
            ),
            resp.term == old(self).current_term,
            resp.success,
            resp.conflict_index == 0,
            resp.conflict_term == 0,
            old(self).replays_log() ==> final(self).replays_log(),
    {
        let ghost start = *self;
        let entries = req.entries;
        let ghost sent = entries_view(entries@);
        let ghost cmds = entries_commands(sent);
        let n = entries.len();
        let mut i: usize = 0;
        while i < n
            invariant
                n == entries@.len(),
                sent == entries_view(entries@),
                cmds == entries_commands(sent),
                entries_decode(sent),
                i <= n,
                self.same_settings(start),
                self.log_view() == start.log_view() + sent.take(i as int),
                self.state_machine@ == apply_commands(start.state_machine@, cmds.take(i as int)),
            decreases n - i,
        {
            assert(decode_command(sent[i as int].data) is Some);
            let cmd = Command::deserialize(entries[i].data.as_slice());
            let ghost log_before = self.log_view();
            self.log.push(entries[i].duplicate());
            assert(self.log_view() =~= log_before.push(sent[i as int]));
            self.state_machine.apply(&cmd);
            proof {
                assert(cmds.take(i + 1).drop_last() =~= cmds.take(i as int));
            }
            i = i + 1;
        }
        assert(sent.take(n as int) =~= sent);
        assert(cmds.take(n as int) =~= cmds);
        proof {
            lemma_replay_extends(start, *self, sent, cmds);
        }
        AppendEntriesResponse { term: self.current_term, success: true, conflict_index: 0, conflict_term: 0 }
    }

    /// Handles an append request where every entry holds an encoded command;
    /// otherwise leaves the node as it was and gives `None`.
    pub fn try_handle_append_entries(&mut self, req: AppendEntriesRequest) -> (resp: Option<AppendEntriesResponse>)
        ensures
            match resp {
                Some(r) => {
                    &&& entries_decode(req@.entries)
                    &&& final(self).same_settings(*old(self))
                    &&& final(self).log_view() == old(self).log_view() + req@.entries
                    &&& final(self).state_machine@ == apply_commands(
                        old(self).state_machine@,
                        entries_commands(req@.entries),
                    )
                    &&& r.term == old(self).current_term
                    &&& r.success
                    &&& r.conflict_index == 0
                    &&& r.conflict_term == 0
                    &&& old(self).replays_log() ==> final(self).replays_log()
                },
                None => {
                    &&& !entries_decode(req@.entries)
                    &&& *final(self) == *old(self)
                },
            },
    {
        let n = req.entries.len();
        let mut i: usize = 0;
        while i < n
            invariant
                n == req.entries@.len(),
                i <= n,
                forall|k: int| 0 <= k < i ==> (decode_command(#[trigger] req@.entries[k].data) is Some),
            decreases n - i,
        {
            let probe = Command::try_deserialize(req.entries[i].data.as_slice());
            if probe.is_none() {
                assert(decode_command(req@.entries[i as int].data) is None);
                return None;
            }
            i = i + 1;
        }
        Some(self.handle_append_entries(req))
    }

    /// Takes one step of the proposal driver: a proposal joins the end of the
    /// pending batch, which is flushed once it holds `MAX_BATCH` proposals; on
    /// a timeout a batch that holds anything is flushed.
    pub fn driver_step<T>(batch: &mut Vec<T>, event: DriverEvent<T>) -> (action: DriverAction)
        ensures
            (final(batch)@, action is Flush) == driver_spec(old(batch)@, event),
    {
        match event {
            DriverEvent::Proposal(c) => {
                batch.push(c);
                if batch.len() >= MAX_BATCH {
                    DriverAction::Flush
                } else {
                    DriverAction::Wait
                }
            },
            DriverEvent::Timeout => {
                if batch.len() > 0 {
                    DriverAction::Flush
                } else {
                    DriverAction::Wait
                }
            },
        }
    }

    /// Flushes a batch of proposals. A node that is not the leader refuses
    /// them all with "Not Leader" and changes nothing. The leader appends one
    /// entry per command to its log (consecutive indices after the last one,
    /// its current term, the command's encoding), addresses an append request
    /// carrying those entries to every peer whose address does not contain its
    /// id, applies the commands to its store in order, and accepts them all.
    /// The batch is emptied either way.
    pub fn flush_batch(&mut self, batch: &mut Vec<Command>) -> (outcome: FlushOutcome)
        requires
            old(self).role == Role::Leader ==> old(self).log@.len() + old(batch)@.len() < u64::MAX,
        ensures
            final(batch)@.len() == 0,
            old(self).role != Role::Leader ==> {
                &&& *final(self) == *old(self)
                &&& outcome.reply matches Err(msg) && msg@ == "Not Leader"@
                &&& outcome.requests@.len() == 0
            },
            old(self).role == Role::Leader ==> {
                let cmds = commands_view(old(batch)@);
                let added = batch_entries(old(self).log@.len() + 1int, old(self).current_term, cmds);
                &&& final(self).same_settings(*old(self))
                &&& final(self).log_view() == old(self).log_view() + added
                &&& entries_carry(added, cmds)
                &&& final(self).state_machine@ == apply_commands(old(self).state_machine@, cmds)
                &&& old(self).replays_log() ==> final(self).replays_log()
                &&& outcome.reply is Ok
                &&& request_peers(outcome.requests@) == replication_targets(
                    strings_view(old(self).peers@),
                    old(self).id@,
                )
                &&& request_peers(outcome.requests@) == strings_view(old(self).peers@).filter(
                    |p: Seq<char>| !str_contains(p, old(self).id@),
                )
                &&& forall|j: int|
                    0 <= j < outcome.requests@.len() ==> (#[trigger] outcome.requests@[j]).request@
                        == (AppendEntriesRequestSpec {
                        term: old(self).current_term,
                        leader_id: old(self).id@,
                        prev_log_index: 0,
                        prev_log_term: 0,
                        entries: added,
                        leader_commit: old(self).commit_index,
                    })
            },
    {
        if self.role != Role::Leader {
            batch.clear();
            let msg = "Not Leader".to_owned();
            return FlushOutcome { reply: Err(msg), requests: Vec::new() };
        }
        let ghost start = *self;
        let ghost cmds = commands_view(batch@);
        let term = self.current_term;
        let start_index = self.log.len() as u64 + 1;
        let ghost added = batch_entries(start.log@.len() + 1int, term, cmds);

        // The new entries, one per command.
        let n = batch.len();
        let mut entries: Vec<LogEntry> = Vec::new();
        let mut i: usize = 0;
        while i < n
            invariant
                n == batch@.len(),
                cmds == commands_view(batch@),
                start_index == start.log@.len() + 1,
                start.log@.len() + n < u64::MAX,
                added == batch_entries(start.log@.len() + 1int, term, cmds),
                i <= n,
                entries_view(entries@) == added.take(i as int),
                forall|k: int| 0 <= k < i ==> decode_command(#[trigger] added[k].data) == Some(cmds[k]),
            decreases n - i,
        {
            let data = batch[i].serialize();
            let entry = LogEntry { index: start_index + i as u64, term, data };
            entries.push(entry);
            assert(added.take(i + 1) =~= added.take(i as int).push(added[i as int]));
            i = i + 1;
        }

        // Append them to the log.
        let mut i: usize = 0;
        while i < n
            invariant
                n == entries@.len(),
                entries_view(entries@) == added,
                i <= n,
                self.same_settings(start),
                self.state_machine == start.state_machine,
                self.log_view() == start.log_view() + added.take(i as int),
            decreases n - i,
        {
            let ghost before = self.log_view();
            self.log.push(entries[i].duplicate());
            assert(self.log_view() =~= before.push(added[i as int]));
            i = i + 1;
        }

        // Address the entries to every peer but the leader itself.
        let ghost peers = strings_view(self.peers@);
        let mut requests: Vec<PeerRequest> = Vec::new();
        let np = self.peers.len();
        let mut p: usize = 0;
        while p < np
            invariant
                np == self.peers@.len(),
                peers == strings_view(self.peers@),
                self.id == start.id,
                self.commit_index == start.commit_index,
                entries_view(entries@) == added,
                p <= np,
                request_peers(requests@) == replication_targets(peers.take(p as int), start.id@),
                forall|j: int|
                    0 <= j < requests@.len() ==> (#[trigger] requests@[j]).request@
                        == (AppendEntriesRequestSpec {
                        term: term,
                        leader_id: start.id@,
                        prev_log_index: 0,
                        prev_log_term: 0,
                        entries: added,
                        leader_commit: start.commit_index,
                    }),
            decreases np - p,
        {
            let peer = &self.peers[p];
            proof {
                assert(peers.take(p + 1).drop_last() =~= peers.take(p as int));
            }
            if !contains(peer.as_str(), self.id.as_str()) {
                let request = AppendEntriesRequest {
                    term,
                    leader_id: self.id.clone(),
                    prev_log_index: 0,
                    prev_log_term: 0,
                    entries: duplicate_entries(&entries),
                    leader_commit: self.commit_index,
                };
                requests.push(PeerRequest { peer: peer.clone(), request });
            }
            p = p + 1;
        }
        assert(peers.take(np as int) =~= peers);
        proof {
            lemma_replication_targets_filter(peers, start.id@);
        }

        // Apply the commands to the store, in order.
        let mut i: usize = 0;
        while i < n
            invariant
                n == batch@.len(),
                cmds == commands_view(batch@),
                i <= n,
                self.same_settings(start),
                self.log_view() == start.log_view() + added,
                self.state_machine@ == apply_commands(start.state_machine@, cmds.take(i as int)),
            decreases n - i,
        {
            self.state_machine.apply(&batch[i]);
            assert(cmds.take(i + 1).drop_last() =~= cmds.take(i as int));
            i = i + 1;
        }
        assert(cmds.take(n as int) =~= cmds);
        proof {
            assert(entries_commands(added) =~= cmds);
            lemma_replay_extends(start, *self, added, cmds);
        }
        batch.clear();
        FlushOutcome { reply: Ok(()), requests }
    }
}

/// Appending entries that decode to `cmds` while applying `cmds` to the store
/// keeps the store the replay of the log.
proof fn lemma_replay_extends(before: RaftNode, after: RaftNode, added: Seq<LogEntrySpec>, cmds: Seq<CommandView>)
    requires
        entries_decode(added),
        entries_commands(added) == cmds,
        after.log_view() == before.log_view() + added,
        after.state_machine@ == apply_commands(before.state_machine@, cmds),
    ensures
        before.replays_log() ==> after.replays_log(),
{
    if before.replays_log() {
        let old_cmds = entries_commands(before.log_view());
        assert(entries_commands(after.log_view()) =~= old_cmds + cmds);
        lemma_batches_compose(Map::empty(), old_cmds, cmds);
    }
}

} // verus!
