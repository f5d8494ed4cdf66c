//! The messages that Raft nodes exchange.

use vstd::prelude::*;

verus! {

/// One entry of the replicated log: its position (counted from 1), the term
/// it was created in, and the encoded command.
pub struct LogEntry {
    pub index: u64,
    pub term: u64,
    pub data: Vec<u8>,
}

/// The meaning of a log entry.
pub struct LogEntrySpec {
    pub index: u64,
    pub term: u64,
    pub data: Seq<u8>,
}

impl View for LogEntry {
    type V = LogEntrySpec;

    open spec fn view(&self) -> LogEntrySpec {
        LogEntrySpec { index: self.index, term: self.term, data: self.data@ }
    }
}

/// The meaning of a sequence of log entries.
pub open spec fn entries_view(entries: Seq<LogEntry>) -> Seq<LogEntrySpec> {
    entries.map_values(|e: LogEntry| e@)
}

impl LogEntry {
    /// A copy of the entry.
    pub fn duplicate(&self) -> (copy: LogEntry)
        ensures
            copy@ == self@,
    {
        let mut data: Vec<u8> = Vec::new();
        let n = self.data.len();
        let mut i: usize = 0;
        while i < n
            invariant
                n == self.data@.len(),
                i <= n,
                data@ == self.data@.subrange(0, i as int),
            decreases n - i,
        {
            data.push(self.data[i]);
            i = i + 1;
        }
        assert(data@ =~= self.data@);
        LogEntry { index: self.index, term: self.term, data }
    }
}

/// A copy of a sequence of log entries.
pub fn duplicate_entries(entries: &Vec<LogEntry>) -> (copy: Vec<LogEntry>)
    ensures
        entries_view(copy@) == entries_view(entries@),
{
    let mut copy: Vec<LogEntry> = Vec::new();
    let n = entries.len();
    let mut i: usize = 0;
    while i < n
        invariant
            n == entries@.len(),
            i <= n,
            copy@.len() == i,
            entries_view(copy@) == entries_view(entries@).subrange(0, i as int),
        decreases n - i,
    {
        let e = entries[i].duplicate();
        copy.push(e);
        i = i + 1;
    }
    copy
}

/// A candidate's request for a vote.
pub struct RequestVoteRequest {
    pub term: u64,
    pub candidate_id: String,
    pub last_log_index: u64,
    pub last_log_term: u64,
}

/// The answer to a vote request.
pub struct RequestVoteResponse {
    pub term: u64,
    pub vote_granted: bool,
}

/// A leader's request to append entries to a follower's log.
pub struct AppendEntriesRequest {
    pub term: u64,
    pub leader_id: String,
    pub prev_log_index: u64,
    pub prev_log_term: u64,
    pub entries: Vec<LogEntry>,
    pub leader_commit: u64,
}

/// The meaning of an append request.
pub struct AppendEntriesRequestSpec {
    pub term: u64,
    pub leader_id: Seq<char>,
    pub prev_log_index: u64,
    pub prev_log_term: u64,
    pub entries: Seq<LogEntrySpec>,
    pub leader_commit: u64,
}

impl View for AppendEntriesRequest {
    type V = AppendEntriesRequestSpec;

    open spec fn view(&self) -> AppendEntriesRequestSpec {
        AppendEntriesRequestSpec {
            term: self.term,
            leader_id: self.leader_id@,
            prev_log_index: self.prev_log_index,
            prev_log_term: self.prev_log_term,
            entries: entries_view(self.entries@),
            leader_commit: self.leader_commit,
        }
    }
}

/// A follower's answer to an append request.
pub struct AppendEntriesResponse {
    pub term: u64,
    pub success: bool,
    pub conflict_index: u64,
    pub conflict_term: u64,
}

} // verus!
