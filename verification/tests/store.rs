use raft_kv::api::{delete_key, get_key, proposal_status, set_key, SetRequest};
use raft_kv::command::Command;
use raft_kv::raft::{AppendEntriesRequest, LogEntry, RequestVoteRequest};
use raft_kv::raft_node::{DriverAction, DriverEvent, RaftNode, Role, MAX_BATCH};
use raft_kv::state_machine::StateMachine;
use raft_kv::text::contains;

fn put(k: &str, v: &str) -> Command {
    Command::Put { key: k.to_string(), value: v.to_string() }
}

fn del(k: &str) -> Command {
    Command::Del { key: k.to_string() }
}

fn same_command(a: &Command, b: &Command) -> bool {
    match (a, b) {
        (Command::Put { key: k1, value: v1 }, Command::Put { key: k2, value: v2 }) => k1 == k2 && v1 == v2,
        (Command::Del { key: k1 }, Command::Del { key: k2 }) => k1 == k2,
        _ => false,
    }
}

fn peers() -> Vec<String> {
    vec![
        "http://127.0.0.1:50051/node-1".to_string(),
        "http://node-2:50052".to_string(),
        "http://node-3:50053".to_string(),
    ]
}

fn leader() -> RaftNode {
    let mut node = RaftNode::new("node-1".to_string(), peers());
    node.role = Role::Leader;
    node.current_term = 3;
    node.commit_index = 7;
    node
}

#[test]
fn serialize_put_has_bincode_layout() {
    let bytes = put("a", "bc").serialize();
    let expected: Vec<u8> = vec![
        0, 0, 0, 0, // variant index of Put
        1, 0, 0, 0, 0, 0, 0, 0, b'a', // key
        2, 0, 0, 0, 0, 0, 0, 0, b'b', b'c', // value
    ];
    assert_eq!(bytes, expected);
}

#[test]
fn serialize_del_has_bincode_layout() {
    let bytes = del("key").serialize();
    let expected: Vec<u8> = vec![1, 0, 0, 0, 3, 0, 0, 0, 0, 0, 0, 0, b'k', b'e', b'y'];
    assert_eq!(bytes, expected);
}

#[test]
fn serialize_then_deserialize_gives_command_back() {
    for cmd in [put("user1", "alice"), put("", ""), del("user1"), put("ключ", "värde")] {
        let back = Command::deserialize(&cmd.serialize());
        assert!(same_command(&back, &cmd));
    }
}

#[test]
fn deserialize_reads_hand_written_bytes() {
    let bytes: Vec<u8> = vec![1, 0, 0, 0, 1, 0, 0, 0, 0, 0, 0, 0, b'z'];
    assert!(same_command(&Command::deserialize(&bytes), &del("z")));
}

#[test]
fn try_deserialize_refuses_bad_bytes() {
    assert!(Command::try_deserialize(&[]).is_none());
    assert!(Command::try_deserialize(&[2, 0, 0, 0]).is_none());
    assert!(Command::try_deserialize(&[0, 0, 0, 0, 5, 0, 0, 0, 0, 0, 0, 0, b'a']).is_none());
    assert!(Command::try_deserialize(&[1, 0, 0, 0, 1, 0, 0, 0, 0, 0, 0, 0, 0xff]).is_none());
    let ok = Command::try_deserialize(&del("q").serialize());
    assert!(same_command(&ok.unwrap(), &del("q")));
}

#[test]
fn state_machine_applies_put_and_del() {
    let mut sm = StateMachine::new();
    let key = "user1".to_string();
    assert_eq!(sm.get(&key), None);
    sm.apply(&put("user1", "alice"));
    assert_eq!(sm.get(&key), Some("alice".to_string()));
    sm.apply(&put("user1", "bob"));
    assert_eq!(sm.get(&key), Some("bob".to_string()));
    sm.apply(&put("user2", "carol"));
    sm.apply(&del("user1"));
    assert_eq!(sm.get(&key), None);
    assert_eq!(sm.get(&"user2".to_string()), Some("carol".to_string()));
    sm.apply(&del("absent"));
    assert_eq!(sm.get(&"user2".to_string()), Some("carol".to_string()));
}

#[test]
fn new_node_is_an_empty_follower() {
    let node = RaftNode::new("node-9".to_string(), peers());
    assert_eq!(node.id, "node-9");
    assert_eq!(node.peers, peers());
    assert_eq!(node.current_term, 0);
    assert_eq!(node.voted_for, None);
    assert!(node.log.is_empty());
    assert_eq!(node.commit_index, 0);
    assert_eq!(node.last_applied, 0);
    assert_eq!(node.role, Role::Follower);
    assert_eq!(node.leader_id, None);
    assert_eq!(get_key(&node, &"x".to_string()), None);
}

#[test]
fn follower_refuses_a_batch() {
    let mut node = RaftNode::new("node-2".to_string(), peers());
    let mut batch = vec![put("user1", "alice"), del("user2")];
    let outcome = node.flush_batch(&mut batch);
    assert_eq!(outcome.reply, Err("Not Leader".to_string()));
    assert!(outcome.requests.is_empty());
    assert!(batch.is_empty());
    assert!(node.log.is_empty());
    assert_eq!(get_key(&node, &"user1".to_string()), None);
}

#[test]
fn candidate_refuses_a_batch() {
    let mut node = RaftNode::new("node-2".to_string(), peers());
    node.role = Role::Candidate;
    let mut batch = vec![put("user1", "alice")];
    let outcome = node.flush_batch(&mut batch);
    assert_eq!(outcome.reply, Err("Not Leader".to_string()));
    assert!(node.log.is_empty());
}

#[test]
fn leader_flush_appends_applies_and_addresses_peers() {
    let mut node = leader();
    let mut batch = vec![put("user1", "alice"), put("user2", "bob"), del("user1")];
    let outcome = node.flush_batch(&mut batch);
    assert_eq!(outcome.reply, Ok(()));
    assert!(batch.is_empty());
    assert_eq!(node.log.len(), 3);
    for (i, e) in node.log.iter().enumerate() {
        assert_eq!(e.index, i as u64 + 1);
        assert_eq!(e.term, 3);
    }
    assert!(same_command(&Command::deserialize(&node.log[0].data), &put("user1", "alice")));
    assert!(same_command(&Command::deserialize(&node.log[2].data), &del("user1")));
    assert_eq!(get_key(&node, &"user1".to_string()), None);
    assert_eq!(get_key(&node, &"user2".to_string()), Some("bob".to_string()));
    let targets: Vec<String> = outcome.requests.iter().map(|r| r.peer.clone()).collect();
    assert_eq!(targets, vec!["http://node-2:50052".to_string(), "http://node-3:50053".to_string()]);
    for r in &outcome.requests {
        assert_eq!(r.request.term, 3);
        assert_eq!(r.request.leader_id, "node-1");
        assert_eq!(r.request.prev_log_index, 0);
        assert_eq!(r.request.prev_log_term, 0);
        assert_eq!(r.request.leader_commit, 7);
        assert_eq!(r.request.entries.len(), 3);
        for (a, b) in r.request.entries.iter().zip(node.log.iter()) {
            assert_eq!(a.index, b.index);
            assert_eq!(a.term, b.term);
            assert_eq!(a.data, b.data);
        }
    }
    // The node's settings are untouched.
    assert_eq!(node.role, Role::Leader);
    assert_eq!(node.current_term, 3);
    assert_eq!(node.commit_index, 7);
}

#[test]
fn second_flush_continues_the_numbering() {
    let mut node = leader();
    let mut first = vec![put("a", "1")];
    node.flush_batch(&mut first);
    let mut second = vec![put("b", "2"), put("c", "3")];
    node.flush_batch(&mut second);
    let indices: Vec<u64> = node.log.iter().map(|e| e.index).collect();
    assert_eq!(indices, vec![1, 2, 3]);
}

#[test]
fn leader_with_empty_id_addresses_nobody() {
    let mut node = RaftNode::new(String::new(), peers());
    node.role = Role::Leader;
    let mut batch = vec![put("k", "v")];
    let outcome = node.flush_batch(&mut batch);
    assert_eq!(outcome.reply, Ok(()));
    assert!(outcome.requests.is_empty());
}

#[test]
fn follower_appends_and_applies_entries() {
    let mut node = RaftNode::new("node-2".to_string(), peers());
    node.current_term = 5;
    let req = AppendEntriesRequest {
        term: 9,
        leader_id: "node-1".to_string(),
        prev_log_index: 0,
        prev_log_term: 0,
        entries: vec![
            LogEntry { index: 1, term: 9, data: put("x", "1").serialize() },
            LogEntry { index: 2, term: 9, data: put("y", "2").serialize() },
            LogEntry { index: 3, term: 9, data: del("x").serialize() },
        ],
        leader_commit: 0,
    };
    let resp = node.handle_append_entries(req);
    assert_eq!(resp.term, 5);
    assert!(resp.success);
    assert_eq!(resp.conflict_index, 0);
    assert_eq!(resp.conflict_term, 0);
    assert_eq!(node.log.len(), 3);
    assert_eq!(node.log[2].index, 3);
    assert_eq!(get_key(&node, &"x".to_string()), None);
    assert_eq!(get_key(&node, &"y".to_string()), Some("2".to_string()));
    assert_eq!(node.current_term, 5);
    assert_eq!(node.role, Role::Follower);
}

#[test]
fn follower_refuses_undecodable_entries() {
    let mut node = RaftNode::new("node-2".to_string(), peers());
    let req = AppendEntriesRequest {
        term: 1,
        leader_id: "node-1".to_string(),
        prev_log_index: 0,
        prev_log_term: 0,
        entries: vec![
            LogEntry { index: 1, term: 1, data: put("x", "1").serialize() },
            LogEntry { index: 2, term: 1, data: vec![9, 9, 9] },
        ],
        leader_commit: 0,
    };
    assert!(node.try_handle_append_entries(req).is_none());
    assert!(node.log.is_empty());
    assert_eq!(get_key(&node, &"x".to_string()), None);
}

#[test]
fn follower_accepts_decodable_entries_through_the_checked_path() {
    let mut node = RaftNode::new("node-2".to_string(), peers());
    let req = AppendEntriesRequest {
        term: 1,
        leader_id: "node-1".to_string(),
        prev_log_index: 0,
        prev_log_term: 0,
        entries: vec![LogEntry { index: 1, term: 1, data: put("x", "1").serialize() }],
        leader_commit: 0,
    };
    let resp = node.try_handle_append_entries(req).unwrap();
    assert!(resp.success);
    assert_eq!(get_key(&node, &"x".to_string()), Some("1".to_string()));
}

#[test]
fn empty_append_request_changes_nothing() {
    let mut node = RaftNode::new("node-2".to_string(), peers());
    let req = AppendEntriesRequest {
        term: 1,
        leader_id: "node-1".to_string(),
        prev_log_index: 0,
        prev_log_term: 0,
        entries: Vec::new(),
        leader_commit: 0,
    };
    let resp = node.handle_append_entries(req);
    assert!(resp.success);
    assert!(node.log.is_empty());
}

#[test]
fn votes_are_always_granted_in_the_current_term() {
    let mut node = RaftNode::new("node-2".to_string(), peers());
    node.current_term = 4;
    let resp = node.handle_request_vote(RequestVoteRequest {
        term: 1,
        candidate_id: "node-3".to_string(),
        last_log_index: 0,
        last_log_term: 0,
    });
    assert_eq!(resp.term, 4);
    assert!(resp.vote_granted);
}

#[test]
fn driver_flushes_a_full_batch() {
    let mut batch: Vec<Command> = Vec::new();
    for i in 0..MAX_BATCH - 1 {
        let action = RaftNode::driver_step(&mut batch, DriverEvent::Proposal(put(&i.to_string(), "v")));
        assert!(matches!(action, DriverAction::Wait));
    }
    assert_eq!(batch.len(), 999);
    let action = RaftNode::driver_step(&mut batch, DriverEvent::Proposal(put("last", "v")));
    assert!(matches!(action, DriverAction::Flush));
    assert_eq!(batch.len(), 1000);
}

#[test]
fn driver_flushes_on_timeout_only_when_something_waits() {
    let mut batch: Vec<Command> = Vec::new();
    assert!(matches!(RaftNode::driver_step(&mut batch, DriverEvent::Timeout), DriverAction::Wait));
    RaftNode::driver_step(&mut batch, DriverEvent::Proposal(del("k")));
    assert!(matches!(RaftNode::driver_step(&mut batch, DriverEvent::Timeout), DriverAction::Flush));
    assert_eq!(batch.len(), 1);
}

#[test]
fn contains_matches_str_contains() {
    let cases = [
        ("http://node-1:50051", "node-1", true),
        ("http://node-10:50051", "node-1", true),
        ("http://node-2:50052", "node-1", false),
        ("abc", "", true),
        ("", "", true),
        ("", "a", false),
        ("ab", "abc", false),
        ("ääb", "äb", true),
        ("aab", "ab", true),
    ];
    for (hay, needle, expected) in cases {
        assert_eq!(contains(hay, needle), expected);
        assert_eq!(hay.contains(needle), expected);
    }
}

#[test]
fn api_builds_the_commands_it_proposes() {
    let cmd = set_key("user1".to_string(), SetRequest { value: "alice".to_string() });
    assert!(same_command(&cmd, &put("user1", "alice")));
    assert!(same_command(&delete_key("user1".to_string()), &del("user1")));
    assert_eq!(proposal_status(&Ok(())), 200);
    assert_eq!(proposal_status(&Err("Not Leader".to_string())), 500);
}
