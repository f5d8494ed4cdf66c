//! What the HTTP handlers compute: the value read for a key, the command a
//! write or a delete proposes, and the status code a proposal's outcome gets.

use vstd::prelude::*;
use crate::command::{Command, CommandView};
use crate::raft_node::RaftNode;

verus! {

/// The body of a write request.
pub struct SetRequest {
    pub value: String,
}

/// The value the node's store holds under a key, if any.
pub fn get_key(node: &RaftNode, key: &String) -> (value: Option<String>)
    ensures
        match value {
            Some(v) => node.state_machine@.contains_key(key@) && node.state_machine@[key@] == v@,
            None => !node.state_machine@.contains_key(key@),
        },
{
    node.state_machine.get(key)
}

/// The command that a write of `payload` under `key` proposes.
pub fn set_key(key: String, payload: SetRequest) -> (cmd: Command)
    ensures
        cmd@ == (CommandView::Put { key: key@, value: payload.value@ }),
{
    Command::Put { key, value: payload.value }
}

/// The command that a delete of `key` proposes.
pub fn delete_key(key: String) -> (cmd: Command)
    ensures
        cmd@ == (CommandView::Del { key: key@ }),
{
    Command::Del { key }
}

/// The HTTP status a write or delete answers with: 200 once the proposal is
/// accepted, 500 when it is refused.
pub fn proposal_status(outcome: &Result<(), String>) -> (status: u16)
    ensures
        outcome is Ok ==> status == 200,
        outcome is Err ==> status == 500,
{
    match outcome {
        Ok(_) => 200,
        Err(_) => 500,
    }
}

} // verus!
