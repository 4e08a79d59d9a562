//! Conversation checkpoints: what a new checkpoint records, and which
//! conversation a checkpoint may be restored into.

use vstd::prelude::*;

verus! {

/// A saved state of a conversation: its messages as JSON, and where it
/// branches from.
#[derive(Debug, Clone)]
pub struct Checkpoint {
    pub id: String,
    pub conversation_id: i64,
    pub checkpoint_name: String,
    pub description: Option<String>,
    pub message_count: usize,
    pub messages_snapshot: String,
    pub context_snapshot: Option<String>,
    pub metadata: Option<String>,
    pub parent_checkpoint_id: Option<String>,
    pub branch_name: Option<String>,
    pub created_at: i64,
}

/// A request to save a checkpoint of a conversation.
#[derive(Debug)]
pub struct CreateCheckpointRequest {
    pub conversation_id: i64,
    pub checkpoint_name: String,
    pub description: Option<String>,
    pub parent_checkpoint_id: Option<String>,
    pub branch_name: Option<String>,
}

/// A request to restore a conversation to a checkpoint.
#[derive(Debug)]
pub struct RestoreCheckpointRequest {
    pub checkpoint_id: String,
    pub conversation_id: i64,
}

/// The checkpoint that a request saves, given its new id, the time it is
/// taken, and the conversation's messages (their number and their JSON):
/// it keeps what the request names and records no context or metadata.
pub fn checkpoint_from_request(
    request: CreateCheckpointRequest,
    id: String,
    created_at: i64,
    message_count: usize,
    messages_snapshot: String,
) -> (r: Checkpoint)
    ensures
        r.id == id,
        r.conversation_id == request.conversation_id,
        r.checkpoint_name == request.checkpoint_name,
        r.description == request.description,
        r.message_count == message_count,
        r.messages_snapshot == messages_snapshot,
        r.context_snapshot is None,
        r.metadata is None,
        r.parent_checkpoint_id == request.parent_checkpoint_id,
        r.branch_name == request.branch_name,
        r.created_at == created_at,
{
    Checkpoint {
        id,
        conversation_id: request.conversation_id,
        checkpoint_name: request.checkpoint_name,
        description: request.description,
        message_count,
        messages_snapshot,
        context_snapshot: None,
        metadata: None,
        parent_checkpoint_id: request.parent_checkpoint_id,
        branch_name: request.branch_name,
        created_at,
    }
}

/// A checkpoint may only be restored into the conversation it was taken
/// of; anything else is refused.
pub fn check_restore_target(checkpoint: &Checkpoint, request: &RestoreCheckpointRequest) -> (r: Result<(), String>)
    ensures
        checkpoint.conversation_id == request.conversation_id <==> r is Ok,
        r matches Err(e) ==> e@ == "Checkpoint does not belong to this conversation"@,
{
    if checkpoint.conversation_id != request.conversation_id {
        Err("Checkpoint does not belong to this conversation".to_owned())
    } else {
        Ok(())
    }
}

} // verus!
