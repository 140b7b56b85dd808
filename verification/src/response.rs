//! What an agent request sends and the answer a local model's conversation is
//! turned into.

use vstd::prelude::*;
use crate::messages::ov;

verus! {

/// The working directory of a session, `.` when unknown.
pub open spec fn spec_working_directory(cwd: Option<Seq<char>>) -> Seq<char> {
    match cwd {
        Some(c) => c,
        None => "."@,
    }
}

/// The working directory an agent conversation runs in.
pub fn working_directory(cwd: Option<String>) -> (r: String)
    ensures
        r@ == spec_working_directory(ov(cwd)),
{
    match cwd {
        Some(c) => c,
        None => String::from_str("."),
    }
}

/// The conversation a request is forked from, sent only with the first
/// request of the fork, before the conversation has an id of its own.
pub open spec fn spec_forked_from_id(conversation_token: Option<Seq<char>>, forked_from: Option<Seq<char>>) -> Seq<char> {
    match conversation_token {
        None => match forked_from {
            Some(f) => f,
            None => Seq::empty(),
        },
        Some(_) => Seq::empty(),
    }
}

/// The id of the conversation a request is forked from, or empty.
pub fn forked_from_conversation_id(conversation_token: &Option<String>, forked_from: Option<String>) -> (r: String)
    ensures
        r@ == spec_forked_from_id(ov(*conversation_token), ov(forked_from)),
{
    match conversation_token {
        None => match forked_from {
            Some(f) => f,
            None => String::new(),
        },
        Some(_) => String::new(),
    }
}

/// A value in a request's logging metadata.
#[derive(Clone, Debug)]
pub enum MetadataValue {
    Bool(bool),
    Text(String),
}

/// The logging metadata of a request: whether the query was detected
/// automatically, where it was entered, and whether it resumes after an error.
pub fn logging_metadata(is_autodetected_user_query: bool, entrypoint: String, is_auto_resume_after_error: bool) -> (r: Vec<(String, MetadataValue)>)
    ensures
        r@.len() == 3,
        r@[0].0@ == "is_autodetected_user_query"@,
        r@[0].1 == MetadataValue::Bool(is_autodetected_user_query),
        r@[1].0@ == "entrypoint"@,
        r@[1].1 matches MetadataValue::Text(e) && e@ == entrypoint@,
        r@[2].0@ == "is_auto_resume_after_error"@,
        r@[2].1 == MetadataValue::Bool(is_auto_resume_after_error),
{
    let mut r: Vec<(String, MetadataValue)> = Vec::new();
    r.push((String::from_str("is_autodetected_user_query"), MetadataValue::Bool(is_autodetected_user_query)));
    r.push((String::from_str("entrypoint"), MetadataValue::Text(entrypoint)));
    r.push((String::from_str("is_auto_resume_after_error"), MetadataValue::Bool(is_auto_resume_after_error)));
    r
}

/// The answer of a local model, as the events of a response stream carry it:
/// the stream starts with `request_id` for the conversation `conversation_id`,
/// creates the task `task_id` if `create_task`, adds the message `message_id`
/// with `text` to it, and finishes.
#[derive(Clone, Debug)]
pub struct LocalResponsePlan {
    pub request_id: String,
    pub conversation_id: String,
    pub task_id: String,
    pub create_task: bool,
    pub message_id: String,
    pub text: String,
}

/// Lays out the answer of a local model: it joins the request's existing task,
/// or a new one created for it, under the message id `local-message-<request id>`.
pub fn plan_local_response(
    request_id: String,
    conversation_token: Option<String>,
    existing_task_id: Option<String>,
    new_task_id: String,
    text: String,
) -> (r: LocalResponsePlan)
    ensures
        r.request_id@ == request_id@,
        r.conversation_id@ == (match ov(conversation_token) {
            Some(t) => t,
            None => Seq::empty(),
        }),
        r.task_id@ == (match ov(existing_task_id) {
            Some(t) => t,
            None => new_task_id@,
        }),
        r.create_task == existing_task_id is None,
        r.message_id@ == "local-message-"@ + request_id@,
        r.text@ == text@,
{
    let (task_id, create_task) = match existing_task_id {
        Some(t) => (t, false),
        None => (new_task_id, true),
    };
    let conversation_id = match conversation_token {
        Some(t) => t,
        None => String::new(),
    };
    let message_id = String::from_str("local-message-").concat(request_id.as_str());
    LocalResponsePlan { request_id, conversation_id, task_id, create_task, message_id, text }
}

} // verus!
