use vstd::prelude::*;

use crate::decimal::{decimal_string, decimal_text};
use crate::registry::ConnectedUsers;

verus! {

/// Whether a submitted answer is taken.
#[derive(Clone, Copy, Debug, PartialEq, Eq, Structural)]
pub enum AnswerVerdict {
    /// The client is streaming a countdown right now.
    Accepted,
    /// The client is not streaming: never connected, gone, or finished.
    Rejected,
}

/// The verdict on an answer from `id` while the registry holds `registry`.
pub open spec fn verdict_for(registry: Set<Seq<char>>, id: Seq<char>) -> AnswerVerdict {
    if registry.contains(id) {
        AnswerVerdict::Accepted
    } else {
        AnswerVerdict::Rejected
    }
}

/// Decides on an answer from `user_id`: accepted exactly when the client is
/// registered. The registry is only read.
pub fn save_answers(users: &ConnectedUsers, user_id: &String) -> (r: AnswerVerdict)
    ensures
        r == verdict_for(users@, user_id@),
{
    if !users.has_user(user_id) {
        return AnswerVerdict::Rejected;
    }
    AnswerVerdict::Accepted
}

/// The number of connected clients, in decimal.
pub fn connected_users(users: &mut ConnectedUsers) -> (r: String)
    requires
        old(users).wf(),
    ensures
        final(users).wf(),
        final(users)@ == old(users)@,
        r@ == decimal_text(old(users)@.len()),
{
    let count = users.get_connect_users_count();
    decimal_string(count as u64)
}

} // verus!
