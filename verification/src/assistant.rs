//! The assistant's chat: the events streamed to the screen and the saved sessions' list
//! records. The assistant only reads and explains; it writes nothing to the store.

use vstd::prelude::*;
use crate::text::str_eq;

verus! {

/// A streamed event: the model started thinking, or a piece of the answer arrived.
#[derive(Debug, Clone)]
pub enum AssistantEvent {
    Thinking,
    Chunk { text: String },
}

/// A saved chat as listed: no message bodies, only what the list shows.
#[derive(Debug, Clone)]
pub struct ChatSessionMeta {
    pub id: i64,
    pub title: String,
    /// The context sources, a comma-separated list of keys (may be empty).
    pub tool_page: String,
    pub messages: i64,
    pub model: String,
    pub updated_at: String,
}

/// Most chats kept; older ones are dropped when a new one is saved.
pub const MAX_SESSIONS: usize = 50;

/// Position of the first message written by the user (the new chat's title comes from it).
pub open spec fn first_user(roles: Seq<String>) -> Option<int>
    decreases roles.len(),
{
    if roles.len() == 0 {
        None
    } else {
        match first_user(roles.drop_last()) {
            Some(i) => Some(i),
            None => if roles.last()@ == "user"@ {
                Some(roles.len() - 1)
            } else {
                None
            },
        }
    }
}

proof fn lemma_first_user_prefix(roles: Seq<String>, k: int)
    requires
        0 <= k <= roles.len(),
        first_user(roles.take(k)) is Some,
    ensures
        first_user(roles) == first_user(roles.take(k)),
    decreases roles.len(),
{
    if k < roles.len() {
        assert(roles.drop_last().take(k) == roles.take(k));
        lemma_first_user_prefix(roles.drop_last(), k);
    } else {
        assert(roles.take(k) == roles);
    }
}

pub fn title_message(roles: &[String]) -> (r: Option<usize>)
    ensures
        match r {
            Some(i) => first_user(roles@) == Some(i as int) && i < roles@.len(),
            None => first_user(roles@) is None,
        },
{
    let mut i: usize = 0;
    while i < roles.len()
        invariant
            i <= roles@.len(),
            first_user(roles@.take(i as int)) is None,
        decreases roles@.len() - i,
    {
        assert(roles@.take(i + 1).drop_last() == roles@.take(i as int));
        if str_eq(roles[i].as_str(), "user") {
            proof {
                lemma_first_user_prefix(roles@, i + 1);
            }
            return Some(i);
        }
        i = i + 1;
    }
    assert(roles@.take(roles@.len() as int) == roles@);
    None
}

/// A chat can be saved only with at least one message.
pub fn save_check(message_count: usize) -> (r: Result<(), String>)
    ensures
        r is Ok <==> message_count > 0,
        r matches Err(e) ==> e@ == "Kaydedilecek mesaj yok."@,
{
    if message_count == 0 {
        return Err(crate::text::string_of(crate::text::chars_of("Kaydedilecek mesaj yok.").as_slice()));
    }
    Ok(())
}

} // verus!
