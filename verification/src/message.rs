//! The parts of a chat-completion request as the gateway reads them: each
//! message with its role, its content and its compact JSON text, and the
//! further parameters with theirs. A key is looked up among the parameters
//! from the front: the first parameter with that key is the one that counts.

use vstd::prelude::*;
use crate::text::str_eq;

verus! {

/// One element of an array-shaped message content.
#[derive(Debug)]
pub struct ContentPart {
    /// The part's `type`, when it is a string.
    pub kind: Option<String>,
    /// The part's `text`, when it is a string.
    pub text: Option<String>,
}

/// The `content` of a message.
#[derive(Debug)]
pub enum MessageContent {
    /// A plain string.
    Text(String),
    /// An array of parts.
    Parts(Vec<ContentPart>),
    /// Absent, or of any other shape.
    Other,
}

/// One message of a request.
#[derive(Debug)]
pub struct ChatMessage {
    /// The message's `role`, when it is a string.
    pub role: Option<String>,
    pub content: MessageContent,
    /// The message as compact JSON text.
    pub encoded: String,
}

/// What the gateway reads of a parameter's value.
#[derive(Debug)]
pub enum ExtraValue {
    /// A string.
    Text(String),
    /// An array of that many elements.
    Array(usize),
    /// Any other shape.
    Other,
}

/// One parameter of a request besides `model` and `messages`.
#[derive(Debug)]
pub struct ExtraParam {
    pub key: String,
    pub value: ExtraValue,
    /// The value as compact JSON text.
    pub encoded: String,
}

/// The role of a message; empty when the message has none.
pub open spec fn role_text(m: ChatMessage) -> Seq<char> {
    match m.role {
        Some(r) => r@,
        None => Seq::empty(),
    }
}

/// Whether the message's role is `role`.
pub fn has_role(m: &ChatMessage, role: &str) -> (r: bool)
    ensures
        r == (role_text(*m) == role@),
{
    match &m.role {
        Some(have) => str_eq(have.as_str(), role),
        None => {
            let empty = role.unicode_len() == 0;
            assert(empty == (role@ =~= Seq::<char>::empty()));
            empty
        },
    }
}

/// The index of the first parameter with key `key` at or after `from`.
pub open spec fn find_extra_from(extra: Seq<ExtraParam>, key: Seq<char>, from: int) -> Option<int>
    decreases extra.len() - from,
{
    if from < 0 || from >= extra.len() {
        None
    } else if extra[from].key@ == key {
        Some(from)
    } else {
        find_extra_from(extra, key, from + 1)
    }
}

/// The index of the first parameter with key `key`.
pub open spec fn find_extra(extra: Seq<ExtraParam>, key: Seq<char>) -> Option<int> {
    find_extra_from(extra, key, 0)
}

/// What `find_extra` returns is a position that holds the key.
pub proof fn lemma_find_extra_in_range(extra: Seq<ExtraParam>, key: Seq<char>, from: int)
    ensures
        match find_extra_from(extra, key, from) {
            Some(i) => from <= i < extra.len() && extra[i].key@ == key && forall|j: int|
                from <= j < i ==> extra[j].key@ != key,
            None => forall|j: int| 0 <= from <= j < extra.len() ==> extra[j].key@ != key,
        },
    decreases extra.len() - from,
{
    if 0 <= from < extra.len() && extra[from].key@ != key {
        lemma_find_extra_in_range(extra, key, from + 1);
    }
}

/// Looks a parameter up by key.
pub fn lookup_extra<'a>(extra: &'a Vec<ExtraParam>, key: &str) -> (r: Option<&'a ExtraParam>)
    ensures
        match r {
            Some(p) => find_extra(extra@, key@) is Some && *p == extra@[find_extra(
                extra@,
                key@,
            )->0],
            None => find_extra(extra@, key@) is None,
        },
{
    let wanted = key.to_owned();
    let mut i: usize = 0;
    while i < extra.len()
        invariant
            i <= extra.len(),
            wanted@ == key@,
            find_extra(extra@, key@) == find_extra_from(extra@, key@, i as int),
        decreases extra.len() - i,
    {
        if extra[i].key == wanted {
            return Some(&extra[i]);
        }
        i += 1;
    }
    None
}

} // verus!
