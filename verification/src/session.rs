//! Conversation sessions: a message history and the agent instances that
//! take part.  Session files are read and written by the caller.
use crate::llm::ChatMessage;
use crate::sessions::manager::{join_path, uuid_string};
use crate::sessions::models::{Timestamp, new_uuid, now};
use crate::text::{chars_of, push_all, str_eq, string_from, string_of, views};
use std::collections::VecDeque;
use vstd::prelude::*;

verus! {

/// Session identifier (a hyphenated UUID).
pub type SessionId = String;

/// Who wrote a message.
#[derive(Debug, Clone, Copy, PartialEq, Eq, Structural)]
pub enum MessageRole {
    System,
    User,
    Assistant,
}

/// A message of a session.
#[derive(Debug)]
pub struct SessionMessage {
    pub role: MessageRole,
    pub content: String,
    pub timestamp: Timestamp,
    /// The agent instance the message belongs to.
    pub agent_instance_id: Option<String>,
    pub metadata: Option<serde_json::Value>,
}

/// `serde_json::Value::Object(serde_json::Map::new())`: an object without
/// members.
#[verifier::external_body]
fn empty_json_object() -> (v: serde_json::Value)
    ensures
        crate::llm::json_object_keys(v) == Some(Seq::<Seq<char>>::empty()),
{
    serde_json::Value::Object(serde_json::Map::new())
}

/// The role text of a chat message.
pub open spec fn role_text(r: MessageRole) -> Seq<char> {
    match r {
        MessageRole::System => "system"@,
        MessageRole::User => "user"@,
        MessageRole::Assistant => "assistant"@,
    }
}

/// A conversation: its messages, oldest first, and its agent instances.
#[derive(Debug)]
pub struct Session {
    pub id: SessionId,
    pub name: String,
    pub created_at: Timestamp,
    pub updated_at: Timestamp,
    pub messages: VecDeque<SessionMessage>,
    /// Ids of the agent instances in the session, each once.
    pub agent_instance_ids: Vec<String>,
    pub metadata: serde_json::Value,
    /// A short overview of the conversation, when one has been set.
    pub session_overview: Option<String>,
    /// A summary of the conversation, when one has been set.
    pub session_summary: Option<String>,
}

impl Session {
    /// Agent instances are listed once each.
    pub open spec fn wf(&self) -> bool {
        views(self.agent_instance_ids@).no_duplicates()
    }

    /// The ids of the agent instances.
    pub open spec fn instances(&self) -> Seq<Seq<char>> {
        views(self.agent_instance_ids@)
    }

    /// A new session named `name`, with a random id and no messages or
    /// agents.
    pub fn new(name: String) -> (s: Self)
        ensures
            s.wf(),
            s.name == name,
            s.messages@.len() == 0,
            s.instances().len() == 0,
            s.session_overview is None,
            s.session_summary is None,
            s.created_at == s.updated_at,
            crate::llm::json_object_keys(s.metadata) == Some(Seq::<Seq<char>>::empty()),
            exists|u: u128| s.id@ == #[trigger] crate::sessions::manager::uuid_text(u),
    {
        let t = now();
        let s = Session {
            id: uuid_string(new_uuid()),
            name,
            created_at: t,
            updated_at: t,
            messages: VecDeque::new(),
            agent_instance_ids: Vec::new(),
            metadata: empty_json_object(),
            session_overview: None,
            session_summary: None,
        };
        assert(s.instances() =~= Seq::<Seq<char>>::empty());
        s
    }

    /// Adds an agent instance (once).
    pub fn add_agent_instance(&mut self, instance_id: String)
        requires
            old(self).wf(),
        ensures
            final(self).wf(),
            final(self).instances() == if old(self).instances().contains(instance_id@) {
                old(self).instances()
            } else {
                old(self).instances().push(instance_id@)
            },
            final(self).messages == old(self).messages,
            final(self).id == old(self).id,
    {
        if !self.has_agent_instance(instance_id.as_str()) {
            let ghost before = self.instances();
            let ghost iv = instance_id@;
            self.agent_instance_ids.push(instance_id);
            assert(self.instances() =~= before.push(iv));
            assert(self.instances().no_duplicates()) by {
                let v = self.instances();
                assert forall|i: int, j: int| 0 <= i < v.len() && 0 <= j < v.len() && i != j implies v[i] != v[j] by {
                    if i == before.len() {
                        assert(v[j] == before[j]);
                    } else if j == before.len() {
                        assert(v[i] == before[i]);
                    } else {
                        assert(v[i] == before[i]);
                        assert(v[j] == before[j]);
                    }
                }
            }
        }
        self.updated_at = now();
    }

    /// Removes an agent instance; says whether it was there.
    pub fn remove_agent_instance(&mut self, instance_id: &str) -> (removed: bool)
        requires
            old(self).wf(),
        ensures
            final(self).wf(),
            removed == old(self).instances().contains(instance_id@),
            !final(self).instances().contains(instance_id@),
            forall|x: Seq<char>| x != instance_id@ ==> (#[trigger] final(self).instances().contains(x) == old(
                self,
            ).instances().contains(x)),
            final(self).instances() == if old(self).instances().contains(instance_id@) {
                old(self).instances().remove(old(self).instances().index_of(instance_id@))
            } else {
                old(self).instances()
            },
            final(self).messages == old(self).messages,
            final(self).id == old(self).id,
    {
        match self.position_of(instance_id) {
            None => false,
            Some(i) => {
                let ghost before = self.instances();
                proof {
                    let k = before.index_of(instance_id@);
                    assert(before[k] == instance_id@);
                    assert(k == i);
                }
                self.agent_instance_ids.remove(i);
                assert(self.instances() =~= before.remove(i as int));
                proof {
                    let v = self.instances();
                    assert(v.no_duplicates()) by {
                        assert forall|a: int, b: int| 0 <= a < v.len() && 0 <= b < v.len() && a != b implies v[a] != v[b] by {
                            let sa = if a < i { a } else { a + 1 };
                            let sb = if b < i { b } else { b + 1 };
                            assert(v[a] == before[sa]);
                            assert(v[b] == before[sb]);
                        }
                    }
                    assert forall|x: Seq<char>| #[trigger] v.contains(x) == (before.contains(x) && x != instance_id@) by {
                        if v.contains(x) {
                            let a = choose|a: int| 0 <= a < v.len() && v[a] == x;
                            let sa = if a < i { a } else { a + 1 };
                            assert(v[a] == before[sa]);
                        }
                        if before.contains(x) && x != instance_id@ {
                            let a = choose|a: int| 0 <= a < before.len() && before[a] == x;
                            assert(a != i);
                            if a < i {
                                assert(v[a] == x);
                            } else {
                                assert(v[a - 1] == x);
                            }
                        }
                    }
                }
                self.updated_at = now();
                true
            },
        }
    }

    fn position_of(&self, instance_id: &str) -> (r: Option<usize>)
        ensures
            match r {
                Some(i) => i < self.instances().len() && self.instances()[i as int] == instance_id@,
                None => !self.instances().contains(instance_id@),
            },
    {
        let mut i: usize = 0;
        while i < self.agent_instance_ids.len()
            invariant
                i <= self.agent_instance_ids.len(),
                forall|j: int| 0 <= j < i ==> #[trigger] self.agent_instance_ids@[j]@ != instance_id@,
            decreases self.agent_instance_ids.len() - i,
        {
            if str_eq(self.agent_instance_ids[i].as_str(), instance_id) {
                return Some(i);
            }
            i = i + 1;
        }
        proof {
            if self.instances().contains(instance_id@) {
                let j = choose|j: int| 0 <= j < self.instances().len() && self.instances()[j] == instance_id@;
                assert(self.agent_instance_ids@[j]@ == instance_id@);
            }
        }
        None
    }

    /// Whether the instance takes part.
    pub fn has_agent_instance(&self, instance_id: &str) -> (b: bool)
        ensures
            b == self.instances().contains(instance_id@),
    {
        self.position_of(instance_id).is_some()
    }

    /// The ids of the agent instances.
    pub fn agent_instance_ids(&self) -> (r: &Vec<String>)
        ensures
            views(r@) == self.instances(),
    {
        &self.agent_instance_ids
    }

    /// How many agent instances take part.
    pub fn agent_count(&self) -> (n: usize)
        ensures
            n == self.instances().len(),
    {
        self.agent_instance_ids.len()
    }

    fn push_message(&mut self, role: MessageRole, content: &str, agent_instance_id: Option<String>)
        ensures
            final(self).messages@.len() == old(self).messages@.len() + 1,
            final(self).messages@.subrange(0, old(self).messages@.len() as int) == old(self).messages@,
            final(self).messages@.last().role == role,
            final(self).messages@.last().content@ == content@,
            final(self).messages@.last().agent_instance_id == agent_instance_id,
            final(self).messages@.last().metadata is None,
            final(self).agent_instance_ids == old(self).agent_instance_ids,
            final(self).id == old(self).id,
            final(self).session_overview == old(self).session_overview,
            final(self).session_summary == old(self).session_summary,
    {
        let m = SessionMessage {
            role,
            content: string_from(content),
            timestamp: now(),
            agent_instance_id,
            metadata: None,
        };
        self.messages.push_back(m);
        assert(self.messages@.subrange(0, old(self).messages@.len() as int) =~= old(self).messages@);
        self.updated_at = now();
    }

    /// Appends a user message.
    pub fn add_user_message(&mut self, content: &str, agent_instance_id: Option<String>)
        ensures
            final(self).messages@.len() == old(self).messages@.len() + 1,
            final(self).messages@.subrange(0, old(self).messages@.len() as int) == old(self).messages@,
            final(self).messages@.last().role == MessageRole::User,
            final(self).messages@.last().content@ == content@,
            final(self).messages@.last().agent_instance_id == agent_instance_id,
            final(self).agent_instance_ids == old(self).agent_instance_ids,
            final(self).id == old(self).id,
            final(self).session_overview == old(self).session_overview,
            final(self).session_summary == old(self).session_summary,
    {
        self.push_message(MessageRole::User, content, agent_instance_id)
    }

    /// Appends an assistant message.
    pub fn add_assistant_message(&mut self, content: &str, agent_instance_id: Option<String>)
        ensures
            final(self).messages@.len() == old(self).messages@.len() + 1,
            final(self).messages@.subrange(0, old(self).messages@.len() as int) == old(self).messages@,
            final(self).messages@.last().role == MessageRole::Assistant,
            final(self).messages@.last().content@ == content@,
            final(self).messages@.last().agent_instance_id == agent_instance_id,
            final(self).agent_instance_ids == old(self).agent_instance_ids,
            final(self).id == old(self).id,
            final(self).session_overview == old(self).session_overview,
            final(self).session_summary == old(self).session_summary,
    {
        self.push_message(MessageRole::Assistant, content, agent_instance_id)
    }

    /// The messages as chat messages, oldest first.
    pub fn to_chat_messages(&self) -> (r: Vec<ChatMessage>)
        ensures
            r@.len() == self.messages@.len(),
            forall|i: int|
                0 <= i < r@.len() ==> #[trigger] r@[i].role@ == role_text(self.messages@[i].role)
                    && r@[i].content@ == self.messages@[i].content@,
    {
        let mut r: Vec<ChatMessage> = Vec::new();
        let mut i: usize = 0;
        while i < self.messages.len()
            invariant
                i <= self.messages@.len(),
                r@.len() == i,
                forall|j: int|
                    #![trigger r@[j]]
                    0 <= j < i ==> r@[j].role@ == role_text(self.messages@[j].role)
                        && r@[j].content@ == self.messages@[j].content@,
            decreases self.messages@.len() - i,
        {
            let ghost r0 = r@;
            let m = &self.messages[i];
            let c = chat_message_of(m);
            r.push(c);
            proof {
                assert(*m == self.messages@[i as int]);
                assert(c.role@ == role_text(m.role));
                assert forall|j: int| #![trigger r@[j]] 0 <= j < i + 1 implies r@[j].role@ == role_text(
                    self.messages@[j].role,
                ) && r@[j].content@ == self.messages@[j].content@ by {
                    if j < i {
                        assert(r@[j] == r0[j]);
                    } else {
                        assert(r@[j] == c);
                    }
                }
            }
            i = i + 1;
        }
        r
    }

    /// The messages that belong to agent instance `instance_id`, as chat
    /// messages, oldest first.
    pub fn get_agent_context(&self, instance_id: &str) -> (r: Vec<ChatMessage>)
        ensures
            r@.len() == agent_messages(self.messages@, instance_id@).len(),
            forall|i: int|
                0 <= i < r@.len() ==> #[trigger] r@[i].role@ == role_text(
                    agent_messages(self.messages@, instance_id@)[i].role,
                ) && r@[i].content@ == agent_messages(self.messages@, instance_id@)[i].content@,
    {
        let ghost ms = self.messages@;
        let mut r: Vec<ChatMessage> = Vec::new();
        let mut i: usize = 0;
        while i < self.messages.len()
            invariant
                i <= ms.len(),
                ms == self.messages@,
                r@.len() == agent_messages(ms.subrange(0, i as int), instance_id@).len(),
                forall|j: int|
                    #![trigger r@[j]]
                    0 <= j < r@.len() ==> r@[j].role@ == role_text(
                        agent_messages(ms.subrange(0, i as int), instance_id@)[j].role,
                    ) && r@[j].content@ == agent_messages(
                        ms.subrange(0, i as int),
                        instance_id@,
                    )[j].content@,
            decreases ms.len() - i,
        {
            let ghost prev = agent_messages(ms.subrange(0, i as int), instance_id@);
            assert(ms.subrange(0, i + 1).drop_last() =~= ms.subrange(0, i as int));
            let m = &self.messages[i];
            let hit = match &m.agent_instance_id {
                Some(a) => str_eq(a.as_str(), instance_id),
                None => false,
            };
            let ghost r0 = r@;
            if hit {
                let c = chat_message_of(m);
                r.push(c);
                assert(r@[r@.len() - 1] == c);
            }
            assert(agent_messages(ms.subrange(0, i + 1), instance_id@) == if hit {
                prev.push(ms[i as int])
            } else {
                prev
            });
            proof {
                let next = agent_messages(ms.subrange(0, i + 1), instance_id@);
                assert forall|j: int| #![trigger r@[j]] 0 <= j < r@.len() implies r@[j].role@ == role_text(
                    next[j].role,
                ) && r@[j].content@ == next[j].content@ by {
                    if j < r0.len() {
                        assert(r@[j] == r0[j]);
                        assert(next[j] == prev[j]);
                    } else {
                        assert(next[j] == ms[i as int]);
                    }
                }
            }
            i = i + 1;
        }
        assert(ms.subrange(0, i as int) =~= ms);
        r
    }

    /// The last `n` messages (all when there are fewer), oldest first.
    pub fn get_recent_messages(&self, n: usize) -> (r: Vec<&SessionMessage>)
        ensures
            r@.len() == if n < self.messages@.len() {
                n as int
            } else {
                self.messages@.len() as int
            },
            forall|i: int|
                0 <= i < r@.len() ==> *#[trigger] r@[i] == self.messages@[self.messages@.len() - r@.len()
                    + i],
    {
        let len = self.messages.len();
        let start = if n < len {
            len - n
        } else {
            0
        };
        let mut r: Vec<&SessionMessage> = Vec::new();
        let mut i = start;
        while i < len
            invariant
                start <= i <= len,
                len == self.messages@.len(),
                r@.len() == i - start,
                forall|j: int| 0 <= j < r@.len() ==> *#[trigger] r@[j] == self.messages@[start + j],
            decreases len - i,
        {
            r.push(&self.messages[i]);
            i = i + 1;
        }
        r
    }

    /// Empties the history.
    pub fn clear_messages(&mut self)
        ensures
            final(self).messages@.len() == 0,
            final(self).agent_instance_ids == old(self).agent_instance_ids,
            final(self).id == old(self).id,
    {
        self.messages.clear();
        self.updated_at = now();
    }

    /// How many messages there are.
    pub fn message_count(&self) -> (n: usize)
        ensures
            n == self.messages@.len(),
    {
        self.messages.len()
    }

    /// The overview, when one has been set.
    pub fn get_session_overview(&self) -> (r: Option<&String>)
        ensures
            r == match &self.session_overview {
                Some(s) => Some(s),
                None => None,
            },
    {
        self.session_overview.as_ref()
    }

    /// Sets the overview.
    pub fn set_session_overview(&mut self, overview: String)
        ensures
            final(self).session_overview == Some(overview),
            final(self).session_summary == old(self).session_summary,
            final(self).messages == old(self).messages,
            final(self).agent_instance_ids == old(self).agent_instance_ids,
            final(self).id == old(self).id,
    {
        self.session_overview = Some(overview);
    }

    /// The summary, when one has been set.
    pub fn get_session_summary(&self) -> (r: Option<&String>)
        ensures
            r == match &self.session_summary {
                Some(s) => Some(s),
                None => None,
            },
    {
        self.session_summary.as_ref()
    }

    /// Sets the summary.
    pub fn set_session_summary(&mut self, summary: String)
        ensures
            final(self).session_summary == Some(summary),
            final(self).session_overview == old(self).session_overview,
            final(self).messages == old(self).messages,
            final(self).agent_instance_ids == old(self).agent_instance_ids,
            final(self).id == old(self).id,
    {
        self.session_summary = Some(summary);
    }

    /// Drops the summary.
    pub fn clear_session_summary(&mut self)
        ensures
            final(self).session_summary is None,
            final(self).session_overview == old(self).session_overview,
            final(self).messages == old(self).messages,
            final(self).agent_instance_ids == old(self).agent_instance_ids,
            final(self).id == old(self).id,
    {
        self.session_summary = None;
    }
}

/// The messages of `ms` that belong to agent instance `id`, in order.
pub open spec fn agent_messages(ms: Seq<SessionMessage>, id: Seq<char>) -> Seq<SessionMessage>
    decreases ms.len(),
{
    if ms.len() == 0 {
        seq![]
    } else {
        let prev = agent_messages(ms.drop_last(), id);
        match ms.last().agent_instance_id {
            Some(a) => if a@ == id {
                prev.push(ms.last())
            } else {
                prev
            },
            None => prev,
        }
    }
}

/// A session message as a chat message.
fn chat_message_of(m: &SessionMessage) -> (c: ChatMessage)
    ensures
        c.role@ == role_text(m.role),
        c.content@ == m.content@,
{
    match m.role {
        MessageRole::User => ChatMessage::user(m.content.as_str()),
        MessageRole::Assistant => ChatMessage::assistant(m.content.as_str()),
        MessageRole::System => ChatMessage::system(m.content.as_str()),
    }
}

/// A session's summary for listings.
#[derive(Debug, Clone)]
pub struct SessionInfo {
    pub id: SessionId,
    pub name: String,
    pub created_at: Timestamp,
    pub updated_at: Timestamp,
    pub message_count: usize,
    pub agent_count: usize,
}

impl SessionInfo {
    /// The summary of `s`.
    pub fn of(s: &Session) -> (i: Self)
        ensures
            i.id@ == s.id@,
            i.name@ == s.name@,
            i.created_at == s.created_at,
            i.updated_at == s.updated_at,
            i.message_count == s.messages@.len(),
            i.agent_count == s.instances().len(),
    {
        SessionInfo {
            id: s.id.clone(),
            name: s.name.clone(),
            created_at: s.created_at,
            updated_at: s.updated_at,
            message_count: s.messages.len(),
            agent_count: s.agent_instance_ids.len(),
        }
    }
}

/// Whether `a` is at or after `b`.
pub open spec fn ts_ge(a: Timestamp, b: Timestamp) -> bool {
    a.secs > b.secs || (a.secs == b.secs && a.nanos >= b.nanos)
}

/// The items of `s` whose `key` is `t`, in their order in `s`.
pub open spec fn with_key<A>(s: Seq<A>, key: spec_fn(A) -> Timestamp, t: Timestamp) -> Seq<A>
    decreases s.len(),
{
    if s.len() == 0 {
        Seq::empty()
    } else {
        with_key(s.drop_last(), key, t) + if key(s.last()) == t {
            seq![s.last()]
        } else {
            Seq::empty()
        }
    }
}

/// Picking the items with a key distributes over concatenation.
pub proof fn lemma_with_key_add<A>(a: Seq<A>, b: Seq<A>, key: spec_fn(A) -> Timestamp, t: Timestamp)
    ensures
        with_key(a + b, key, t) == with_key(a, key, t) + with_key(b, key, t),
    decreases b.len(),
{
    if b.len() == 0 {
        assert(a + b =~= a);
        assert(with_key(a, key, t) + with_key(b, key, t) =~= with_key(a, key, t));
    } else {
        assert((a + b).drop_last() =~= a + b.drop_last());
        assert((a + b).last() == b.last());
        lemma_with_key_add(a, b.drop_last(), key, t);
        let tail: Seq<A> = if key(b.last()) == t {
            seq![b.last()]
        } else {
            Seq::empty()
        };
        assert(with_key(a, key, t) + with_key(b.drop_last(), key, t) + tail =~= with_key(a, key, t) + (
        with_key(b.drop_last(), key, t) + tail));
    }
}

/// No item of `s` has key `t`: none is picked.
pub proof fn lemma_with_key_none<A>(s: Seq<A>, key: spec_fn(A) -> Timestamp, t: Timestamp)
    requires
        forall|i: int| 0 <= i < s.len() ==> key(#[trigger] s[i]) != t,
    ensures
        with_key(s, key, t) == Seq::<A>::empty(),
    decreases s.len(),
{
    if s.len() > 0 {
        assert forall|i: int| 0 <= i < s.drop_last().len() implies key(#[trigger] s.drop_last()[i]) != t by {
            assert(s.drop_last()[i] == s[i]);
        }
        lemma_with_key_none(s.drop_last(), key, t);
        assert(key(s[s.len() - 1]) != t);
        assert(with_key(s, key, t) =~= Seq::<A>::empty());
    }
}

/// Inserting `x` into a sequence sorted newest first, after every item at
/// or after it: the items of each key keep their order, with `x` last among
/// its own.
pub proof fn lemma_with_key_insert<A>(before: Seq<A>, pos: int, x: A, key: spec_fn(A) -> Timestamp, t: Timestamp)
    requires
        0 <= pos <= before.len(),
        forall|j: int| pos <= j < before.len() ==> !ts_ge(key(#[trigger] before[j]), key(x)),
    ensures
        with_key(before.insert(pos, x), key, t) == with_key(before, key, t) + with_key(seq![x], key, t),
{
    let a = before.subrange(0, pos);
    let b = before.subrange(pos, before.len() as int);
    assert(before.insert(pos, x) =~= a + seq![x] + b);
    assert(before =~= a + b);
    lemma_with_key_add(a + seq![x], b, key, t);
    lemma_with_key_add(a, seq![x], key, t);
    lemma_with_key_add(a, b, key, t);
    assert(with_key(seq![x], key, t) == with_key(Seq::<A>::empty(), key, t) + if key(x) == t {
        seq![x]
    } else {
        Seq::<A>::empty()
    }) by {
        assert(seq![x].drop_last() =~= Seq::<A>::empty());
    }
    if key(x) == t {
        assert forall|i: int| 0 <= i < b.len() implies key(#[trigger] b[i]) != t by {
            assert(b[i] == before[pos + i]);
        }
        lemma_with_key_none(b, key, t);
        assert(with_key(a, key, t) + with_key(seq![x], key, t) + with_key(b, key, t) =~= with_key(a, key, t)
            + with_key(seq![x], key, t));
        assert(with_key(a, key, t) + with_key(b, key, t) =~= with_key(a, key, t));
    } else {
        assert(with_key(seq![x], key, t) =~= Seq::<A>::empty());
        assert(with_key(a, key, t) + with_key(seq![x], key, t) + with_key(b, key, t) =~= with_key(a, key, t)
            + with_key(b, key, t));
        assert(with_key(before, key, t) + with_key(seq![x], key, t) =~= with_key(before, key, t));
    }
}

/// Whether `a` is at or after `b`.
pub fn timestamp_ge(a: Timestamp, b: Timestamp) -> (r: bool)
    ensures
        r == ts_ge(a, b),
{
    a.secs > b.secs || (a.secs == b.secs && a.nanos >= b.nanos)
}

/// The update time of a session summary.
pub open spec fn updated_key() -> spec_fn(SessionInfo) -> Timestamp {
    |s: SessionInfo| s.updated_at
}

/// Orders summaries by last update, newest first; summaries updated at the
/// same time keep their order.
pub fn sort_by_update(infos: Vec<SessionInfo>) -> (r: Vec<SessionInfo>)
    ensures
        r@.to_multiset() == infos@.to_multiset(),
        forall|i: int, j: int|
            0 <= i < j < r@.len() ==> ts_ge(#[trigger] r@[i].updated_at, #[trigger] r@[j].updated_at),
        forall|t: Timestamp| #[trigger] with_key(r@, updated_key(), t) == with_key(infos@, updated_key(), t),
{
    broadcast use vstd::seq_lib::group_to_multiset_ensures;

    let ghost input = infos@;
    let mut out: Vec<SessionInfo> = Vec::new();
    let mut rest = infos;
    let mut k: usize = 0;
    let n = rest.len();
    while rest.len() > 0
        invariant
            k + rest@.len() == n,
            n == input.len(),
            rest@ == input.subrange(k as int, n as int),
            out@.to_multiset() == input.subrange(0, k as int).to_multiset(),
            forall|i: int, j: int|
                0 <= i < j < out@.len() ==> ts_ge(#[trigger] out@[i].updated_at, #[trigger] out@[j].updated_at),
            forall|t: Timestamp|
                #[trigger] with_key(out@, updated_key(), t) == with_key(input.subrange(0, k as int), updated_key(), t),
        decreases rest@.len(),
    {
        let x = rest.remove(0);
        assert(x == input[k as int]);
        let mut pos: usize = 0;
        while pos < out.len() && timestamp_ge(out[pos].updated_at, x.updated_at)
            invariant
                pos <= out@.len(),
                forall|j: int| 0 <= j < pos ==> ts_ge(#[trigger] out@[j].updated_at, x.updated_at),
            decreases out@.len() - pos,
        {
            pos = pos + 1;
        }
        let ghost before = out@;
        out.insert(pos, x);
        proof {
            assert(input.subrange(0, k + 1) =~= input.subrange(0, k as int).push(input[k as int]));
            assert(out@ == before.insert(pos as int, x));
            vstd::seq_lib::to_multiset_insert(before, pos as int, x);
            vstd::seq_lib::to_multiset_build(input.subrange(0, k as int), input[k as int]);
            assert forall|j: int| pos <= j < before.len() implies !ts_ge(
                updated_key()(#[trigger] before[j]),
                updated_key()(x),
            ) by {
                if ts_ge(before[j].updated_at, x.updated_at) {
                    assert(ts_ge(before[pos as int].updated_at, before[j].updated_at) || j == pos);
                }
            }
            assert forall|t: Timestamp| #[trigger] with_key(out@, updated_key(), t) == with_key(
                input.subrange(0, k + 1),
                updated_key(),
                t,
            ) by {
                lemma_with_key_insert(before, pos as int, x, updated_key(), t);
                lemma_with_key_add(input.subrange(0, k as int), seq![x], updated_key(), t);
                assert(input.subrange(0, k + 1) =~= input.subrange(0, k as int) + seq![x]);
            }
            assert forall|i: int, j: int| 0 <= i < j < out@.len() implies ts_ge(#[trigger] out@[i].updated_at, #[trigger] out@[j].updated_at) by {
                if j < pos {
                } else if j == pos {
                    assert(out@[i] == before[i]);
                } else if i < pos {
                    assert(out@[i] == before[i]);
                    assert(out@[j] == before[j - 1]);
                    if pos < before.len() {
                        assert(ts_ge(before[i].updated_at, before[pos as int].updated_at));
                    }
                } else if i == pos {
                    assert(out@[j] == before[j - 1]);
                    assert(!ts_ge(before[pos as int].updated_at, x.updated_at));
                    assert(ts_ge(before[pos as int].updated_at, before[j - 1].updated_at) || pos == j - 1);
                } else {
                    assert(out@[i] == before[i - 1]);
                    assert(out@[j] == before[j - 1]);
                }
            }
        }
        k = k + 1;
    }
    assert(input.subrange(0, n as int) =~= input);
    out
}

/// Keeps session files and trims histories.
#[derive(Debug, Clone)]
pub struct SessionManager {
    session_dir: String,
    max_history: usize,
}

impl SessionManager {
    pub closed spec fn dir(&self) -> Seq<char> {
        self.session_dir@
    }

    pub closed spec fn max(&self) -> usize {
        self.max_history
    }

    /// A manager keeping files in `session_dir` and at most `max_history`
    /// messages per session.
    pub fn new(session_dir: String, max_history: usize) -> (m: Self)
        ensures
            m.dir() == session_dir@,
            m.max() == max_history,
    {
        SessionManager { session_dir, max_history }
    }

    /// The file of session `id`: `<dir>/<id>.json`.
    pub fn session_file(&self, id: &str) -> (p: String)
        ensures
            p@ == join_path(self.dir(), id@ + seq!['.', 'j', 's', 'o', 'n']),
    {
        json_file_path(self.session_dir.as_str(), id)
    }

    /// Drops the oldest messages until at most `max_history` remain.
    pub fn trim_history(&self, session: &mut Session)
        ensures
            final(session).messages@ == if old(session).messages@.len() > self.max() {
                old(session).messages@.subrange(
                    old(session).messages@.len() - self.max(),
                    old(session).messages@.len() as int,
                )
            } else {
                old(session).messages@
            },
            final(session).agent_instance_ids == old(session).agent_instance_ids,
            final(session).id == old(session).id,
            final(session).name == old(session).name,
            final(session).updated_at == old(session).updated_at,
    {
        let ghost start = session.messages@;
        while session.messages.len() > self.max_history
            invariant
                start.len() >= session.messages@.len(),
                session.messages@.len() < start.len() ==> session.messages@.len() >= self.max_history,
                session.messages@ == start.subrange(start.len() - session.messages@.len(), start.len() as int),
                session.agent_instance_ids == old(session).agent_instance_ids,
                session.id == old(session).id,
                session.name == old(session).name,
                session.updated_at == old(session).updated_at,
                start == old(session).messages@,
            decreases session.messages@.len(),
        {
            let _ = session.messages.pop_front();
            assert(session.messages@ =~= start.subrange(start.len() - session.messages@.len(), start.len() as int));
        }
        proof {
            if start.len() <= self.max_history {
                assert(session.messages@ =~= start);
            }
        }
    }

    /// The directory of the session files.
    pub fn session_dir(&self) -> (d: &String)
        ensures
            d@ == self.dir(),
    {
        &self.session_dir
    }
}

/// The file `<dir>/<id>.json`.
pub fn json_file_path(dir: &str, id: &str) -> (p: String)
    ensures
        p@ == join_path(dir@, id@ + seq!['.', 'j', 's', 'o', 'n']),
{
    let base = chars_of(dir);
    let mut name = chars_of(id);
    name.push('.');
    name.push('j');
    name.push('s');
    name.push('o');
    name.push('n');
    let mut out: Vec<char> = Vec::new();
    push_all(&mut out, &base);
    if base.len() > 0 && base[base.len() - 1] != '/' {
        out.push('/');
    }
    push_all(&mut out, &name);
    proof {
        if base@.len() == 0 {
            assert(out@ =~= name@);
        } else if base@.last() == '/' {
            assert(out@ =~= base@ + name@);
        } else {
            assert(out@ =~= base@ + seq!['/'] + name@);
        }
    }
    string_of(&out)
}

} // verus!
