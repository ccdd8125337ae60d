//! The session manager: where session files live, and the changes made to a
//! loaded session before it is written back.
use crate::sessions::models::{
    MessageRecord, MessageRole, Session, SessionId, SessionState, SessionSummary, Timestamp, new_uuid,
    now,
};
use crate::sessions::store::{JsonSessionStore, StoreError, store_error_text};
use crate::session::{lemma_with_key_add, lemma_with_key_insert, timestamp_ge, ts_ge, with_key};
use crate::text::{push_all, string_from, string_of};
use vstd::prelude::*;
use vstd::string::*;

verus! {

/// An error of the session manager.
#[derive(Debug, Clone, PartialEq, Eq)]
pub enum ManagerError {
    Store(StoreError),
    NotFound(SessionId),
    InvalidOperation(String),
    /// A directory could not be read; the message says why.
    Io(String),
}

/// The message of a manager error.
pub open spec fn manager_error_text(e: ManagerError) -> Seq<char> {
    match e {
        ManagerError::Store(se) => "Store error: "@ + store_error_text(se),
        ManagerError::NotFound(id) => "Session not found: "@ + uuid_text(id),
        ManagerError::InvalidOperation(m) => "Invalid operation: "@ + m@,
        ManagerError::Io(m) => "IO error: "@ + m@,
    }
}

impl ManagerError {
    /// The error's message.
    pub fn message(&self) -> (r: String)
        ensures
            r@ == manager_error_text(*self),
    {
        match self {
            ManagerError::Store(se) => {
                let mut t = string_from("Store error: ");
                t.append(se.message().as_str());
                t
            },
            ManagerError::NotFound(id) => {
                let mut t = string_from("Session not found: ");
                t.append(uuid_string(*id).as_str());
                t
            },
            ManagerError::InvalidOperation(m) => {
                let mut t = string_from("Invalid operation: ");
                t.append(m.as_str());
                t
            },
            ManagerError::Io(m) => {
                let mut t = string_from("IO error: ");
                t.append(m.as_str());
                t
            },
        }
    }
}

/// The lowercase hexadecimal digits.
pub open spec fn hex_digits() -> Seq<char> {
    seq!['0', '1', '2', '3', '4', '5', '6', '7', '8', '9', 'a', 'b', 'c', 'd', 'e', 'f']
}

/// The `i`-th hexadecimal digit (from the most significant) of a 128-bit
/// value.
pub open spec fn nibble(id: u128, i: int) -> u128 {
    (id >> ((31 - i) * 4) as u128) & 0xf
}

/// The 32 hexadecimal digits of `id[..n]`, most significant first, with `-`
/// after the 8th, 12th, 16th and 20th digit: the hyphenated form of a UUID.
pub open spec fn uuid_text_upto(id: u128, n: int) -> Seq<char>
    decreases n,
{
    if n <= 0 {
        seq![]
    } else {
        let prev = uuid_text_upto(id, n - 1);
        let with_dash = if n - 1 == 8 || n - 1 == 12 || n - 1 == 16 || n - 1 == 20 {
            prev.push('-')
        } else {
            prev
        };
        with_dash.push(hex_digits()[nibble(id, n - 1) as int])
    }
}

/// The hyphenated lowercase text of a UUID.
pub open spec fn uuid_text(id: u128) -> Seq<char> {
    uuid_text_upto(id, 32)
}

/// `name` placed in directory `base`, with `/` between them unless `base`
/// is empty or ends in `/`.
pub open spec fn join_path(base: Seq<char>, name: Seq<char>) -> Seq<char> {
    if base.len() == 0 {
        name
    } else if base.last() == '/' {
        base + name
    } else {
        base + seq!['/'] + name
    }
}

/// The text of a UUID, hyphenated and lowercase.
pub fn uuid_string(id: u128) -> (s: String)
    ensures
        s@ == uuid_text(id),
{
    let digits: Vec<char> = vec![
        '0',
        '1',
        '2',
        '3',
        '4',
        '5',
        '6',
        '7',
        '8',
        '9',
        'a',
        'b',
        'c',
        'd',
        'e',
        'f',
    ];
    assert(digits@ =~= hex_digits());
    let mut out: Vec<char> = Vec::new();
    let mut i: usize = 0;
    while i < 32
        invariant
            i <= 32,
            digits@ == hex_digits(),
            out@ == uuid_text_upto(id, i as int),
        decreases 32 - i,
    {
        if i == 8 || i == 12 || i == 16 || i == 20 {
            out.push('-');
        }
        let shift: u128 = ((31 - i) * 4) as u128;
        let n = (id >> shift) & 0xf;
        assert(n < 16) by (bit_vector)
            requires
                n == (id >> shift) & 0xf,
        ;
        out.push(digits[n as usize]);
        i = i + 1;
    }
    string_of(&out)
}

/// The session manager: session files live in `base_path`, named after the
/// session id.
pub struct SessionManager {
    store: JsonSessionStore,
    base_path: String,
}

impl SessionManager {
    pub closed spec fn base(&self) -> Seq<char> {
        self.base_path@
    }

    /// A manager for sessions under `base_path`.
    pub fn new(base_path: &str) -> (m: Self)
        ensures
            m.base() == base_path@,
    {
        SessionManager { store: JsonSessionStore::new(), base_path: string_from(base_path) }
    }

    /// The directory of the session files.
    pub fn base_path(&self) -> (r: &String)
        ensures
            r@ == self.base(),
    {
        &self.base_path
    }

    /// The store the files are written with.
    pub fn store(&self) -> &JsonSessionStore {
        &self.store
    }

    /// The file of session `session_id`: `<base>/<uuid>.json`.
    pub fn session_path(&self, session_id: SessionId) -> (p: String)
        ensures
            p@ == join_path(self.base(), uuid_text(session_id) + seq!['.', 'j', 's', 'o', 'n']),
    {
        let id = uuid_string(session_id);
        let mut name: Vec<char> = crate::text::chars_of(id.as_str());
        name.push('.');
        name.push('j');
        name.push('s');
        name.push('o');
        name.push('n');
        let base = crate::text::chars_of(self.base_path.as_str());
        let mut out: Vec<char> = Vec::new();
        push_all(&mut out, &base);
        if base.len() > 0 && base[base.len() - 1] != '/' {
            out.push('/');
        }
        push_all(&mut out, &name);
        proof {
            if base@.len() == 0 {
                assert(out@ =~= name@);
            } else if base@.last() == '/' {
                assert(out@ =~= base@ + name@);
            } else {
                assert(out@ =~= base@ + seq!['/'] + name@);
            }
        }
        string_of(&out)
    }

    /// A new session to be written to its file.
    pub fn create_session(&self) -> (s: Session)
        ensures
            s.wf(),
            s.routes_valid(),
            s.name is None,
            s.state == SessionState::Active,
            s.message_history@.len() == 0,
    {
        self.create_session_with_name(None)
    }

    /// A new session named `name`, to be written to its file.
    pub fn create_session_with_name(&self, name: Option<String>) -> (s: Session)
        ensures
            s.wf(),
            s.routes_valid(),
            s.name == name,
            s.state == SessionState::Active,
            s.message_history@.len() == 0,
    {
        Session::with_name(name)
    }

    /// Marks `session` terminated.
    pub fn terminate_session(&self, session: &mut Session)
        ensures
            final(session).state == SessionState::Terminated,
            final(session).session_id == old(session).session_id,
            final(session).servers == old(session).servers,
            final(session).routing_table == old(session).routing_table,
            final(session).message_history == old(session).message_history,
            final(session).cache == old(session).cache,
            final(session).config == old(session).config,
    {
        session.state = SessionState::Terminated;
        session.touch();
    }

    /// Appends a message with a fresh id and the current time; returns a copy
    /// of it.
    pub fn add_message(&self, session: &mut Session, role: MessageRole, content: String) -> (m:
        MessageRecord)
        ensures
            m.role == role,
            m.content@ == content@,
            m.metadata is None,
            final(session).message_history@.len() == old(session).message_history@.len() + 1,
            final(session).message_history@.subrange(0, old(session).message_history@.len() as int)
                == old(session).message_history@,
            final(session).message_history@.last().id == m.id,
            final(session).message_history@.last().role == role,
            final(session).message_history@.last().content@ == content@,
            final(session).message_history@.last().timestamp == m.timestamp,
            final(session).message_history@.last().metadata is None,
            final(session).session_id == old(session).session_id,
            final(session).state == old(session).state,
            final(session).servers == old(session).servers,
            final(session).routing_table == old(session).routing_table,
            final(session).cache == old(session).cache,
            final(session).config == old(session).config,
    {
        let id = new_uuid();
        let ts = now();
        let copy = MessageRecord {
            id,
            role,
            content: content.clone(),
            timestamp: ts,
            metadata: None,
        };
        let message = MessageRecord { id, role, content, timestamp: ts, metadata: None };
        session.message_history.push(message);
        assert(session.message_history@.subrange(0, old(session).message_history@.len() as int)
            =~= old(session).message_history@);
        session.touch();
        copy
    }

    /// The messages of `session` from position `offset` (default 0), at most
    /// `limit` of them (default: all).
    pub fn get_messages(&self, session: Session, limit: Option<usize>, offset: Option<usize>) -> (r:
        Vec<MessageRecord>)
        ensures
            r@ == page(session.message_history@, limit, offset),
    {
        let mut history = session.message_history;
        let off = match offset {
            Some(o) => o,
            None => 0,
        };
        if off >= history.len() {
            return Vec::new();
        }
        let mut rest = history.split_off(off);
        match limit {
            Some(n) => {
                if n < rest.len() {
                    rest.truncate(n);
                }
            },
            None => {},
        }
        rest
    }

    /// Empties the message history of `session`.
    pub fn clear_messages(&self, session: &mut Session)
        ensures
            final(session).message_history@.len() == 0,
            final(session).session_id == old(session).session_id,
            final(session).state == old(session).state,
            final(session).servers == old(session).servers,
            final(session).routing_table == old(session).routing_table,
            final(session).cache == old(session).cache,
            final(session).config == old(session).config,
    {
        session.message_history.clear();
        session.touch();
    }
}

/// The page of `history` that starts at `offset` (default 0) and holds at
/// most `limit` items (default: all that remain).
pub open spec fn page<T>(history: Seq<T>, limit: Option<usize>, offset: Option<usize>) -> Seq<T> {
    let off = match offset {
        Some(o) => o as int,
        None => 0,
    };
    if off >= history.len() {
        seq![]
    } else {
        let rest = history.subrange(off, history.len() as int);
        match limit {
            Some(n) => if n < rest.len() {
                rest.subrange(0, n as int)
            } else {
                rest
            },
            None => rest,
        }
    }
}

/// Consecutive pages cover the history without gaps or overlaps: the page
/// at `offset` of size `n`, followed by the rest from `offset + n`, is the
/// rest from `offset`.
pub proof fn law_pages_tile<T>(history: Seq<T>, offset: usize, n: usize)
    requires
        offset + n <= usize::MAX,
    ensures
        page(history, Some(n), Some(offset)) + page(history, None, Some((offset + n) as usize))
            == page(history, None, Some(offset)),
{
    let a = page(history, Some(n), Some(offset));
    let b = page(history, None, Some((offset + n) as usize));
    let c = page(history, None, Some(offset));
    if offset >= history.len() {
        assert(a + b =~= c);
    } else if offset + n >= history.len() {
        assert(a + b =~= c);
    } else {
        assert(a + b =~= c);
    }
}

/// The creation time of a session summary.
pub open spec fn created_key() -> spec_fn(SessionSummary) -> Timestamp {
    |s: SessionSummary| s.created_at
}

/// Orders summaries by creation, newest first; summaries created at the same
/// time keep their order.
pub fn sort_summaries(infos: Vec<SessionSummary>) -> (r: Vec<SessionSummary>)
    ensures
        r@.to_multiset() == infos@.to_multiset(),
        forall|i: int, j: int|
            0 <= i < j < r@.len() ==> ts_ge(#[trigger] r@[i].created_at, #[trigger] r@[j].created_at),
        forall|t: Timestamp| #[trigger] with_key(r@, created_key(), t) == with_key(infos@, created_key(), t),
{
    broadcast use vstd::seq_lib::group_to_multiset_ensures;

    let ghost input = infos@;
    let mut out: Vec<SessionSummary> = Vec::new();
    let mut rest = infos;
    let mut k: usize = 0;
    let n = rest.len();
    while rest.len() > 0
        invariant
            k + rest@.len() == n,
            n == input.len(),
            rest@ == input.subrange(k as int, n as int),
            out@.to_multiset() == input.subrange(0, k as int).to_multiset(),
            forall|i: int, j: int|
                0 <= i < j < out@.len() ==> ts_ge(#[trigger] out@[i].created_at, #[trigger] out@[j].created_at),
            forall|t: Timestamp|
                #[trigger] with_key(out@, created_key(), t) == with_key(input.subrange(0, k as int), created_key(), t),
        decreases rest@.len(),
    {
        let x = rest.remove(0);
        assert(x == input[k as int]);
        let mut pos: usize = 0;
        while pos < out.len() && timestamp_ge(out[pos].created_at, x.created_at)
            invariant
                pos <= out@.len(),
                forall|j: int| 0 <= j < pos ==> ts_ge(#[trigger] out@[j].created_at, x.created_at),
            decreases out@.len() - pos,
        {
            pos = pos + 1;
        }
        let ghost before = out@;
        out.insert(pos, x);
        proof {
            assert(input.subrange(0, k + 1) =~= input.subrange(0, k as int).push(input[k as int]));
            assert(out@ == before.insert(pos as int, x));
            vstd::seq_lib::to_multiset_insert(before, pos as int, x);
            vstd::seq_lib::to_multiset_build(input.subrange(0, k as int), input[k as int]);
            assert forall|j: int| pos <= j < before.len() implies !ts_ge(
                created_key()(#[trigger] before[j]),
                created_key()(x),
            ) by {
                if ts_ge(before[j].created_at, x.created_at) {
                    assert(ts_ge(before[pos as int].created_at, before[j].created_at) || j == pos);
                }
            }
            assert forall|t: Timestamp| #[trigger] with_key(out@, created_key(), t) == with_key(
                input.subrange(0, k + 1),
                created_key(),
                t,
            ) by {
                lemma_with_key_insert(before, pos as int, x, created_key(), t);
                lemma_with_key_add(input.subrange(0, k as int), seq![x], created_key(), t);
                assert(input.subrange(0, k + 1) =~= input.subrange(0, k as int) + seq![x]);
            }
            assert forall|i: int, j: int| 0 <= i < j < out@.len() implies ts_ge(#[trigger] out@[i].created_at, #[trigger] out@[j].created_at) by {
                if j < pos {
                } else if j == pos {
                    assert(out@[i] == before[i]);
                } else if i < pos {
                    assert(out@[i] == before[i]);
                    assert(out@[j] == before[j - 1]);
                    if pos < before.len() {
                        assert(ts_ge(before[i].created_at, before[pos as int].created_at));
                    }
                } else if i == pos {
                    assert(out@[j] == before[j - 1]);
                    assert(!ts_ge(before[pos as int].created_at, x.created_at));
                    assert(ts_ge(before[pos as int].created_at, before[j - 1].created_at) || pos == j - 1);
                } else {
                    assert(out@[i] == before[i - 1]);
                    assert(out@[j] == before[j - 1]);
                }
            }
        }
        k = k + 1;
    }
    assert(input.subrange(0, n as int) =~= input);
    out
}

} // verus!
