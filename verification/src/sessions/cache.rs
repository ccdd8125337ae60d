//! Input and inference caches of a session.
use crate::sessions::manager::SessionManager;
use crate::sessions::models::{Session, clone_json};
use crate::text::string_of;
use sha2::{Digest, Sha256};
use vstd::prelude::*;
use vstd::string::*;

verus! {

/// The SHA-256 digest of `data`.
pub uninterp spec fn sha256(data: Seq<u8>) -> Seq<u8>;

/// `Sha256` (sha2): the 32-byte digest of `data`.
#[verifier::external_body]
fn sha256_digest(data: &[u8]) -> (r: Vec<u8>)
    ensures
        r@ == sha256(data@),
        r@.len() == 32,
{
    let mut hasher = Sha256::new();
    hasher.update(data);
    hasher.finalize().to_vec()
}

/// The lowercase hexadecimal digit of a value below 16.
pub open spec fn hex_char(n: u8) -> char {
    seq!['0', '1', '2', '3', '4', '5', '6', '7', '8', '9', 'a', 'b', 'c', 'd', 'e', 'f'][n as int]
}

/// Each byte as two lowercase hexadecimal digits, high digit first.
pub open spec fn hex_lower(bytes: Seq<u8>) -> Seq<char>
    decreases bytes.len(),
{
    if bytes.len() == 0 {
        seq![]
    } else {
        hex_lower(bytes.drop_last()) + seq![
            hex_char(bytes.last() / 16),
            hex_char(bytes.last() % 16),
        ]
    }
}

proof fn lemma_hex_len(bytes: Seq<u8>)
    ensures
        hex_lower(bytes).len() == 2 * bytes.len(),
    decreases bytes.len(),
{
    if bytes.len() > 0 {
        lemma_hex_len(bytes.drop_last());
    }
}

/// Each byte as two lowercase hexadecimal digits.
pub fn hex_string(bytes: &Vec<u8>) -> (s: String)
    ensures
        s@ == hex_lower(bytes@),
        s@.len() == 2 * bytes@.len(),
{
    let digits: Vec<char> = vec![
        '0',
        '1',
        '2',
        '3',
        '4',
        '5',
        '6',
        '7',
        '8',
        '9',
        'a',
        'b',
        'c',
        'd',
        'e',
        'f',
    ];
    let mut out: Vec<char> = Vec::new();
    let mut i: usize = 0;
    while i < bytes.len()
        invariant
            i <= bytes.len(),
            digits@ == seq!['0', '1', '2', '3', '4', '5', '6', '7', '8', '9', 'a', 'b', 'c', 'd', 'e', 'f'],
            out@ == hex_lower(bytes@.subrange(0, i as int)),
        decreases bytes.len() - i,
    {
        let b = bytes[i];
        out.push(digits[(b / 16) as usize]);
        out.push(digits[(b % 16) as usize]);
        assert(bytes@.subrange(0, i + 1).drop_last() =~= bytes@.subrange(0, i as int));
        i = i + 1;
    }
    assert(bytes@.subrange(0, i as int) =~= bytes@);
    proof {
        lemma_hex_len(bytes@);
    }
    string_of(&out)
}

/// Reads and writes the caches of a session.
pub struct CacheManager<'a> {
    session_manager: &'a SessionManager,
}

impl<'a> CacheManager<'a> {
    /// The manager whose sessions are changed.
    pub closed spec fn manager(&self) -> SessionManager {
        *self.session_manager
    }

    /// Cache operations for sessions of `session_manager`.
    pub fn new(session_manager: &'a SessionManager) -> (c: Self)
        ensures
            c.manager() == *session_manager,
    {
        CacheManager { session_manager }
    }

    /// The manager whose sessions are changed.
    pub fn session_manager(&self) -> (r: &'a SessionManager)
        ensures
            *r == self.manager(),
    {
        self.session_manager
    }

    /// The SHA-256 digest of the UTF-8 bytes of `content`, as 64 lowercase
    /// hexadecimal digits.
    pub fn hash_content(content: &str) -> (h: String)
        ensures
            h@ == hex_lower(sha256(content.spec_bytes())),
            h@.len() == 64,
    {
        let digest = sha256_digest(content.as_bytes());
        hex_string(&digest)
    }

    /// The cached input result under `hash`.
    pub fn get_input_cache(&self, session: &Session, hash: &str) -> (r: Option<serde_json::Value>)
        requires
            session.wf(),
        ensures
            match r {
                Some(v) => session.cache.input_cache@.contains_key(hash@) && v
                    == session.cache.input_cache@[hash@],
                None => !session.cache.input_cache@.contains_key(hash@),
            },
    {
        match session.cache.input_cache.get(hash) {
            Some(v) => Some(clone_json(v)),
            None => None,
        }
    }

    /// Caches an input result under `hash`.
    pub fn set_input_cache(&self, session: &mut Session, hash: &str, value: serde_json::Value)
        requires
            old(session).wf(),
        ensures
            final(session).wf(),
            old(session).routes_valid() ==> final(session).routes_valid(),
            final(session).cache.input_cache@ == old(session).cache.input_cache@.insert(hash@, value),
            final(session).cache.inference_cache == old(session).cache.inference_cache,
            final(session).servers == old(session).servers,
            final(session).routing_table == old(session).routing_table,
            final(session).message_history == old(session).message_history,
            final(session).state == old(session).state,
    {
        let _ = session.cache.input_cache.insert(hash.to_owned(), value);
        session.touch();
    }

    /// The cached inference result under `key`.
    pub fn get_inference_cache(&self, session: &Session, key: &str) -> (r: Option<serde_json::Value>)
        requires
            session.wf(),
        ensures
            match r {
                Some(v) => session.cache.inference_cache@.contains_key(key@) && v
                    == session.cache.inference_cache@[key@],
                None => !session.cache.inference_cache@.contains_key(key@),
            },
    {
        match session.cache.inference_cache.get(key) {
            Some(v) => Some(clone_json(v)),
            None => None,
        }
    }

    /// Caches an inference result under `key`.
    pub fn set_inference_cache(&self, session: &mut Session, key: &str, value: serde_json::Value)
        requires
            old(session).wf(),
        ensures
            final(session).wf(),
            old(session).routes_valid() ==> final(session).routes_valid(),
            final(session).cache.inference_cache@ == old(session).cache.inference_cache@.insert(
                key@,
                value,
            ),
            final(session).cache.input_cache == old(session).cache.input_cache,
            final(session).servers == old(session).servers,
            final(session).routing_table == old(session).routing_table,
            final(session).message_history == old(session).message_history,
            final(session).state == old(session).state,
    {
        let _ = session.cache.inference_cache.insert(key.to_owned(), value);
        session.touch();
    }

    /// Drops `key` from both caches, or every entry when no key is given.
    pub fn invalidate_cache(&self, session: &mut Session, key: Option<&str>)
        requires
            old(session).wf(),
        ensures
            final(session).wf(),
            old(session).routes_valid() ==> final(session).routes_valid(),
            match key {
                Some(k) => {
                    &&& final(session).cache.input_cache@ == old(session).cache.input_cache@.remove(k@)
                    &&& final(session).cache.inference_cache@ == old(
                        session,
                    ).cache.inference_cache@.remove(k@)
                },
                None => {
                    &&& final(session).cache.input_cache@ == Map::<
                        Seq<char>,
                        serde_json::Value,
                    >::empty()
                    &&& final(session).cache.inference_cache@ == Map::<
                        Seq<char>,
                        serde_json::Value,
                    >::empty()
                },
            },
            final(session).servers == old(session).servers,
            final(session).routing_table == old(session).routing_table,
            final(session).message_history == old(session).message_history,
            final(session).state == old(session).state,
    {
        match key {
            Some(k) => {
                let _ = session.cache.input_cache.remove(k);
                let _ = session.cache.inference_cache.remove(k);
            },
            None => {
                session.cache.input_cache.clear();
                session.cache.inference_cache.clear();
            },
        }
        session.touch();
    }
}

/// A value read after it is cached is the value that was cached.
pub proof fn law_cache_read_after_write(
    cache: Map<Seq<char>, serde_json::Value>,
    k: Seq<char>,
    v: serde_json::Value,
)
    ensures
        cache.insert(k, v).contains_key(k),
        cache.insert(k, v)[k] == v,
{
}

} // verus!
