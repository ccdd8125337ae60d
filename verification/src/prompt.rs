//! Structured prompts.
//!
//! - `StructuredPrompt`: an ordered key/value set of prompt components; the
//!   order in which keys were inserted (or appear in JSON) is the order in
//!   which the components are assembled.
//! - `PromptTemplate`: how components are assembled (separator, titles,
//!   disabled components).
//! - `PromptContext`: runtime variables substituted for `{{name}}`.
//! - `PromptBuilder`: assembles the final system prompt.
//!
//! `{{name}}` is replaced by the variable's value, or left as it is when the
//! variable is unknown; `{{func(args)}}` is rendered as a function-call marker.
use crate::strmap::{StrMap, distinct_keys, has_key, key_pos, insert_entry, remove_entry};
use crate::text::{
    chars_of, find_char, find_char_in, find_pair, find_pair_in, is_ws, join, join_chars,
    lemma_find_char, lemma_find_char_contains, lemma_find_pair, lemma_join_push, lemma_trim_ends,
    lemma_trim_idempotent, push_all,
    push_range, replace_all, replace_all_in, slice, str_eq, string_from, string_of, trim,
    trim_bounds, views,
};
use indexmap::IndexMap;
use vstd::prelude::*;

verus! {

// ==================== the ordered map behind StructuredPrompt ====================

#[verifier::external_type_specification]
#[verifier::external_body]
#[verifier::reject_recursive_types(K)]
#[verifier::reject_recursive_types(V)]
#[verifier::reject_recursive_types(S)]
pub struct ExIndexMap<K, V, S>(IndexMap<K, V, S>);

#[verifier::external_type_specification]
#[verifier::external_body]
pub struct ExJsonError(serde_json::Error);

/// The entries of an `IndexMap<String, String>` in its order, keys and values
/// taken by their characters.
pub uninterp spec fn index_map_entries(m: IndexMap<String, String>) -> Seq<(Seq<char>, Seq<char>)>;

/// The entries that `serde_json::from_str::<IndexMap<String, String>>` gives
/// for a JSON text, in the order of the text; `None` where it fails.
pub uninterp spec fn json_string_map(text: Seq<char>) -> Option<Seq<(Seq<char>, Seq<char>)>>;

/// The text that `serde_json::to_string_pretty` writes for a string map with
/// the given entries.
pub uninterp spec fn pretty_json_text(entries: Seq<(Seq<char>, Seq<char>)>) -> Seq<char>;

/// `IndexMap::new`: an empty map.
#[verifier::external_body]
fn index_map_new() -> (m: IndexMap<String, String>)
    ensures
        index_map_entries(m) == Seq::<(Seq<char>, Seq<char>)>::empty(),
{
    IndexMap::new()
}

/// `IndexMap::insert`: an existing key keeps its place and takes the new
/// value (the old one is returned); a new key is appended last.
#[verifier::external_body]
fn index_map_insert(m: &mut IndexMap<String, String>, k: String, v: String) -> (r: Option<String>)
    requires
        distinct_keys(index_map_entries(*old(m))),
    ensures
        index_map_entries(*final(m)) == insert_entry(index_map_entries(*old(m)), k@, v@),
        match r {
            Some(o) => has_key(index_map_entries(*old(m)), k@) && o@ == index_map_entries(
                *old(m),
            )[key_pos(index_map_entries(*old(m)), k@)].1,
            None => !has_key(index_map_entries(*old(m)), k@),
        },
{
    m.insert(k, v)
}

/// `IndexMap::get`: the value under `k`.
#[verifier::external_body]
fn index_map_get<'a>(m: &'a IndexMap<String, String>, k: &str) -> (r: Option<&'a String>)
    requires
        distinct_keys(index_map_entries(*m)),
    ensures
        match r {
            Some(v) => has_key(index_map_entries(*m), k@) && v@ == index_map_entries(
                *m,
            )[key_pos(index_map_entries(*m), k@)].1,
            None => !has_key(index_map_entries(*m), k@),
        },
{
    m.get(k)
}

/// `IndexMap::shift_remove`: removes `k`, shifting later entries down, and
/// returns its value.
#[verifier::external_body]
fn index_map_shift_remove(m: &mut IndexMap<String, String>, k: &str) -> (r: Option<String>)
    requires
        distinct_keys(index_map_entries(*old(m))),
    ensures
        index_map_entries(*final(m)) == remove_entry(index_map_entries(*old(m)), k@),
        match r {
            Some(o) => has_key(index_map_entries(*old(m)), k@) && o@ == index_map_entries(
                *old(m),
            )[key_pos(index_map_entries(*old(m)), k@)].1,
            None => !has_key(index_map_entries(*old(m)), k@),
        },
{
    m.shift_remove(k)
}

/// `IndexMap::len`.
#[verifier::external_body]
fn index_map_len(m: &IndexMap<String, String>) -> (n: usize)
    ensures
        n == index_map_entries(*m).len(),
{
    m.len()
}

/// `IndexMap::iter`, each entry copied out, in order.  An `IndexMap` holds
/// each key once.
#[verifier::external_body]
fn index_map_pairs(m: &IndexMap<String, String>) -> (r: Vec<(String, String)>)
    ensures
        r@.map_values(|e: (String, String)| (e.0@, e.1@)) == index_map_entries(*m),
        distinct_keys(r@.map_values(|e: (String, String)| (e.0@, e.1@))),
{
    m.iter().map(|(k, v)| (k.clone(), v.clone())).collect()
}

/// `IndexMap::clone`: a map with the same entries.
#[verifier::external_body]
fn index_map_clone(m: &IndexMap<String, String>) -> (r: IndexMap<String, String>)
    ensures
        index_map_entries(r) == index_map_entries(*m),
{
    m.clone()
}

/// `serde_json::from_str` into an `IndexMap<String, String>`.  Keys of an
/// `IndexMap` are distinct.
#[verifier::external_body]
fn parse_string_map(text: &str) -> (r: Result<IndexMap<String, String>, serde_json::Error>)
    ensures
        match r {
            Ok(m) => json_string_map(text@) == Some(index_map_entries(m)) && distinct_keys(
                index_map_entries(m),
            ),
            Err(_) => json_string_map(text@) is None,
        },
{
    serde_json::from_str(text)
}

/// `serde_json::to_string_pretty` of an `IndexMap<String, String>`.  It
/// succeeds: serde_json fails only where a `Serialize` impl fails or a map
/// key is not a string, and an `IndexMap` serializes as a map of its `String`
/// keys and values, whose serialization does not fail.  The text parses back
/// to the same entries in the same order.
#[verifier::external_body]
fn render_string_map(m: &IndexMap<String, String>) -> (r: Result<String, serde_json::Error>)
    ensures
        match r {
            Ok(s) => s@ == pretty_json_text(index_map_entries(*m)) && json_string_map(s@) == Some(
                index_map_entries(*m),
            ),
            Err(_) => false,
        },
{
    serde_json::to_string_pretty(m)
}

/// The message of a `serde_json::Error` (its `Display` text); nothing is
/// stated of it.
#[verifier::external_body]
fn json_error_text(e: &serde_json::Error) -> String {
    e.to_string()
}

/// An error in reading or writing a structured prompt as JSON.
#[derive(Debug, Clone)]
pub enum PromptError {
    /// The JSON text is not an object of string values.
    InvalidJson(String),
    /// The prompt could not be written as JSON.
    Serialize(String),
}

// ==================== StructuredPrompt ====================

/// An ordered set of named prompt components.  Values may hold `{{name}}`
/// placeholders.
#[derive(Debug)]
pub struct StructuredPrompt(IndexMap<String, String>);

impl View for StructuredPrompt {
    type V = Seq<(Seq<char>, Seq<char>)>;

    closed spec fn view(&self) -> Seq<(Seq<char>, Seq<char>)> {
        index_map_entries(self.0)
    }
}

impl StructuredPrompt {
    /// Keys are distinct (an `IndexMap` never holds a key twice).
    pub open spec fn wf(&self) -> bool {
        distinct_keys(self@)
    }

    /// An empty prompt.
    pub fn new() -> (p: Self)
        ensures
            p.wf(),
            p@ == Seq::<(Seq<char>, Seq<char>)>::empty(),
    {
        StructuredPrompt(index_map_new())
    }

    /// A prompt holding the entries of `map`, in its order.
    pub fn from_map(map: IndexMap<String, String>) -> (p: Self)
        ensures
            p@ == index_map_entries(map),
    {
        StructuredPrompt(map)
    }

    /// The prompt with `value` stored under `key` (builder style).
    pub fn with(self, key: String, value: String) -> (p: Self)
        requires
            self.wf(),
        ensures
            p.wf(),
            p@ == insert_entry(self@, key@, value@),
    {
        let mut p = self;
        p.set(key, value);
        p
    }

    /// The component stored under `key`.
    pub fn get(&self, key: &str) -> (r: Option<&String>)
        requires
            self.wf(),
        ensures
            match r {
                Some(v) => has_key(self@, key@) && v@ == self@[key_pos(self@, key@)].1,
                None => !has_key(self@, key@),
            },
    {
        index_map_get(&self.0, key)
    }

    /// Stores `value` under `key`; an existing key keeps its place.
    pub fn set(&mut self, key: String, value: String)
        requires
            old(self).wf(),
        ensures
            final(self).wf(),
            final(self)@ == insert_entry(old(self)@, key@, value@),
    {
        proof {
            crate::strmap::lemma_insert_entry(self@, key@, value@);
        }
        let _ = index_map_insert(&mut self.0, key, value);
    }

    /// Removes the component under `key`, returning it; later components keep
    /// their order.
    pub fn remove(&mut self, key: &str) -> (r: Option<String>)
        requires
            old(self).wf(),
        ensures
            final(self).wf(),
            final(self)@ == remove_entry(old(self)@, key@),
            match r {
                Some(v) => has_key(old(self)@, key@) && v@ == old(self)@[key_pos(old(self)@, key@)].1,
                None => !has_key(old(self)@, key@),
            },
    {
        proof {
            crate::strmap::lemma_remove_entry(self@, key@);
        }
        index_map_shift_remove(&mut self.0, key)
    }

    /// The keys in order.
    pub fn keys(&self) -> (r: Vec<String>)
        ensures
            views(r@) == self@.map_values(|e: (Seq<char>, Seq<char>)| e.0),
    {
        self.ordered_keys()
    }

    /// The entries in order.
    pub fn iter(&self) -> (r: Vec<(String, String)>)
        ensures
            r@.map_values(|e: (String, String)| (e.0@, e.1@)) == self@,
            self.wf(),
    {
        index_map_pairs(&self.0)
    }

    /// Number of components.
    pub fn len(&self) -> (n: usize)
        ensures
            n == self@.len(),
    {
        index_map_len(&self.0)
    }

    /// Whether there are no components.
    pub fn is_empty(&self) -> (b: bool)
        ensures
            b == (self@.len() == 0),
    {
        index_map_len(&self.0) == 0
    }

    /// The keys in order.
    pub fn ordered_keys(&self) -> (r: Vec<String>)
        ensures
            views(r@) == self@.map_values(|e: (Seq<char>, Seq<char>)| e.0),
    {
        let pairs = index_map_pairs(&self.0);
        let ghost ps = pairs@.map_values(|e: (String, String)| (e.0@, e.1@));
        let mut r: Vec<String> = Vec::new();
        let mut i: usize = 0;
        while i < pairs.len()
            invariant
                i <= pairs.len(),
                ps == pairs@.map_values(|e: (String, String)| (e.0@, e.1@)),
                views(r@) == ps.subrange(0, i as int).map_values(
                    |e: (Seq<char>, Seq<char>)| e.0,
                ),
            decreases pairs.len() - i,
        {
            let ghost before = views(r@);
            let k = pairs[i].0.clone();
            assert(k@ == ps[i as int].0);
            r.push(k);
            assert(views(r@) =~= before.push(ps[i as int].0));
            assert(ps.subrange(0, i + 1).map_values(|e: (Seq<char>, Seq<char>)| e.0) =~= ps.subrange(
                0,
                i as int,
            ).map_values(|e: (Seq<char>, Seq<char>)| e.0).push(ps[i as int].0));
            i = i + 1;
        }
        assert(ps.subrange(0, i as int) =~= ps);
        r
    }

    /// The prompt as pretty-printed JSON, keys in order; this always
    /// succeeds.
    pub fn to_json(&self) -> (r: Result<String, PromptError>)
        ensures
            match r {
                Ok(s) => s@ == pretty_json_text(self@) && json_string_map(s@) == Some(self@),
                Err(_) => false,
            },
    {
        match render_string_map(&self.0) {
            Ok(s) => Ok(s),
            Err(e) => Err(PromptError::Serialize(json_error_text(&e))),
        }
    }

    /// Parses a JSON object of strings, keeping the order of its keys.
    pub fn from_json(json: &str) -> (r: Result<Self, PromptError>)
        ensures
            match r {
                Ok(p) => p.wf() && json_string_map(json@) == Some(p@),
                Err(_) => json_string_map(json@) is None,
            },
    {
        match parse_string_map(json) {
            Ok(m) => Ok(StructuredPrompt(m)),
            Err(e) => Err(PromptError::InvalidJson(json_error_text(&e))),
        }
    }

    /// The underlying ordered map.
    pub fn deref(&self) -> (r: &IndexMap<String, String>)
        ensures
            index_map_entries(*r) == self@,
    {
        &self.0
    }

    /// A prompt with the same components.
    pub fn duplicate(&self) -> (r: Self)
        ensures
            r@ == self@,
    {
        StructuredPrompt(index_map_clone(&self.0))
    }
}

/// A prompt written as JSON by `to_json` reads back with `from_json` as the
/// same components in the same order: `text` is what `to_json` gave for `p`
/// and `r` what `from_json` gave for `text`.
pub proof fn law_json_roundtrip(p: StructuredPrompt, text: String, r: Result<StructuredPrompt, PromptError>)
    requires
        text@ == pretty_json_text(p@) && json_string_map(text@) == Some(p@),
        match r {
            Ok(q) => q.wf() && json_string_map(text@) == Some(q@),
            Err(_) => json_string_map(text@) is None,
        },
    ensures
        r matches Ok(q) && q@ == p@,
{
}

// ==================== PromptTemplate ====================

/// How components are assembled into a prompt.
#[derive(Debug, Clone)]
pub struct PromptTemplate {
    /// Placed between consecutive components.
    pub separator: String,
    /// Whether each component is preceded by a title line.
    pub include_titles: bool,
    /// The title line; `{title}` stands for the component's key.
    pub title_format: String,
    /// Keys of components left out of the prompt.
    pub disabled: Vec<String>,
}

/// Default separator: a blank line.
pub fn default_separator() -> (s: String)
    ensures
        s@ == seq!['\n', '\n'],
{
    let v: Vec<char> = vec!['\n', '\n'];
    string_of(&v)
}

/// Titles are included by default.
pub fn default_include_titles() -> (b: bool)
    ensures
        b,
{
    true
}

/// Default title line: `## {title}`.
pub fn default_title_format() -> (s: String)
    ensures
        s@ == seq!['#', '#', ' ', '{', 't', 'i', 't', 'l', 'e', '}'],
{
    let v: Vec<char> = vec!['#', '#', ' ', '{', 't', 'i', 't', 'l', 'e', '}'];
    string_of(&v)
}

/// The placeholder for a component's key in a title line.
pub open spec fn title_placeholder() -> Seq<char> {
    seq!['{', 't', 'i', 't', 'l', 'e', '}']
}

/// The settings of a template, as character sequences.
pub struct TemplateSpec {
    pub separator: Seq<char>,
    pub include_titles: bool,
    pub title_format: Seq<char>,
    pub disabled: Seq<Seq<char>>,
}

impl TemplateSpec {
    /// Whether components under `key` are left out.
    pub open spec fn disables(&self, key: Seq<char>) -> bool {
        self.disabled.contains(key)
    }
}

/// The settings of the default template: a blank line between
/// components, titles `## {title}`, nothing disabled.
pub open spec fn default_template() -> TemplateSpec {
    TemplateSpec {
        separator: seq!['\n', '\n'],
        include_titles: true,
        title_format: seq!['#', '#', ' ', '{', 't', 'i', 't', 'l', 'e', '}'],
        disabled: seq![],
    }
}

impl View for PromptTemplate {
    type V = TemplateSpec;

    open spec fn view(&self) -> TemplateSpec {
        TemplateSpec {
            separator: self.separator@,
            include_titles: self.include_titles,
            title_format: self.title_format@,
            disabled: views(self.disabled@),
        }
    }
}

impl PromptTemplate {
    /// Whether components under `key` are left out.
    pub open spec fn disables(&self, key: Seq<char>) -> bool {
        views(self.disabled@).contains(key)
    }

    /// The default template: blank-line separator, titles `## {title}`,
    /// nothing disabled.
    pub fn new() -> (t: Self)
        ensures
            t.separator@ == seq!['\n', '\n'],
            t.include_titles,
            t.title_format@ == seq!['#', '#', ' ', '{', 't', 'i', 't', 'l', 'e', '}'],
            t.disabled@.len() == 0,
            t@ == default_template(),
    {
        let t = PromptTemplate {
            separator: default_separator(),
            include_titles: default_include_titles(),
            title_format: default_title_format(),
            disabled: Vec::new(),
        };
        assert(t@.disabled =~= Seq::<Seq<char>>::empty());
        t
    }

    /// The template with another separator.
    pub fn with_separator(self, separator: String) -> (t: Self)
        ensures
            t == (PromptTemplate { separator, ..self }),
    {
        PromptTemplate { separator, ..self }
    }

    /// The template with titles switched on or off.
    pub fn with_titles(self, enabled: bool) -> (t: Self)
        ensures
            t == (PromptTemplate { include_titles: enabled, ..self }),
    {
        PromptTemplate { include_titles: enabled, ..self }
    }

    /// The template with another title line.
    pub fn with_title_format(self, format: String) -> (t: Self)
        ensures
            t == (PromptTemplate { title_format: format, ..self }),
    {
        PromptTemplate { title_format: format, ..self }
    }

    /// The template with `key` disabled as well.
    pub fn disable(self, key: String) -> (t: Self)
        ensures
            t.separator == self.separator,
            t.include_titles == self.include_titles,
            t.title_format == self.title_format,
            t.disabled@ == self.disabled@.push(key),
    {
        let mut t = self;
        t.disabled.push(key);
        t
    }

    /// Whether `key` is disabled.
    pub fn is_disabled(&self, key: &str) -> (b: bool)
        ensures
            b == self.disables(key@),
    {
        let mut i: usize = 0;
        while i < self.disabled.len()
            invariant
                i <= self.disabled.len(),
                forall|j: int| 0 <= j < i ==> #[trigger] self.disabled@[j]@ != key@,
            decreases self.disabled.len() - i,
        {
            if str_eq(self.disabled[i].as_str(), key) {
                assert(views(self.disabled@)[i as int] == key@);
                return true;
            }
            i = i + 1;
        }
        proof {
            if views(self.disabled@).contains(key@) {
                let j = choose|j: int| 0 <= j < views(self.disabled@).len() && views(self.disabled@)[j] == key@;
                assert(self.disabled@[j]@ == key@);
            }
        }
        false
    }

    /// Whether two templates have the same settings.
    pub open spec fn same_as(&self, other: &PromptTemplate) -> bool {
        &&& self.separator@ == other.separator@
        &&& self.include_titles == other.include_titles
        &&& self.title_format@ == other.title_format@
        &&& self.disabled@ == other.disabled@
    }

    /// A template with the same settings.
    pub fn duplicate(&self) -> (t: Self)
        ensures
            t.same_as(self),
            t@ == self@,
    {
        let mut disabled: Vec<String> = Vec::new();
        let mut i: usize = 0;
        while i < self.disabled.len()
            invariant
                i <= self.disabled.len(),
                disabled@ == self.disabled@.subrange(0, i as int),
            decreases self.disabled.len() - i,
        {
            disabled.push(self.disabled[i].clone());
            i = i + 1;
            assert(disabled@ =~= self.disabled@.subrange(0, i as int));
        }
        assert(disabled@ =~= self.disabled@);
        PromptTemplate {
            separator: self.separator.clone(),
            include_titles: self.include_titles,
            title_format: self.title_format.clone(),
            disabled,
        }
    }
}

// ==================== PromptContext ====================

/// Runtime variables for `{{name}}` placeholders.
#[derive(Debug, Clone)]
pub struct PromptContext {
    variables: StrMap<String>,
}

impl View for PromptContext {
    type V = Map<Seq<char>, Seq<char>>;

    closed spec fn view(&self) -> Map<Seq<char>, Seq<char>> {
        self.variables@.map_values(|v: String| v@)
    }
}

impl PromptContext {
    pub closed spec fn wf(&self) -> bool {
        self.variables.wf()
    }

    /// A context with no variables.
    pub fn new() -> (c: Self)
        ensures
            c.wf(),
            c@ == Map::<Seq<char>, Seq<char>>::empty(),
    {
        let c = PromptContext { variables: StrMap::new() };
        assert(c@ =~= Map::<Seq<char>, Seq<char>>::empty());
        c
    }

    /// A context holding the variables of `map`.
    pub fn from_map(map: StrMap<String>) -> (c: Self)
        requires
            map.wf(),
        ensures
            c.wf(),
            c@ == map@.map_values(|v: String| v@),
    {
        PromptContext { variables: map }
    }

    /// The context with variable `key` set to `value` (builder style).
    pub fn set(self, key: String, value: String) -> (c: Self)
        requires
            self.wf(),
        ensures
            c.wf(),
            c@ == self@.insert(key@, value@),
    {
        let mut c = self;
        c.insert(key, value);
        c
    }

    /// Sets variable `key` to `value`.
    pub fn insert(&mut self, key: String, value: String)
        requires
            old(self).wf(),
        ensures
            final(self).wf(),
            final(self)@ == old(self)@.insert(key@, value@),
    {
        let ghost k = key@;
        let ghost v = value;
        let _ = self.variables.insert(key, value);
        assert(self@ =~= old(self)@.insert(k, v@));
    }

    /// The value of variable `key`.
    pub fn get(&self, key: &str) -> (r: Option<&String>)
        requires
            self.wf(),
        ensures
            match r {
                Some(v) => self@.contains_key(key@) && v@ == self@[key@],
                None => !self@.contains_key(key@),
            },
    {
        self.variables.get(key)
    }

    /// Removes variable `key`, returning its value.
    pub fn remove(&mut self, key: &str) -> (r: Option<String>)
        requires
            old(self).wf(),
        ensures
            final(self).wf(),
            final(self)@ == old(self)@.remove(key@),
            match r {
                Some(v) => old(self)@.contains_key(key@) && v@ == old(self)@[key@],
                None => !old(self)@.contains_key(key@),
            },
    {
        let r = self.variables.remove(key);
        assert(self@ =~= old(self)@.remove(key@));
        r
    }

    /// All variables.
    pub fn variables(&self) -> (r: &StrMap<String>)
        requires
            self.wf(),
        ensures
            r.wf(),
            r@.map_values(|v: String| v@) == self@,
    {
        &self.variables
    }

    /// Copies every variable of `other` into this context, overwriting
    /// variables of the same name.
    pub fn merge(&mut self, other: &PromptContext)
        requires
            old(self).wf(),
            other.wf(),
        ensures
            final(self).wf(),
            final(self)@ == old(self)@.union_prefer_right(other@),
    {
        let entries = other.variables.entries();
        let ghost ps = entries@.map_values(|e: (String, String)| (e.0@, e.1));
        let ghost start = self@;
        let mut i: usize = 0;
        while i < entries.len()
            invariant
                i <= entries.len(),
                self.wf(),
                other.wf(),
                ps == entries@.map_values(|e: (String, String)| (e.0@, e.1)),
                ps == other.variables.pairs(),
                self@ == start.union_prefer_right(
                    crate::strmap::map_of(ps.subrange(0, i as int)).map_values(|v: String| v@),
                ),
            decreases entries.len() - i,
        {
            let k = entries[i].0.clone();
            let v = entries[i].1.clone();
            proof {
                let pre = ps.subrange(0, i as int);
                let post = ps.subrange(0, i + 1);
                assert(post =~= pre.push(ps[i as int]));
                assert(crate::strmap::distinct_keys(post));
                assert(!has_key(pre, ps[i as int].0)) by {
                    if has_key(pre, ps[i as int].0) {
                        let j = key_pos(pre, ps[i as int].0);
                        assert(ps[j].0 == ps[i as int].0);
                    }
                }
                assert(insert_entry(pre, ps[i as int].0, ps[i as int].1) == post);
                crate::strmap::lemma_insert_entry(pre, ps[i as int].0, ps[i as int].1);
            }
            self.insert(k, v);
            proof {
                let pre = ps.subrange(0, i as int);
                let post = ps.subrange(0, i + 1);
                assert(self@ =~= start.union_prefer_right(
                    crate::strmap::map_of(post).map_values(|v: String| v@),
                ));
            }
            i = i + 1;
        }
        assert(ps.subrange(0, i as int) =~= ps);
        assert(self@ =~= old(self)@.union_prefer_right(other@));
    }
}

/// A variable read after it is set gives the value that was set.
pub proof fn law_context_read_after_set(c: Map<Seq<char>, Seq<char>>, k: Seq<char>, v: Seq<char>)
    ensures
        c.insert(k, v)[k] == v,
        c.insert(k, v).contains_key(k),
{
}

// ==================== placeholder resolution (specification) ====================

/// `[函数: name(args)]`, the marker for a function-call placeholder.
pub open spec fn call_text(expr: Seq<char>) -> Seq<char> {
    let p = find_char(expr, '(', 0);
    let name = trim(expr.subrange(0, p));
    let args = trim(expr.subrange(p + 1, expr.len() - 1));
    seq!['[', '函', '数', ':', ' '] + name + seq!['('] + args + seq![')', ']']
}

/// `[无效函数调用: expr]`, the marker for an expression without `(`.
pub open spec fn invalid_call_text(expr: Seq<char>) -> Seq<char> {
    seq!['[', '无', '效', '函', '数', '调', '用', ':', ' '] + expr + seq![']']
}

/// What a function expression renders to.
pub open spec fn function_text(expr: Seq<char>) -> Seq<char> {
    if expr.contains('(') {
        call_text(expr)
    } else {
        invalid_call_text(expr)
    }
}

/// A function expression can be rendered: its first `(` is not its last
/// character, and its last character is ASCII.  (The text between them is
/// cut off at the last byte; on other expressions that cut is not a valid
/// slice.)
pub open spec fn call_ok(expr: Seq<char>) -> bool {
    expr.contains('(') ==> (find_char(expr, '(', 0) < expr.len() - 1 && (expr.last() as u32) < 128)
}

/// What a placeholder is replaced by: `ph` is its trimmed text and `raw`
/// the placeholder as written, braces included.  A function call renders
/// its marker, a known variable its value; an unknown variable stays as
/// written.
pub open spec fn replacement(ph: Seq<char>, raw: Seq<char>, vars: Map<Seq<char>, Seq<char>>) -> Seq<char> {
    if ph.contains('(') {
        call_text(ph)
    } else if vars.contains_key(ph) {
        vars[ph]
    } else {
        raw
    }
}

/// The placeholder between `{{` at `b` and `}}` at `e`, trimmed.
pub open spec fn placeholder(s: Seq<char>, b: int, e: int) -> Seq<char> {
    trim(s.subrange(b + 2, e))
}

/// The first `{{` at or after `pos`, and the first `}}` after it.
pub open spec fn open_at(s: Seq<char>, pos: int) -> int {
    find_pair(s, '{', '{', pos)
}

pub open spec fn close_after(s: Seq<char>, b: int) -> int {
    find_pair(s, '}', '}', b)
}

/// `s[pos..]` with its placeholders resolved, scanning left to right; text
/// substituted in is not scanned again.  An `{{` without a later `}}` ends the
/// scan.
pub open spec fn resolve_from(s: Seq<char>, pos: int, vars: Map<Seq<char>, Seq<char>>) -> Seq<char>
    decreases s.len() - pos,
{
    if pos < 0 || pos > s.len() {
        seq![]
    } else {
        let b = open_at(s, pos);
        let e = close_after(s, b);
        if b < 0 || e < 0 {
            s.subrange(pos, s.len() as int)
        } else {
            proof {
                lemma_find_pair(s, '{', '{', pos);
                lemma_find_pair(s, '}', '}', b);
            }
            s.subrange(pos, b) + replacement(placeholder(s, b, e), s.subrange(b, e + 2), vars) + resolve_from(
                s,
                e + 2,
                vars,
            )
        }
    }
}

/// Every function placeholder met while resolving `s[pos..]` can be rendered.
pub open spec fn resolvable_from(s: Seq<char>, pos: int) -> bool
    decreases s.len() - pos,
{
    if pos < 0 || pos > s.len() {
        true
    } else {
        let b = open_at(s, pos);
        let e = close_after(s, b);
        if b < 0 || e < 0 {
            true
        } else {
            proof {
                lemma_find_pair(s, '{', '{', pos);
                lemma_find_pair(s, '}', '}', b);
            }
            call_ok(placeholder(s, b, e)) && resolvable_from(s, e + 2)
        }
    }
}

/// `s` with its placeholders resolved against `vars`.
pub open spec fn resolve(s: Seq<char>, vars: Map<Seq<char>, Seq<char>>) -> Seq<char> {
    resolve_from(s, 0, vars)
}

pub open spec fn resolvable(s: Seq<char>) -> bool {
    resolvable_from(s, 0)
}

// ==================== prompt assembly (specification) ====================

/// The section a component contributes: nothing when it is disabled or
/// resolves to empty text; otherwise the resolved text, preceded by its title
/// line and a blank line when `titles` holds.
pub open spec fn section(
    t: TemplateSpec,
    titles: bool,
    key: Seq<char>,
    content: Seq<char>,
    vars: Map<Seq<char>, Seq<char>>,
) -> Seq<Seq<char>> {
    let r = resolve(content, vars);
    if t.disables(key) || r.len() == 0 {
        seq![]
    } else if titles {
        seq![replace_all(t.title_format, title_placeholder(), key) + seq!['\n', '\n'] + r]
    } else {
        seq![r]
    }
}

/// The sections of the components, in order.
pub open spec fn sections(
    t: TemplateSpec,
    titles: bool,
    entries: Seq<(Seq<char>, Seq<char>)>,
    vars: Map<Seq<char>, Seq<char>>,
) -> Seq<Seq<char>>
    decreases entries.len(),
{
    if entries.len() == 0 {
        seq![]
    } else {
        sections(t, titles, entries.drop_last(), vars) + section(
            t,
            titles,
            entries.last().0,
            entries.last().1,
            vars,
        )
    }
}

/// Every enabled component can be resolved.
pub open spec fn buildable(t: TemplateSpec, entries: Seq<(Seq<char>, Seq<char>)>) -> bool {
    forall|i: int| 0 <= i < entries.len() && !t.disables(#[trigger] entries[i].0) ==> resolvable(entries[i].1)
}

/// The assembled prompt.
pub open spec fn assemble(
    t: TemplateSpec,
    titles: bool,
    entries: Seq<(Seq<char>, Seq<char>)>,
    vars: Map<Seq<char>, Seq<char>>,
) -> Seq<char> {
    join(sections(t, titles, entries, vars), t.separator)
}

// ==================== PromptBuilder ====================

/// Assembles structured prompts with a template.
#[derive(Debug, Clone)]
pub struct PromptBuilder {
    template: PromptTemplate,
}

impl PromptBuilder {
    pub closed spec fn template_spec(&self) -> PromptTemplate {
        self.template
    }

    /// A builder with the default template.
    pub fn new() -> (b: Self)
        ensures
            b.template_spec().separator@ == seq!['\n', '\n'],
            b.template_spec().include_titles,
            b.template_spec().title_format@ == seq!['#', '#', ' ', '{', 't', 'i', 't', 'l', 'e', '}'],
            b.template_spec().disabled@.len() == 0,
    {
        PromptBuilder { template: PromptTemplate::new() }
    }

    /// A builder with `template`.
    pub fn with_template(template: PromptTemplate) -> (b: Self)
        ensures
            b.template_spec() == template,
    {
        PromptBuilder { template }
    }

    /// The template.
    pub fn template(&self) -> (t: &PromptTemplate)
        ensures
            *t == self.template_spec(),
    {
        &self.template
    }

    /// The template, for changing it.
    pub fn template_mut(&mut self) -> (t: &mut PromptTemplate)
        ensures
            *t == old(self).template_spec(),
            final(self).template_spec() == *final(t),
    {
        &mut self.template
    }

    /// The system prompt: the enabled components in the prompt's order, each
    /// resolved against `context`, empty ones left out, titled when the
    /// template asks for titles, joined with the separator.
    pub fn build(&self, prompt: &StructuredPrompt, context: &PromptContext) -> (r: String)
        requires
            context.wf(),
            buildable(self.template_spec()@, prompt@),
        ensures
            r@ == assemble(self.template_spec()@, self.template_spec().include_titles, prompt@, context@),
    {
        self.assemble_with(prompt, context, self.template.include_titles)
    }

    /// Like `build`, without titles.
    pub fn build_simple(&self, prompt: &StructuredPrompt, context: &PromptContext) -> (r: String)
        requires
            context.wf(),
            buildable(self.template_spec()@, prompt@),
        ensures
            r@ == assemble(self.template_spec()@, false, prompt@, context@),
    {
        self.assemble_with(prompt, context, false)
    }

    fn assemble_with(&self, prompt: &StructuredPrompt, context: &PromptContext, titles: bool) -> (r: String)
        requires
            context.wf(),
            buildable(self.template_spec()@, prompt@),
        ensures
            r@ == assemble(self.template_spec()@, titles, prompt@, context@),
    {
        let t = &self.template;
        let pairs = prompt.iter();
        let ghost es = prompt@;
        let title_pat: Vec<char> = vec!['{', 't', 'i', 't', 'l', 'e', '}'];
        let title_format = chars_of(t.title_format.as_str());
        let mut parts: Vec<Vec<char>> = Vec::new();
        let mut i: usize = 0;
        while i < pairs.len()
            invariant
                i <= pairs.len(),
                context.wf(),
                es == prompt@,
                *t == self.template_spec(),
                pairs@.map_values(|e: (String, String)| (e.0@, e.1@)) == es,
                buildable(t@, es),
                title_pat@ == title_placeholder(),
                title_format@ == t.title_format@,
                parts@.map_values(|p: Vec<char>| p@) == sections(t@, titles, es.subrange(0, i as int), context@),
            decreases pairs.len() - i,
        {
            proof {
                assert(es.subrange(0, i + 1).drop_last() =~= es.subrange(0, i as int));
                assert(es.subrange(0, i + 1).last() == es[i as int]);
                assert(es[i as int] == (pairs@[i as int].0@, pairs@[i as int].1@));
            }
            let ghost prev = parts@.map_values(|p: Vec<char>| p@);
            let ghost sec = section(t@, titles, es[i as int].0, es[i as int].1, context@);
            assert(sections(t@, titles, es.subrange(0, i + 1), context@) == prev + sec);
            let key = &pairs[i].0;
            if !t.is_disabled(key.as_str()) {
                assert(!t@.disables(es[i as int].0));
                let content = chars_of(pairs[i].1.as_str());
                let resolved = resolve_chars(&content, context);
                if resolved.len() > 0 {
                    if titles {
                        let key_chars = chars_of(key.as_str());
                        let mut part = replace_all_in(&title_format, &title_pat, &key_chars);
                        part.push('\n');
                        part.push('\n');
                        push_all(&mut part, &resolved);
                        assert(part@ =~= replace_all(t.title_format@, title_placeholder(), es[i as int].0)
                            + seq!['\n', '\n'] + resolve(es[i as int].1, context@));
                        parts.push(part);
                    } else {
                        parts.push(resolved);
                    }
                    assert(parts@.map_values(|p: Vec<char>| p@) =~= prev + sec);
                } else {
                    assert(sec =~= Seq::<Seq<char>>::empty());
                    assert(parts@.map_values(|p: Vec<char>| p@) =~= prev + sec);
                }
            } else {
                assert(sec =~= Seq::<Seq<char>>::empty());
                assert(parts@.map_values(|p: Vec<char>| p@) =~= prev + sec);
            }
            i = i + 1;
        }
        assert(es.subrange(0, i as int) =~= es);
        let sep = chars_of(t.separator.as_str());
        let joined = join_chars(&parts, &sep);
        string_of(&joined)
    }

    /// `content` with its `{{...}}` placeholders resolved; unknown variables
    /// are left as they are.
    pub fn resolve_variables(&self, content: &str, context: &PromptContext) -> (r: String)
        requires
            context.wf(),
            resolvable(content@),
        ensures
            r@ == resolve(content@, context@),
    {
        let s = chars_of(content);
        let out = resolve_chars(&s, context);
        string_of(&out)
    }

    /// The marker text for a function expression `name(args)`.
    pub fn resolve_function(&self, expr: &str, context: &PromptContext) -> (r: String)
        requires
            call_ok(expr@),
        ensures
            r@ == function_text(expr@),
    {
        let e = chars_of(expr);
        let out = function_chars(&e);
        string_of(&out)
    }
}

/// The marker text for a function expression.
fn function_chars(e: &Vec<char>) -> (r: Vec<char>)
    requires
        call_ok(e@),
    ensures
        r@ == function_text(e@),
{
    proof {
        lemma_find_char_contains(e@, '(');
        lemma_find_char(e@, '(', 0);
    }
    match find_char_in(e, '(', 0) {
        Some(p) => {
            let (a, b) = trim_bounds(e, 0, p);
            let (c, d) = trim_bounds(e, p + 1, e.len() - 1);
            let mut r: Vec<char> = vec!['[', '函', '数', ':', ' '];
            push_range(&mut r, e, a, b);
            r.push('(');
            push_range(&mut r, e, c, d);
            r.push(')');
            r.push(']');
            assert(r@ =~= call_text(e@));
            r
        },
        None => {
            let mut r: Vec<char> = vec!['[', '无', '效', '函', '数', '调', '用', ':', ' '];
            push_all(&mut r, e);
            r.push(']');
            assert(r@ =~= invalid_call_text(e@));
            r
        },
    }
}

/// What a placeholder is replaced by; `raw` is the placeholder as written.
fn replacement_chars(ph: &Vec<char>, raw: Vec<char>, context: &PromptContext) -> (r: Vec<char>)
    requires
        context.wf(),
        call_ok(ph@),
    ensures
        r@ == replacement(ph@, raw@, context@),
{
    proof {
        lemma_find_char_contains(ph@, '(');
    }
    if find_char_in(ph, '(', 0).is_some() {
        function_chars(ph)
    } else {
        let key = string_of(ph);
        match context.get(key.as_str()) {
            Some(v) => chars_of(v.as_str()),
            None => raw,
        }
    }
}

/// `s` with its placeholders resolved.
fn resolve_chars(s: &Vec<char>, context: &PromptContext) -> (r: Vec<char>)
    requires
        context.wf(),
        resolvable(s@),
    ensures
        r@ == resolve(s@, context@),
{
    let mut out: Vec<char> = Vec::new();
    let mut pos: usize = 0;
    loop
        invariant_except_break
            out@ + resolve_from(s@, pos as int, context@) == resolve(s@, context@),
        invariant
            pos <= s.len(),
            context.wf(),
            resolvable_from(s@, pos as int),
        ensures
            out@ == resolve(s@, context@),
        decreases s.len() - pos,
    {
        proof {
            lemma_find_pair(s@, '{', '{', pos as int);
        }
        let ob = find_pair_in(s, '{', '{', pos);
        let ghost before = out@;
        match ob {
            None => {
                push_range(&mut out, s, pos, s.len());
                assert(out@ == before + resolve_from(s@, pos as int, context@));
                break ;
            },
            Some(b) => {
                proof {
                    lemma_find_pair(s@, '}', '}', b as int);
                }
                let oe = find_pair_in(s, '}', '}', b);
                match oe {
                    None => {
                        push_range(&mut out, s, pos, s.len());
                        assert(out@ == before + resolve_from(s@, pos as int, context@));
                        break ;
                    },
                    Some(e) => {
                        assert(s@[b + 1] == '{');
                        assert(b + 2 <= e);
                        let (lo, hi) = trim_bounds(s, b + 2, e);
                        let ph = slice(s, lo, hi);
                        let rep = replacement_chars(&ph, slice(s, b, e + 2), context);
                        push_range(&mut out, s, pos, b);
                        push_all(&mut out, &rep);
                        assert(out@ + resolve_from(s@, e + 2, context@) =~= before + resolve_from(
                            s@,
                            pos as int,
                            context@,
                        ));
                        pos = e + 2;
                    },
                }
            },
        }
    }
    out
}

/// Whether a function expression can be rendered.
fn call_ok_chars(e: &Vec<char>) -> (b: bool)
    ensures
        b == call_ok(e@),
{
    proof {
        lemma_find_char_contains(e@, '(');
    }
    match find_char_in(e, '(', 0) {
        None => true,
        Some(p) => {
            let last = e[e.len() - 1];
            p < e.len() - 1 && (last as u32) < 128
        },
    }
}

/// Whether every function placeholder met while resolving `s` can be
/// rendered.
fn resolvable_chars(s: &Vec<char>) -> (b: bool)
    ensures
        b == resolvable(s@),
{
    let mut pos: usize = 0;
    loop
        invariant
            pos <= s.len(),
            resolvable(s@) == resolvable_from(s@, pos as int),
        decreases s.len() - pos,
    {
        proof {
            lemma_find_pair(s@, '{', '{', pos as int);
        }
        match find_pair_in(s, '{', '{', pos) {
            None => {
                return true;
            },
            Some(b) => {
                proof {
                    lemma_find_pair(s@, '}', '}', b as int);
                }
                match find_pair_in(s, '}', '}', b) {
                    None => {
                        return true;
                    },
                    Some(e) => {
                        assert(s@[b + 1] == '{');
                        assert(b + 2 <= e);
                        let (lo, hi) = trim_bounds(s, b + 2, e);
                        let ph = slice(s, lo, hi);
                        if !call_ok_chars(&ph) {
                            return false;
                        }
                        pos = e + 2;
                    },
                }
            },
        }
    }
}

impl PromptBuilder {
    /// Whether `build` can assemble `prompt`: every enabled component can be
    /// resolved.
    pub fn can_build(&self, prompt: &StructuredPrompt) -> (b: bool)
        ensures
            b == buildable(self.template_spec()@, prompt@),
            prompt.wf(),
    {
        let pairs = prompt.iter();
        let ghost es = prompt@;
        let mut i: usize = 0;
        while i < pairs.len()
            invariant
                i <= pairs.len(),
                es == prompt@,
                prompt.wf(),
                pairs@.map_values(|e: (String, String)| (e.0@, e.1@)) == es,
                forall|j: int|
                    0 <= j < i && !self.template_spec()@.disables(#[trigger] es[j].0) ==> resolvable(es[j].1),
            decreases pairs.len() - i,
        {
            assert(es[i as int] == (pairs@[i as int].0@, pairs@[i as int].1@));
            if !self.template.is_disabled(pairs[i].0.as_str()) {
                assert(!self.template_spec()@.disables(es[i as int].0));
                let content = chars_of(pairs[i].1.as_str());
                if !resolvable_chars(&content) {
                    assert(!resolvable(es[i as int].1));
                    return false;
                }
            }
            i = i + 1;
        }
        true
    }
}

/// A text without `{{` resolves to itself.
pub proof fn law_resolve_plain_text(s: Seq<char>, vars: Map<Seq<char>, Seq<char>>)
    requires
        find_pair(s, '{', '{', 0) == -1,
    ensures
        resolve(s, vars) == s,
{
    assert(s.subrange(0, s.len() as int) =~= s);
}

/// A prompt whose components are all disabled assembles to the empty text.
pub proof fn law_all_disabled_is_empty(
    t: TemplateSpec,
    titles: bool,
    entries: Seq<(Seq<char>, Seq<char>)>,
    vars: Map<Seq<char>, Seq<char>>,
)
    requires
        forall|i: int| 0 <= i < entries.len() ==> t.disables(#[trigger] entries[i].0),
    ensures
        assemble(t, titles, entries, vars) == Seq::<char>::empty(),
    decreases entries.len(),
{
    lemma_sections_all_disabled(t, titles, entries, vars);
}

proof fn lemma_sections_all_disabled(
    t: TemplateSpec,
    titles: bool,
    entries: Seq<(Seq<char>, Seq<char>)>,
    vars: Map<Seq<char>, Seq<char>>,
)
    requires
        forall|i: int| 0 <= i < entries.len() ==> t.disables(#[trigger] entries[i].0),
    ensures
        sections(t, titles, entries, vars) == Seq::<Seq<char>>::empty(),
    decreases entries.len(),
{
    if entries.len() > 0 {
        let d = entries.drop_last();
        assert forall|i: int| 0 <= i < d.len() implies t.disables(#[trigger] d[i].0) by {
            assert(d[i] == entries[i]);
        }
        lemma_sections_all_disabled(t, titles, d, vars);
        assert(t.disables(entries[entries.len() - 1].0));
        assert(sections(t, titles, entries, vars) =~= Seq::<Seq<char>>::empty());
    }
}

// ==================== variable extraction ====================

/// The name a placeholder refers to: the part before `(` for a function
/// call, trimmed; otherwise the trimmed placeholder.
pub open spec fn placeholder_name(var: Seq<char>) -> Seq<char> {
    if var.contains('(') {
        trim(var.subrange(0, find_char(var, '(', 0)))
    } else {
        var
    }
}

/// The names of the placeholders of `s[pos..]`, in order of appearance.
pub open spec fn names_from(s: Seq<char>, pos: int) -> Seq<Seq<char>>
    decreases s.len() - pos,
{
    if pos < 0 || pos > s.len() {
        seq![]
    } else {
        let b = open_at(s, pos);
        let e = close_after(s, b);
        if b < 0 || e < 0 {
            seq![]
        } else {
            proof {
                lemma_find_pair(s, '{', '{', pos);
                lemma_find_pair(s, '}', '}', b);
            }
            seq![placeholder_name(placeholder(s, b, e))] + names_from(s, e + 2)
        }
    }
}

/// `acc` extended with the elements of `rest` it does not yet hold, in order.
pub open spec fn add_unique(acc: Seq<Seq<char>>, rest: Seq<Seq<char>>) -> Seq<Seq<char>>
    decreases rest.len(),
{
    if rest.len() == 0 {
        acc
    } else {
        add_unique(
            if acc.contains(rest[0]) {
                acc
            } else {
                acc.push(rest[0])
            },
            rest.drop_first(),
        )
    }
}

/// The distinct placeholder names of `text`, in order of first appearance.
pub open spec fn variable_names(text: Seq<char>) -> Seq<Seq<char>> {
    add_unique(seq![], names_from(text, 0))
}

proof fn lemma_add_unique_no_dup(acc: Seq<Seq<char>>, rest: Seq<Seq<char>>)
    requires
        acc.no_duplicates(),
    ensures
        add_unique(acc, rest).no_duplicates(),
    decreases rest.len(),
{
    if rest.len() > 0 {
        let next = if acc.contains(rest[0]) {
            acc
        } else {
            acc.push(rest[0])
        };
        assert(next.no_duplicates()) by {
            if !acc.contains(rest[0]) {
                assert forall|i: int, j: int|
                    0 <= i < next.len() && 0 <= j < next.len() && i != j implies next[i]
                    != next[j] by {
                    if i == acc.len() {
                        assert(next[j] == acc[j]);
                    } else if j == acc.len() {
                        assert(next[i] == acc[i]);
                    }
                }
            }
        }
        lemma_add_unique_no_dup(next, rest.drop_first());
    }
}

/// The names met in `s[pos..]` carry no surrounding whitespace.
proof fn lemma_names_trimmed(s: Seq<char>, pos: int)
    ensures
        forall|i: int| 0 <= i < names_from(s, pos).len() ==> trim(#[trigger] names_from(s, pos)[i])
            == names_from(s, pos)[i],
    decreases s.len() - pos,
{
    if 0 <= pos <= s.len() {
        let b = open_at(s, pos);
        let e = close_after(s, b);
        if b >= 0 && e >= 0 {
            lemma_find_pair(s, '{', '{', pos);
            lemma_find_pair(s, '}', '}', b);
            lemma_names_trimmed(s, e + 2);
            let ph = placeholder(s, b, e);
            let nm = placeholder_name(ph);
            if ph.contains('(') {
                lemma_trim_idempotent(ph.subrange(0, find_char(ph, '(', 0)));
            } else {
                lemma_trim_idempotent(s.subrange(b + 2, e));
            }
            assert(trim(nm) == nm);
            let all = seq![nm] + names_from(s, e + 2);
            assert forall|i: int| 0 <= i < all.len() implies trim(#[trigger] all[i]) == all[i] by {
                if i > 0 {
                    assert(all[i] == names_from(s, e + 2)[i - 1]);
                }
            }
        }
    }
}

/// Every element of `add_unique(acc, rest)` is an element of `acc` or of
/// `rest`.
proof fn lemma_add_unique_from(acc: Seq<Seq<char>>, rest: Seq<Seq<char>>, x: Seq<char>)
    requires
        add_unique(acc, rest).contains(x),
    ensures
        acc.contains(x) || rest.contains(x),
    decreases rest.len(),
{
    if rest.len() > 0 {
        let next = if acc.contains(rest[0]) {
            acc
        } else {
            acc.push(rest[0])
        };
        lemma_add_unique_from(next, rest.drop_first(), x);
        if next.contains(x) && !acc.contains(x) {
            let k = choose|k: int| 0 <= k < next.len() && next[k] == x;
            assert(x == rest[0]);
            assert(rest[0] == x);
        }
        if rest.drop_first().contains(x) {
            let k = choose|k: int| 0 <= k < rest.drop_first().len() && rest.drop_first()[k] == x;
            assert(rest[k + 1] == x);
        }
    }
}

/// Every name `extract_variables` gives is the placeholder's text without
/// surrounding whitespace (for a call, the trimmed text before `(`): no
/// name starts or ends with whitespace, so each is the name that resolving
/// looks up in the context.
pub proof fn law_variable_names_trimmed(text: Seq<char>, i: int)
    requires
        0 <= i < variable_names(text).len(),
    ensures
        trim(variable_names(text)[i]) == variable_names(text)[i],
        variable_names(text)[i].len() > 0 ==> !is_ws(variable_names(text)[i][0]) && !is_ws(
            variable_names(text)[i].last(),
        ),
{
    let x = variable_names(text)[i];
    assert(variable_names(text).contains(x));
    lemma_add_unique_from(seq![], names_from(text, 0), x);
    lemma_names_trimmed(text, 0);
    let k = choose|k: int| 0 <= k < names_from(text, 0).len() && names_from(text, 0)[k] == x;
    assert(trim(names_from(text, 0)[k]) == names_from(text, 0)[k]);
    lemma_trim_ends(x);
}

/// The names of the `{{...}}` placeholders of `text`, each once, in order of
/// first appearance; for `{{f(x)}}` the name is `f`.
pub fn extract_variables(text: &str) -> (r: Vec<String>)
    ensures
        views(r@) == variable_names(text@),
        views(r@).no_duplicates(),
{
    let s = chars_of(text);
    let mut vars: Vec<String> = Vec::new();
    let mut pos: usize = 0;
    assert(views(vars@) =~= Seq::<Seq<char>>::empty());
    loop
        invariant
            pos <= s.len(),
            s@ == text@,
            add_unique(views(vars@), names_from(s@, pos as int)) == variable_names(text@),
        ensures
            views(vars@) == variable_names(text@),
        decreases s.len() - pos,
    {
        proof {
            lemma_find_pair(s@, '{', '{', pos as int);
        }
        match find_pair_in(&s, '{', '{', pos) {
            None => break ,
            Some(b) => {
                proof {
                    lemma_find_pair(s@, '}', '}', b as int);
                }
                match find_pair_in(&s, '}', '}', b) {
                    None => break ,
                    Some(e) => {
                        assert(s@[b + 1] == '{');
                        let (lo, hi) = trim_bounds(&s, b + 2, e);
                        let var = slice(&s, lo, hi);
                        proof {
                            lemma_find_char_contains(var@, '(');
                            lemma_find_char(var@, '(', 0);
                        }
                        let name = match find_char_in(&var, '(', 0) {
                            Some(p) => {
                                let (a, c) = trim_bounds(&var, 0, p);
                                slice(&var, a, c)
                            },
                            None => var,
                        };
                        let ghost nm = name@;
                        let ghost before = views(vars@);
                        proof {
                            let rest = names_from(s@, e + 2);
                            assert(names_from(s@, pos as int) == seq![nm] + rest);
                            assert((seq![nm] + rest).drop_first() =~= rest);
                            assert((seq![nm] + rest)[0] == nm);
                        }
                        let name_str = string_of(&name);
                        if !contains_string(&vars, name_str.as_str()) {
                            vars.push(name_str);
                            assert(views(vars@) =~= before.push(nm));
                        }
                        pos = e + 2;
                    },
                }
            },
        }
    }
    proof {
        lemma_add_unique_no_dup(seq![], names_from(text@, 0));
    }
    vars
}

/// Whether `v` holds a string equal to `s`.
fn contains_string(v: &Vec<String>, s: &str) -> (b: bool)
    ensures
        b == views(v@).contains(s@),
{
    let mut i: usize = 0;
    while i < v.len()
        invariant
            i <= v.len(),
            forall|j: int| 0 <= j < i ==> #[trigger] v@[j]@ != s@,
        decreases v.len() - i,
    {
        if str_eq(v[i].as_str(), s) {
            assert(views(v@)[i as int] == s@);
            return true;
        }
        i = i + 1;
    }
    proof {
        if views(v@).contains(s@) {
            let j = choose|j: int| 0 <= j < views(v@).len() && views(v@)[j] == s@;
            assert(v@[j]@ == s@);
        }
    }
    false
}

} // verus!
