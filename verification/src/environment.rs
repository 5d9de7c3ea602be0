//! Test environments: the bundles of source documents, namespace bindings and
//! parameters a test case executes against, and their resolution by name.

use vstd::prelude::*;
use crate::error::prefixed;
use crate::strutil::{contains_seq, matches_at};

verus! {

/// An insertion-ordered map from names to values, with the semantics of a
/// hash map: inserting an existing key replaces its value, and a lookup
/// returns the value last inserted for the key.
#[derive(Debug)]
pub struct NameMap<V> {
    pub entries: Vec<(String, V)>,
}

/// The value bound to `key` in `entries`: the first match from the front.
pub open spec fn map_lookup<V>(entries: Seq<(String, V)>, key: Seq<char>) -> Option<V>
    decreases entries.len(),
{
    if entries.len() == 0 {
        None
    } else if entries[0].0@ == key {
        Some(entries[0].1)
    } else {
        map_lookup(entries.skip(1), key)
    }
}

impl<V> NameMap<V> {
    /// The value bound to `key`.
    pub open spec fn spec_get(self, key: Seq<char>) -> Option<V> {
        map_lookup(self.entries@, key)
    }

    /// An empty map.
    pub fn new() -> (r: NameMap<V>)
        ensures
            r.entries@.len() == 0,
            forall|key: Seq<char>| r.spec_get(key) is None,
    {
        let r = NameMap { entries: Vec::new() };
        proof {
            assert(forall|key: Seq<char>| map_lookup(r.entries@, key) is None);
        }
        r
    }

    /// Look a name up.
    pub fn get(&self, key: &str) -> (r: Option<&V>)
        ensures
            match r {
                Some(v) => self.spec_get(key@) == Some(*v),
                None => self.spec_get(key@) is None,
            },
    {
        let n: usize = self.entries.len();
        let mut i: usize = 0;
        proof {
            assert(self.entries@.skip(0) =~= self.entries@);
        }
        while i < n
            invariant
                i <= n,
                n == self.entries@.len(),
                map_lookup(self.entries@, key@) == map_lookup(
                    self.entries@.skip(i as int),
                    key@,
                ),
            decreases n - i,
        {
            proof {
                assert(self.entries@.skip(i as int)[0] == self.entries@[i as int]);
                assert(self.entries@.skip(i as int).skip(1) =~= self.entries@.skip(i + 1));
            }
            if crate::strutil::str_eq(self.entries[i].0.as_str(), key) {
                return Some(&self.entries[i].1);
            }
            i = i + 1;
        }
        proof {
            assert(self.entries@.skip(n as int) =~= Seq::<(String, V)>::empty());
        }
        None
    }

    /// Whether the map binds `key`.
    pub fn contains(&self, key: &str) -> (r: bool)
        ensures
            r == (self.spec_get(key@) is Some),
    {
        matches!(self.get(key), Some(_))
    }

    /// Bind `key` to `value`, replacing any earlier binding of the same key.
    pub fn insert(&mut self, key: String, value: V)
        ensures
            final(self).spec_get(key@) == Some::<V>(value),
            forall|other: Seq<char>|
                other != key@ ==> final(self).spec_get(other) == old(self).spec_get(other),
    {
        let n: usize = self.entries.len();
        let mut i: usize = 0;
        proof {
            assert(self.entries@.skip(0) =~= self.entries@);
        }
        while i < n
            invariant
                i <= n,
                n == self.entries@.len(),
                self.entries@ == old(self).entries@,
                forall|k: int| 0 <= k < i ==> self.entries@[k].0@ != key@,
            decreases n - i,
        {
            if crate::strutil::str_eq(self.entries[i].0.as_str(), key.as_str()) {
                let ghost before = self.entries@;
                self.entries.set(i, (key, value));
                proof {
                    lemma_map_lookup_set(before, self.entries@, i as int, key@, value);
                }
                return ;
            }
            i = i + 1;
        }
        let ghost before = self.entries@;
        let ghost keyv = key@;
        self.entries.push((key, value));
        proof {
            let kv = self.entries@.last();
            assert(self.entries@ =~= before.push(kv));
            lemma_map_lookup_push(before, kv, keyv);
        }
    }
}

/// Replacing the first entry whose key is `key` makes lookups of `key` see
/// the new value and leaves every other key alone.
proof fn lemma_map_lookup_set<V>(
    before: Seq<(String, V)>,
    after: Seq<(String, V)>,
    i: int,
    key: Seq<char>,
    value: V,
)
    requires
        0 <= i < before.len(),
        after.len() == before.len(),
        forall|k: int| 0 <= k < before.len() && k != i ==> after[k] == before[k],
        after[i].0@ == key,
        after[i].1 == value,
        before[i].0@ == key,
        forall|k: int| 0 <= k < i ==> before[k].0@ != key,
    ensures
        map_lookup(after, key) == Some(value),
        forall|other: Seq<char>| other != key ==> map_lookup(after, other) == map_lookup(
            before,
            other,
        ),
    decreases i,
{
    if i == 0 {
        assert(after.skip(1) =~= before.skip(1));
        assert(map_lookup(after, key) == Some(value));
        assert forall|other: Seq<char>| other != key implies map_lookup(after, other)
            == map_lookup(before, other) by {
            assert(after[0].0@ == key);
            assert(before[0].0@ == key);
        }
    } else {
        assert(after[0] == before[0]);
        assert(before[0].0@ != key);
        lemma_map_lookup_set(before.skip(1), after.skip(1), i - 1, key, value);
        assert(after.skip(1)[i - 1] == after[i]);
        assert(map_lookup(after, key) == map_lookup(after.skip(1), key));
        assert forall|other: Seq<char>| other != key implies map_lookup(after, other)
            == map_lookup(before, other) by {
            if after[0].0@ != other {
                assert(map_lookup(after, other) == map_lookup(after.skip(1), other));
                assert(map_lookup(before, other) == map_lookup(before.skip(1), other));
            }
        }
    }
}

/// Appending an entry with a fresh key binds that key and leaves every other
/// key alone.
proof fn lemma_map_lookup_push<V>(before: Seq<(String, V)>, kv: (String, V), key: Seq<char>)
    requires
        kv.0@ == key,
        forall|k: int| 0 <= k < before.len() ==> before[k].0@ != key,
    ensures
        map_lookup(before.push(kv), key) == Some(kv.1),
        forall|other: Seq<char>|
            other != key ==> map_lookup(before.push(kv), other) == map_lookup(before, other),
    decreases before.len(),
{
    let grown = before.push(kv);
    if before.len() == 0 {
        assert(grown[0] == kv);
        assert(grown.skip(1) =~= Seq::<(String, V)>::empty());
        assert forall|other: Seq<char>| other != key implies map_lookup(grown, other)
            == map_lookup(before, other) by {
            assert(map_lookup(before, other) is None);
            assert(map_lookup(grown.skip(1), other) is None);
        }
    } else {
        lemma_map_lookup_push(before.skip(1), kv, key);
        assert(grown.skip(1) =~= before.skip(1).push(kv));
        assert(grown[0] == before[0]);
        assert(before[0].0@ != key);
        assert(map_lookup(grown, key) == map_lookup(grown.skip(1), key));
        assert forall|other: Seq<char>| other != key implies map_lookup(grown, other)
            == map_lookup(before, other) by {
            if grown[0].0@ != other {
                assert(map_lookup(grown, other) == map_lookup(grown.skip(1), other));
                assert(map_lookup(before, other) == map_lookup(before.skip(1), other));
            }
        }
    }
}

/// A source document of an environment.  The role `"."` designates the
/// context item; `"$name"` binds a variable.
#[derive(Debug, Clone)]
pub struct Source {
    pub role: String,
    /// Path of the document, resolved against the owning test set's directory.
    pub file: String,
    /// URI the document is published under for the engine.
    pub uri: Option<String>,
    /// Validation mode, where one is declared.
    pub validation: Option<String>,
}

/// A parameter binding of an environment.
#[derive(Debug, Clone)]
pub struct Param {
    pub name: String,
    pub select: String,
    pub declared: bool,
}

/// A schema reference of an environment.
#[derive(Debug, Clone)]
pub struct SchemaRef {
    pub uri: String,
    pub file: String,
}

/// A collection of sources published under one URI.
#[derive(Debug, Clone)]
pub struct Collection {
    pub uri: String,
    pub sources: Vec<Source>,
}

/// A test environment: sources, namespace bindings, parameters and schemas.
#[derive(Debug)]
pub struct Environment {
    pub name: Option<String>,
    pub sources: Vec<Source>,
    /// Namespace bindings, prefix to URI, unique per prefix.
    pub namespaces: NameMap<String>,
    pub params: Vec<Param>,
    pub schemas: Vec<SchemaRef>,
    pub collections: Vec<Collection>,
    pub static_base_uri: Option<String>,
}

impl Environment {
    /// An environment with nothing in it.
    pub fn empty() -> (r: Environment)
        ensures
            r.name is None,
            r.sources@.len() == 0,
            r.namespaces.entries@.len() == 0,
            r.params@.len() == 0,
            r.schemas@.len() == 0,
            r.collections@.len() == 0,
            r.static_base_uri is None,
    {
        Environment {
            name: None,
            sources: Vec::new(),
            namespaces: NameMap::new(),
            params: Vec::new(),
            schemas: Vec::new(),
            collections: Vec::new(),
            static_base_uri: None,
        }
    }
}

/// A test case's reference to its environment: by name, or written inline.
#[derive(Debug)]
pub enum EnvironmentRef {
    Named(String),
    Inline(Environment),
}

/// The index of the first source with the context-item role `"."`.
pub open spec fn context_source_index(sources: Seq<Source>) -> Option<int> {
    if exists|k: int| 0 <= k < sources.len() && sources[k].role@ == "."@ {
        Some(choose|k: int|
            0 <= k < sources.len() && sources[k].role@ == "."@ && (forall|j: int|
                0 <= j < k ==> sources[j].role@ != "."@))
    } else {
        None
    }
}

/// The first source with the context-item role `"."`, if any.
pub fn context_source(env: &Environment) -> (r: Option<&Source>)
    ensures
        match r {
            Some(s) => exists|k: int|
                0 <= k < env.sources@.len() && env.sources@[k] == *s && s.role@ == "."@ && (
                forall|j: int| 0 <= j < k ==> env.sources@[j].role@ != "."@),
            None => forall|k: int| 0 <= k < env.sources@.len() ==> env.sources@[k].role@ != "."@,
        },
{
    let n: usize = env.sources.len();
    let mut i: usize = 0;
    while i < n
        invariant
            i <= n,
            n == env.sources@.len(),
            forall|j: int| 0 <= j < i ==> env.sources@[j].role@ != "."@,
        decreases n - i,
    {
        if crate::strutil::str_eq(env.sources[i].role.as_str(), ".") {
            return Some(&env.sources[i]);
        }
        i = i + 1;
    }
    None
}

/// The message given when a named environment cannot be found.
pub open spec fn env_not_found_msg(name: Seq<char>) -> Seq<char> {
    "environment not found: "@ + name
}

/// Look a named environment up in the local map, then in the global map: a
/// local name shadows a global one.  An absent name is an error whose message
/// names the environment.
pub fn resolve_named_environment<'a>(
    name: &str,
    local: &'a NameMap<Environment>,
    global: &'a NameMap<Environment>,
) -> (r: Result<&'a Environment, String>)
    ensures
        match r {
            Ok(env) => local.spec_get(name@) == Some(*env) || (local.spec_get(name@) is None
                && global.spec_get(name@) == Some(*env)),
            Err(msg) => local.spec_get(name@) is None && global.spec_get(name@) is None && msg@
                == env_not_found_msg(name@),
        },
{
    match local.get(name) {
        Some(env) => Ok(env),
        None => match global.get(name) {
            Some(env) => Ok(env),
            None => {
                let owned = name.to_owned();
                Err(prefixed("environment not found: ", &owned))
            },
        },
    }
}

/// The not-found message names the word "environment" and the missing name.
pub proof fn lemma_env_not_found_msg_names_both(name: Seq<char>)
    ensures
        contains_seq(env_not_found_msg(name), "environment"@),
        contains_seq(env_not_found_msg(name), name),
{
    let msg = env_not_found_msg(name);
    reveal_strlit("environment not found: ");
    reveal_strlit("environment");
    assert(msg.subrange(0, 11) =~= "environment"@);
    assert(matches_at(msg, "environment"@, 0));
    let p = "environment not found: "@.len() as int;
    assert(msg.subrange(p, p + name.len()) =~= name);
    assert(matches_at(msg, name, p));
}

} // verus!
