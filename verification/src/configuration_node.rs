//! The configuration node: a JSON document addressed by JSON Pointer, set
//! by key and merged from patches. Reading and writing the file it lives in,
//! and telling listeners about changes, happen around it.

use vstd::prelude::*;
use crate::json::{
    spec_pointer, pointer_step, pointer_walk, replace_pair, unescape_token, JsonValue,
};
use crate::text::{find_from, lemma_find_from_range, split_from};

verus! {

/// The value of the last entry of `patch` whose key is `key`.
pub open spec fn last_binding(patch: Seq<(String, JsonValue)>, key: Seq<char>) -> Option<JsonValue>
    decreases patch.len(),
{
    if patch.len() == 0 {
        None
    } else if patch.last().0@ == key {
        Some(patch.last().1)
    } else {
        last_binding(patch.drop_last(), key)
    }
}

/// What `key` holds after merging `patch` into a document where it held
/// `before`: the last binding of the patch, else what it held.
pub open spec fn merged_get(before: Option<JsonValue>, patch: Seq<(String, JsonValue)>, key: Seq<
    char,
>) -> Option<JsonValue> {
    match last_binding(patch, key) {
        Some(v) => Some(v),
        None => before,
    }
}

/// Manages runtime configuration (load/save JSON).
#[derive(Debug)]
pub struct ConfigurationNode {
    m_name: String,
    m_enabled: bool,
    m_config: JsonValue,
    m_file_path: String,
}

impl ConfigurationNode {
    /// A node with an empty configuration object.
    pub fn new(name: &str, file_path: &str) -> (r: ConfigurationNode)
        ensures
            r.spec_name() == name@,
            r.spec_file_path() == file_path@,
            r.is_enabled(),
            r.config() matches JsonValue::Object(e) && e@.len() == 0,
    {
        ConfigurationNode {
            m_name: name.to_owned(),
            m_enabled: true,
            m_config: JsonValue::new_object(),
            m_file_path: file_path.to_owned(),
        }
    }

    /// Replaces the whole configuration, as loading it from its file does.
    pub fn load_value(&mut self, value: JsonValue)
        ensures
            *final(self).config() == value,
            final(self).spec_name() == old(self).spec_name(),
            final(self).spec_file_path() == old(self).spec_file_path(),
            final(self).is_enabled() == old(self).is_enabled(),
    {
        self.m_config = value;
    }

    /// Get the full configuration as JSON.
    #[verifier::when_used_as_spec(spec_config)]
    pub fn config(&self) -> (r: &JsonValue)
        ensures
            *r == *self.spec_config(),
    {
        &self.m_config
    }

    /// The configuration document.
    pub closed spec fn spec_config(&self) -> &JsonValue {
        &self.m_config
    }

    /// The path of the file the configuration is kept in.
    pub closed spec fn spec_file_path(&self) -> Seq<char> {
        self.m_file_path@
    }

    /// The node's name.
    pub closed spec fn spec_name(&self) -> Seq<char> {
        self.m_name@
    }

    /// Whether the node is enabled.
    pub closed spec fn spec_is_enabled(&self) -> bool {
        self.m_enabled
    }

    /// Get a specific configuration value by JSON pointer path.
    pub fn get(&self, pointer: &str) -> (r: Option<&JsonValue>)
        ensures
            match r {
                Some(v) => spec_pointer(*self.config(), pointer@) == Some(*v),
                None => spec_pointer(*self.config(), pointer@) is None,
            },
    {
        self.m_config.pointer(pointer)
    }

    /// Set a specific value by key; a configuration that is not an object
    /// is left as it is.
    pub fn set(&mut self, key: &str, value: JsonValue)
        ensures
            *old(self).config() is Object ==> {
                &&& *final(self).config() is Object
                &&& final(self).config().spec_get(key@) == Some(value)
                &&& forall|k: Seq<char>|
                    k != key@ ==> #[trigger] final(self).config().spec_get(k) == old(
                        self,
                    ).config().spec_get(k)
            },
            !(*old(self).config() is Object) ==> *final(self).config() == *old(self).config(),
            final(self).spec_name() == old(self).spec_name(),
            final(self).spec_file_path() == old(self).spec_file_path(),
            final(self).is_enabled() == old(self).is_enabled(),
    {
        self.m_config.insert(key.to_owned(), value);
    }

    /// Merge a JSON object into the current configuration: each entry of the
    /// patch is set in turn, so the last binding of a key wins. Nothing
    /// changes unless both are objects.
    pub fn merge(&mut self, patch: JsonValue)
        ensures
            (*old(self).config() is Object && patch is Object) ==> {
                &&& *final(self).config() is Object
                &&& forall|k: Seq<char>|
                    #[trigger] final(self).config().spec_get(k) == merged_get(
                        old(self).config().spec_get(k),
                        patch->Object_0@,
                        k,
                    )
            },
            !(*old(self).config() is Object && patch is Object) ==> *final(self).config() == *old(
                self,
            ).config(),
            final(self).spec_name() == old(self).spec_name(),
            final(self).spec_file_path() == old(self).spec_file_path(),
            final(self).is_enabled() == old(self).is_enabled(),
    {
        if !self.m_config.is_object() {
            return;
        }
        match patch {
            JsonValue::Object(entries) => {
                let count: usize = entries.len();
                let ghost all = entries@;
                assert(all.len() == count);
                let ghost start = self.m_config;
                let mut rest = entries;
                let mut n: usize = 0;
                while rest.len() > 0
                    invariant
                        n + rest@.len() == all.len(),
                        all.len() <= usize::MAX,
                        rest@ == all.skip(n as int),
                        self.m_config is Object,
                        forall|k: Seq<char>|
                            #[trigger] self.m_config.spec_get(k) == merged_get(
                                start.spec_get(k),
                                all.take(n as int),
                                k,
                            ),
                        self.m_name == old(self).m_name,
                        self.m_file_path == old(self).m_file_path,
                        self.m_enabled == old(self).m_enabled,
                    decreases rest@.len(),
                {
                    let (k, v) = rest.remove(0);
                    let ghost e = (k, v);
                    proof {
                        assert(all[n as int] == e);
                        assert(all.take(n + 1) =~= all.take(n as int).push(e));
                        assert(rest@ =~= all.skip(n + 1));
                    }
                    let ghost prev = self.m_config;
                    let ghost key = k@;
                    self.m_config.insert(k, v);
                    proof {
                        let t = all.take(n + 1);
                        assert(t.drop_last() =~= all.take(n as int));
                        assert(t.last() == e);
                        assert forall|q: Seq<char>| #[trigger]
                            self.m_config.spec_get(q) == merged_get(start.spec_get(q), t, q) by {
                            if q == key {
                                assert(last_binding(t, q) == Some(e.1));
                            } else {
                                assert(self.m_config.spec_get(q) == prev.spec_get(q));
                                assert(last_binding(t, q) == last_binding(all.take(n as int), q));
                            }
                        }
                    }
                    n = n + 1;
                }
                proof {
                    assert(all.take(n as int) =~= all);
                }
            },
            _ => {},
        }
    }

    pub fn file_path(&self) -> (r: &str)
        ensures
            r@ == self.spec_file_path(),
    {
        self.m_file_path.as_str()
    }

    pub fn name(&self) -> (r: &str)
        ensures
            r@ == self.spec_name(),
    {
        self.m_name.as_str()
    }

    #[verifier::when_used_as_spec(spec_is_enabled)]
    pub fn is_enabled(&self) -> (r: bool)
        ensures
            r == self.spec_is_enabled(),
    {
        self.m_enabled
    }

    pub fn set_enabled(&mut self, enabled: bool)
        ensures
            final(self).is_enabled() == enabled,
            *final(self).config() == *old(self).config(),
            final(self).spec_name() == old(self).spec_name(),
            final(self).spec_file_path() == old(self).spec_file_path(),
    {
        self.m_enabled = enabled;
    }
}

/// Replacing `~`-pairs changes nothing in text without `~`.
proof fn lemma_replace_pair_plain(s: Seq<char>, b: char, rep: char)
    requires
        !s.contains('~'),
    ensures
        replace_pair(s, '~', b, rep) == s,
    decreases s.len(),
{
    if s.len() > 0 {
        assert(s[0] != '~') by {
            assert(s.contains(s[0]) || s[0] != '~');
        }
        assert(!s.drop_first().contains('~')) by {
            if s.drop_first().contains('~') {
                let i = choose|i: int| 0 <= i < s.drop_first().len() && s.drop_first()[i] == '~';
                assert(s[i + 1] == '~');
            }
        }
        lemma_replace_pair_plain(s.drop_first(), b, rep);
        assert(seq![s[0]] + s.drop_first() =~= s);
    }
}

/// What `set` stores under a key, `get` reads back through the pointer
/// `/key` (for keys without `/` or `~`, which pointers escape).
pub proof fn law_set_then_get(config: JsonValue, key: Seq<char>, value: JsonValue)
    requires
        config.spec_get(key) == Some(value),
        !key.contains('/'),
        !key.contains('~'),
    ensures
        spec_pointer(config, seq!['/'] + key) == Some(value),
{
    let p = seq!['/'] + key;
    assert forall|j: int| 1 <= j < p.len() implies p[j] != '/' by {
        assert(p[j] == key[j - 1]);
        if p[j] == '/' {
            assert(key.contains('/'));
        }
    }
    lemma_find_from_range(p, '/', 1);
    assert(find_from(p, '/', 1) == -1);
    assert(p.subrange(1, p.len() as int) =~= key);
    assert(split_from(p, '/', 1) =~= seq![key]);
    lemma_replace_pair_plain(key, '1', '/');
    lemma_replace_pair_plain(key, '0', '~');
    assert(unescape_token(key) == key);
    assert(pointer_step(config, key) == Some(value));
    assert(seq![key].drop_first() =~= Seq::<Seq<char>>::empty());
    assert(pointer_walk(value, seq![key].drop_first()) == Some(value));
}

} // verus!
