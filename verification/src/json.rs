//! A JSON document model for configuration data: objects keep their keys in
//! insertion order, numbers keep serde_json's integer classes, and values are
//! found by key or by JSON Pointer (RFC 6901).

use vstd::prelude::*;
use crate::text::{chars_of, parse_unsigned, parse_unsigned_range};

verus! {

/// A JSON number as serde_json classifies it.
#[derive(Clone, Debug, PartialEq)]
pub enum JsonNumber {
    /// A non-negative integer.
    PosInt(u64),
    /// A negative integer.
    NegInt(i64),
    /// Any other number, as its decimal text.
    Float(String),
}

/// A JSON value.
#[derive(Debug)]
pub enum JsonValue {
    Null,
    Bool(bool),
    Number(JsonNumber),
    String(String),
    Array(Vec<JsonValue>),
    Object(Vec<(String, JsonValue)>),
}

/// Index of the first entry from `i` on whose key is `key`, or -1.
pub open spec fn key_index_from<V>(entries: Seq<(String, V)>, key: Seq<char>, i: int) -> int
    decreases entries.len() - i,
{
    if i < 0 || i >= entries.len() {
        -1
    } else if entries[i].0@ == key {
        i
    } else {
        key_index_from(entries, key, i + 1)
    }
}

/// Index of the first entry whose key is `key`, or -1.
pub open spec fn key_index<V>(entries: Seq<(String, V)>, key: Seq<char>) -> int {
    key_index_from(entries, key, 0)
}

/// The value bound to `key` among `entries` (the first such entry).
pub open spec fn entries_get<V>(entries: Seq<(String, V)>, key: Seq<char>) -> Option<V> {
    let i = key_index(entries, key);
    if i >= 0 {
        Some(entries[i].1)
    } else {
        None
    }
}

pub proof fn lemma_key_index_from<V>(entries: Seq<(String, V)>, key: Seq<char>, i: int)
    requires
        0 <= i,
    ensures
        key_index_from(entries, key, i) == -1 || (i <= key_index_from(entries, key, i)
            < entries.len() && entries[key_index_from(entries, key, i)].0@ == key),
        forall|j: int|
            i <= j < entries.len() && (key_index_from(entries, key, i) == -1 || j
                < key_index_from(entries, key, i)) ==> entries[j].0@ != key,
    decreases entries.len() - i,
{
    if i < entries.len() && entries[i].0@ != key {
        lemma_key_index_from(entries, key, i + 1);
    }
}

/// Entries that agree up to `n` and have no `key` before `n` give the same
/// first index for `key` when it lies before `n`, and -1 becomes whatever
/// lies at or after `n`.
proof fn lemma_key_index_prefix<V>(
    a: Seq<(String, V)>,
    b: Seq<(String, V)>,
    key: Seq<char>,
    i: int,
    n: int,
)
    requires
        0 <= i <= n <= a.len(),
        n <= b.len(),
        forall|j: int| 0 <= j < n ==> a[j] == b[j],
        key_index_from(a, key, i) != -1 ==> key_index_from(a, key, i) < n,
    ensures
        key_index_from(a, key, i) != -1 ==> key_index_from(b, key, i) == key_index_from(a, key, i),
        key_index_from(a, key, i) == -1 ==> key_index_from(b, key, i) == key_index_from(b, key, n),
    decreases n - i,
{
    lemma_key_index_from(a, key, i);
    if i < n {
        if a[i].0@ != key {
            lemma_key_index_prefix(a, b, key, i + 1, n);
        }
    }
}

/// Finds the first entry whose key is `key`.
pub fn key_position<V>(entries: &Vec<(String, V)>, key: &str) -> (r: Option<usize>)
    ensures
        match r {
            Some(i) => i < entries@.len() && key_index(entries@, key@) == i,
            None => key_index(entries@, key@) == -1,
        },
{
    let mut i: usize = 0;
    while i < entries.len()
        invariant
            i <= entries@.len(),
            key_index(entries@, key@) == key_index_from(entries@, key@, i as int),
        decreases entries.len() - i,
    {
        if crate::text::str_equals(entries[i].0.as_str(), key) {
            return Some(i);
        }
        i = i + 1;
    }
    None
}

impl JsonValue {
    /// The entry of an object for `key`, as `serde_json::Value::get` finds
    /// it; `None` for other values.
    pub open spec fn spec_get(&self, key: Seq<char>) -> Option<JsonValue> {
        match self {
            JsonValue::Object(entries) => entries_get(entries@, key),
            _ => None,
        }
    }

    /// Looks up a key of an object.
    pub fn get(&self, key: &str) -> (r: Option<&JsonValue>)
        ensures
            match r {
                Some(v) => self.spec_get(key@) == Some(*v),
                None => self.spec_get(key@) is None,
            },
    {
        match self {
            JsonValue::Object(entries) => match key_position(entries, key) {
                Some(i) => {
                    proof {
                        lemma_key_index_from(entries@, key@, 0);
                    }
                    Some(&entries[i].1)
                },
                None => None,
            },
            _ => None,
        }
    }

    /// The text of a string value.
    pub fn as_str(&self) -> (r: Option<&str>)
        ensures
            match self {
                JsonValue::String(s) => r matches Some(t) && t@ == s@,
                _ => r is None,
            },
    {
        match self {
            JsonValue::String(s) => Some(s.as_str()),
            _ => None,
        }
    }

    /// The value of a boolean.
    pub fn as_bool(&self) -> (r: Option<bool>)
        ensures
            r == match self {
                JsonValue::Bool(b) => Some(*b),
                _ => None,
            },
    {
        match self {
            JsonValue::Bool(b) => Some(*b),
            _ => None,
        }
    }

    /// The value of a non-negative integer, as `serde_json::Value::as_u64`
    /// gives it.
    pub open spec fn spec_as_u64(&self) -> Option<u64> {
        match self {
            JsonValue::Number(JsonNumber::PosInt(n)) => Some(*n),
            _ => None,
        }
    }

    pub fn as_u64(&self) -> (r: Option<u64>)
        ensures
            r == self.spec_as_u64(),
    {
        match self {
            JsonValue::Number(JsonNumber::PosInt(n)) => Some(*n),
            _ => None,
        }
    }

    /// The value of an integer that fits an `i64`.
    pub fn as_i64(&self) -> (r: Option<i64>)
        ensures
            r == match self {
                JsonValue::Number(JsonNumber::PosInt(n)) => if *n <= i64::MAX as u64 {
                    Some(*n as i64)
                } else {
                    None
                },
                JsonValue::Number(JsonNumber::NegInt(n)) => Some(*n),
                _ => None,
            },
    {
        match self {
            JsonValue::Number(JsonNumber::PosInt(n)) => if *n <= i64::MAX as u64 {
                Some(*n as i64)
            } else {
                None
            },
            JsonValue::Number(JsonNumber::NegInt(n)) => Some(*n),
            _ => None,
        }
    }

    /// The elements of an array.
    pub fn as_array(&self) -> (r: Option<&Vec<JsonValue>>)
        ensures
            match self {
                JsonValue::Array(a) => r == Some(a),
                _ => r is None,
            },
    {
        match self {
            JsonValue::Array(a) => Some(a),
            _ => None,
        }
    }

    pub fn is_object(&self) -> (r: bool)
        ensures
            r == self is Object,
    {
        match self {
            JsonValue::Object(_) => true,
            _ => false,
        }
    }

    /// An empty object.
    pub fn new_object() -> (r: JsonValue)
        ensures
            r matches JsonValue::Object(e) && e@.len() == 0,
    {
        JsonValue::Object(Vec::new())
    }

    /// Binds `key` to `value` in an object, replacing an earlier binding and
    /// returning the value it held; other values are left as they are and
    /// get nothing.
    pub fn insert(&mut self, key: String, value: JsonValue) -> (r: Option<JsonValue>)
        ensures
            *old(self) is Object <==> *final(self) is Object,
            !(*old(self) is Object) ==> *final(self) == *old(self) && r is None,
            *old(self) is Object ==> {
                &&& r == old(self).spec_get(key@)
                &&& final(self).spec_get(key@) == Some(value)
                &&& forall|k: Seq<char>| k != key@ ==> #[trigger] final(self).spec_get(k) == old(
                    self,
                ).spec_get(k)
            },
    {
        match self {
            JsonValue::Object(entries) => {
                let ghost before = entries@;
                if let Some(i) = key_position(entries, key.as_str()) {
                    proof {
                        lemma_key_index_from(before, key@, 0);
                    }
                    let mut old_value = value;
                    std::mem::swap(&mut entries[i].1, &mut old_value);
                    proof {
                        let after = entries@;
                        assert forall|k: Seq<char>| k != key@ implies #[trigger] entries_get(after, k)
                            == entries_get(before, k) by {
                            lemma_key_index_from(before, k, 0);
                            lemma_key_index_from(after, k, 0);
                            assert forall|j: int| 0 <= j < after.len() implies (after[j].0@ == k) == (
                            before[j].0@ == k) by {}
                            if key_index(before, k) != -1 && key_index(after, k) != -1 {
                                assert(key_index(before, k) == key_index(after, k));
                            }
                        }
                        lemma_key_index_from(after, key@, 0);
                    }
                    return Some(old_value);
                }
                proof {
                    lemma_key_index_from(before, key@, 0);
                }
                entries.push((key, value));
                proof {
                    let after = entries@;
                    assert forall|k: Seq<char>| k != key@ implies #[trigger] entries_get(after, k)
                        == entries_get(before, k) by {
                        lemma_key_index_from(before, k, 0);
                        lemma_key_index_prefix(before, after, k, 0, before.len() as int);
                        lemma_key_index_from(after, k, before.len() as int);
                        if key_index(before, k) == -1 {
                            assert(after[before.len() as int].0@ != k);
                        }
                    }
                    lemma_key_index_prefix(before, after, key@, 0, before.len() as int);
                }
                None
            },
            _ => None,
        }
    }

    /// The text of the string bound to `key`, when there is one.
    pub open spec fn spec_str_field(&self, key: Seq<char>) -> Option<Seq<char>> {
        match self.spec_get(key) {
            Some(JsonValue::String(s)) => Some(s@),
            _ => None,
        }
    }

    /// The boolean bound to `key`, when there is one.
    pub open spec fn spec_bool_field(&self, key: Seq<char>) -> Option<bool> {
        match self.spec_get(key) {
            Some(JsonValue::Bool(b)) => Some(b),
            _ => None,
        }
    }

    /// The non-negative integer bound to `key`, when there is one.
    pub open spec fn spec_u64_field(&self, key: Seq<char>) -> Option<u64> {
        match self.spec_get(key) {
            Some(v) => v.spec_as_u64(),
            None => None,
        }
    }

    /// The text of the string bound to `key`.
    pub fn str_field(&self, key: &str) -> (r: Option<&str>)
        ensures
            match r {
                Some(t) => self.spec_str_field(key@) == Some(t@),
                None => self.spec_str_field(key@) is None,
            },
    {
        match self.get(key) {
            Some(v) => v.as_str(),
            None => None,
        }
    }

    /// The string bound to `key`, or `default` when there is none.
    pub fn value_str(&self, key: &str, default: &str) -> (r: String)
        ensures
            r@ == match self.spec_str_field(key@) {
                Some(t) => t,
                None => default@,
            },
    {
        match self.str_field(key) {
            Some(t) => t.to_owned(),
            None => default.to_owned(),
        }
    }

    /// The boolean bound to `key`, or `default` when there is none.
    pub fn value_bool(&self, key: &str, default: bool) -> (r: bool)
        ensures
            r == match self.spec_bool_field(key@) {
                Some(b) => b,
                None => default,
            },
    {
        match self.get(key) {
            Some(v) => match v.as_bool() {
                Some(b) => b,
                None => default,
            },
            None => default,
        }
    }

    /// The non-negative integer bound to `key`, or `default` when there is
    /// none.
    pub fn value_u64(&self, key: &str, default: u64) -> (r: u64)
        ensures
            r == match self.spec_u64_field(key@) {
                Some(n) => n,
                None => default,
            },
    {
        match self.get(key) {
            Some(v) => match v.as_u64() {
                Some(n) => n,
                None => default,
            },
            None => default,
        }
    }
}

/// The texts of the strings among `items`, in order; other values are
/// skipped.
pub open spec fn string_items(items: Seq<JsonValue>) -> Seq<Seq<char>>
    decreases items.len(),
{
    if items.len() == 0 {
        seq![]
    } else {
        let rest = string_items(items.drop_last());
        match items.last() {
            JsonValue::String(s) => rest.push(s@),
            _ => rest,
        }
    }
}

/// Collects the strings among `items`, in order.
pub fn collect_strings(items: &Vec<JsonValue>) -> (r: Vec<String>)
    ensures
        r@.map_values(|s: String| s@) == string_items(items@),
{
    let mut r: Vec<String> = Vec::new();
    let mut i: usize = 0;
    while i < items.len()
        invariant
            i <= items@.len(),
            r@.map_values(|s: String| s@) == string_items(items@.take(i as int)),
        decreases items.len() - i,
    {
        assert(items@.take(i + 1).drop_last() =~= items@.take(i as int));
        match &items[i] {
            JsonValue::String(s) => {
                r.push(s.clone());
                assert(r@.map_values(|s: String| s@) =~= string_items(items@.take(i as int)).push(s@));
            },
            _ => {},
        }
        i = i + 1;
    }
    assert(items@.take(i as int) =~= items@);
    r
}

} // verus!

verus! {

/// `s` with each occurrence of the two characters `a b`, taken left to right
/// without overlap, replaced by `rep`, as `str::replace` does.
pub open spec fn replace_pair(s: Seq<char>, a: char, b: char, rep: char) -> Seq<char>
    decreases s.len(),
{
    if s.len() >= 2 && s[0] == a && s[1] == b {
        seq![rep] + replace_pair(s.skip(2), a, b, rep)
    } else if s.len() == 0 {
        s
    } else {
        seq![s[0]] + replace_pair(s.drop_first(), a, b, rep)
    }
}

/// A pointer token with its escapes undone: `~1` becomes `/`, then `~0`
/// becomes `~`.
pub open spec fn unescape_token(t: Seq<char>) -> Seq<char> {
    replace_pair(replace_pair(t, '~', '1', '/'), '~', '0', '~')
}

/// The array index a pointer token names: decimal digits without a sign and
/// without a leading zero (except `0` itself), within `usize`.
pub open spec fn array_index(t: Seq<char>) -> Option<nat> {
    if t.len() > 0 && (t[0] == '+' || (t[0] == '0' && t.len() != 1)) {
        None
    } else {
        parse_unsigned(t, 10, usize::MAX as nat)
    }
}

/// The value that one pointer token leads to from `v`.
pub open spec fn pointer_step(v: JsonValue, token: Seq<char>) -> Option<JsonValue> {
    match v {
        JsonValue::Object(entries) => entries_get(entries@, token),
        JsonValue::Array(items) => match array_index(token) {
            Some(i) => if i < items@.len() {
                Some(items@[i as int])
            } else {
                None
            },
            None => None,
        },
        _ => None,
    }
}

/// The value that the (still escaped) tokens lead to from `v`.
pub open spec fn pointer_walk(v: JsonValue, tokens: Seq<Seq<char>>) -> Option<JsonValue>
    decreases tokens.len(),
{
    if tokens.len() == 0 {
        Some(v)
    } else {
        match pointer_step(v, unescape_token(tokens[0])) {
            Some(w) => pointer_walk(w, tokens.drop_first()),
            None => None,
        }
    }
}

/// The value a JSON Pointer addresses: the whole value for the empty
/// pointer; else the pointer must start with `/` and each `/`-separated
/// token selects an object member or an array element.
pub open spec fn spec_pointer(v: JsonValue, p: Seq<char>) -> Option<JsonValue> {
    if p.len() == 0 {
        Some(v)
    } else if p[0] != '/' {
        None
    } else {
        pointer_walk(v, crate::text::split_from(p, '/', 1))
    }
}

/// `s` with each `a b` replaced by `rep`, as `str::replace` does.
pub fn replace_pair_chars(s: &Vec<char>, a: char, b: char, rep: char) -> (r: Vec<char>)
    ensures
        r@ == replace_pair(s@, a, b, rep),
{
    let mut r: Vec<char> = Vec::new();
    let mut i: usize = 0;
    assert(s@.skip(0) =~= s@);
    while i < s.len()
        invariant
            i <= s.len(),
            replace_pair(s@, a, b, rep) == r@ + replace_pair(s@.skip(i as int), a, b, rep),
        decreases s.len() - i,
    {
        let ghost rest = s@.skip(i as int);
        if s.len() - i >= 2 && s[i] == a && s[i + 1] == b {
            r.push(rep);
            assert(rest.skip(2) =~= s@.skip(i + 2));
            assert(r@ + replace_pair(s@.skip(i + 2), a, b, rep) =~= r@.drop_last() + (seq![rep]
                + replace_pair(rest.skip(2), a, b, rep)));
            i = i + 2;
        } else {
            r.push(s[i]);
            assert(rest.drop_first() =~= s@.skip(i + 1));
            assert(r@ + replace_pair(s@.skip(i + 1), a, b, rep) =~= r@.drop_last() + (seq![s@[i as int]]
                + replace_pair(rest.drop_first(), a, b, rep)));
            i = i + 1;
        }
    }
    assert(s@.skip(i as int) =~= Seq::<char>::empty());
    assert(r@ + Seq::<char>::empty() =~= r@);
    r
}

fn token_index(t: &Vec<char>) -> (r: Option<usize>)
    ensures
        match r {
            Some(i) => array_index(t@) == Some(i as nat),
            None => array_index(t@) is None,
        },
{
    if t.len() > 0 && (t[0] == '+' || (t[0] == '0' && t.len() != 1)) {
        return None;
    }
    assert(t@.subrange(0, t.len() as int) =~= t@);
    match parse_unsigned_range(t, 0, t.len(), 10, usize::MAX as u64) {
        Some(n) => Some(n as usize),
        None => None,
    }
}

impl JsonValue {
    /// Looks up a value by a JSON Pointer.
    pub fn pointer(&self, pointer: &str) -> (r: Option<&JsonValue>)
        ensures
            match r {
                Some(v) => spec_pointer(*self, pointer@) == Some(*v),
                None => spec_pointer(*self, pointer@) is None,
            },
    {
        let p = chars_of(pointer);
        if p.len() == 0 {
            return Some(self);
        }
        if p[0] != '/' {
            return None;
        }
        let mut target: &JsonValue = self;
        let mut pos: usize = 1;
        loop
            invariant
                1 <= pos <= p@.len(),
                p@ == pointer@,
                p@.len() > 0 && p@[0] == '/',
                spec_pointer(*self, pointer@) == pointer_walk(
                    *target,
                    crate::text::split_from(p@, '/', pos as int),
                ),
            decreases p@.len() - pos,
        {
            let next = crate::text::char_position_from(&p, '/', pos);
            proof {
                crate::text::lemma_find_from_range(p@, '/', pos as int);
            }
            let end = match next {
                Some(j) => j,
                None => p.len(),
            };
            let raw = crate::text::chars_range(&p, pos, end);
            let once = replace_pair_chars(&raw, '~', '1', '/');
            let token = replace_pair_chars(&once, '~', '0', '~');
            let ghost pieces = crate::text::split_from(p@, '/', pos as int);
            proof {
                assert(pieces[0] == raw@);
                assert(token@ == unescape_token(pieces[0]));
            }
            let stepped: Option<&JsonValue> = match target {
                JsonValue::Object(entries) => {
                    let key = crate::text::string_of(&token);
                    match key_position(entries, key.as_str()) {
                        Some(i) => {
                            proof {
                                lemma_key_index_from(entries@, key@, 0);
                            }
                            Some(&entries[i].1)
                        },
                        None => None,
                    }
                },
                JsonValue::Array(items) => match token_index(&token) {
                    Some(i) => if i < items.len() {
                        Some(&items[i])
                    } else {
                        None
                    },
                    None => None,
                },
                _ => None,
            };
            match stepped {
                None => {
                    assert(pointer_step(*target, unescape_token(pieces[0])) is None);
                    return None;
                },
                Some(w) => {
                    assert(pointer_step(*target, unescape_token(pieces[0])) == Some(*w));
                    match next {
                        None => {
                            assert(pieces.drop_first() =~= Seq::<Seq<char>>::empty());
                            assert(pointer_walk(*w, pieces.drop_first()) == Some(*w));
                            return Some(w);
                        },
                        Some(j) => {
                            assert(pieces.drop_first() =~= crate::text::split_from(
                                p@,
                                '/',
                                j + 1,
                            ));
                            target = w;
                            pos = j + 1;
                        },
                    }
                },
            }
        }
    }
}

} // verus!
