//! A JSON document, as the InnerTube API returns it, and navigation in it.
//!
//! Numbers are kept as their textual form: nothing in the client reads them.
use vstd::prelude::*;
use crate::text::{chars_of, ascii_digit, is_ascii_digit, all_digits, digits_value};

verus! {

/// A JSON value. The members of an object keep their order; lookups find the
/// first member with the key (keys of a parsed object are distinct).
#[derive(Debug)]
pub enum JsonValue {
    Null,
    Bool(bool),
    Number(String),
    Str(String),
    Array(Vec<JsonValue>),
    Object(Vec<(String, JsonValue)>),
}

/// The value of the first member named `key`.
pub open spec fn member(entries: Seq<(String, JsonValue)>, key: Seq<char>) -> Option<JsonValue>
    decreases entries.len(),
{
    if entries.len() == 0 {
        None
    } else if entries[0].0@ == key {
        Some(entries[0].1)
    } else {
        member(entries.drop_first(), key)
    }
}

/// A path token read as an array index: decimal digits without a leading zero.
pub open spec fn array_index(token: Seq<char>) -> Option<nat> {
    if token.len() == 0 || !all_digits(token) || (token.len() > 1 && token[0] == '0') {
        None
    } else {
        Some(digits_value(token))
    }
}

impl JsonValue {
    /// Member `key` of an object; nothing for other values.
    pub open spec fn field(self, key: Seq<char>) -> Option<JsonValue> {
        match self {
            JsonValue::Object(m) => member(m@, key),
            _ => None,
        }
    }

    /// One step along a path: a member of an object, or an element of an array.
    pub open spec fn step(self, token: Seq<char>) -> Option<JsonValue> {
        match self {
            JsonValue::Object(m) => member(m@, token),
            JsonValue::Array(a) => match array_index(token) {
                Some(i) => if i < a@.len() {
                    Some(a@[i as int])
                } else {
                    None
                },
                None => None,
            },
            _ => None,
        }
    }

    /// The value reached by following `tokens` from this value.
    pub open spec fn at_path(self, tokens: Seq<Seq<char>>) -> Option<JsonValue>
        decreases tokens.len(),
    {
        if tokens.len() == 0 {
            Some(self)
        } else {
            match self.step(tokens[0]) {
                Some(next) => next.at_path(tokens.drop_first()),
                None => None,
            }
        }
    }

    pub open spec fn str_value(self) -> Option<Seq<char>> {
        match self {
            JsonValue::Str(s) => Some(s@),
            _ => None,
        }
    }

    pub open spec fn array_value(self) -> Option<Seq<JsonValue>> {
        match self {
            JsonValue::Array(a) => Some(a@),
            _ => None,
        }
    }

    pub open spec fn bool_value(self) -> Option<bool> {
        match self {
            JsonValue::Bool(b) => Some(b),
            _ => None,
        }
    }

    /// Member `key`, if this is an object that has it.
    pub fn get(&self, key: &str) -> (r: Option<&JsonValue>)
        ensures
            r matches Some(v) ==> self.field(key@) == Some(*v),
            r is None ==> self.field(key@) is None,
    {
        match self {
            JsonValue::Object(m) => find_member(m, key),
            _ => None,
        }
    }

    /// The value at `tokens`, followed from this value.
    pub fn pointer(&self, tokens: &[&str]) -> (r: Option<&JsonValue>)
        ensures
            r matches Some(v) ==> self.at_path(path_view(tokens@)) == Some(*v),
            r is None ==> self.at_path(path_view(tokens@)) is None,
    {
        let mut cur: &JsonValue = self;
        let mut i: usize = 0;
        proof {
            assert(path_view(tokens@).skip(0) =~= path_view(tokens@));
        }
        while i < tokens.len()
            invariant
                i <= tokens@.len(),
                self.at_path(path_view(tokens@)) == cur.at_path(path_view(tokens@).skip(i as int)),
            decreases tokens.len() - i,
        {
            let ghost rest = path_view(tokens@).skip(i as int);
            proof {
                assert(rest[0] == tokens@[i as int]@);
                assert(rest.drop_first() =~= path_view(tokens@).skip(i + 1));
            }
            match cur.step_exec(tokens[i]) {
                Some(next) => {
                    cur = next;
                },
                None => {
                    return None;
                },
            }
            i = i + 1;
        }
        proof {
            assert(path_view(tokens@).skip(i as int) =~= Seq::<Seq<char>>::empty());
        }
        Some(cur)
    }

    fn step_exec(&self, token: &str) -> (r: Option<&JsonValue>)
        ensures
            r matches Some(v) ==> self.step(token@) == Some(*v),
            r is None ==> self.step(token@) is None,
    {
        match self {
            JsonValue::Object(m) => find_member(m, token),
            JsonValue::Array(a) => match array_index_exec(token, a.len()) {
                Some(i) => Some(&a[i]),
                None => None,
            },
            _ => None,
        }
    }

    /// The text of a string value.
    pub fn as_str(&self) -> (r: Option<&str>)
        ensures
            r matches Some(s) ==> self.str_value() == Some(s@),
            r is None ==> self.str_value() is None,
    {
        match self {
            JsonValue::Str(s) => Some(s.as_str()),
            _ => None,
        }
    }

    /// The elements of an array value.
    pub fn as_array(&self) -> (r: Option<&Vec<JsonValue>>)
        ensures
            r matches Some(a) ==> self.array_value() == Some(a@),
            r is None ==> self.array_value() is None,
    {
        match self {
            JsonValue::Array(a) => Some(a),
            _ => None,
        }
    }

    /// The value of a boolean.
    pub fn as_bool(&self) -> (r: Option<bool>)
        ensures
            r == self.bool_value(),
    {
        match self {
            JsonValue::Bool(b) => Some(*b),
            _ => None,
        }
    }
}

/// The character sequences of a path.
pub open spec fn path_view(tokens: Seq<&str>) -> Seq<Seq<char>> {
    tokens.map_values(|t: &str| t@)
}

/// The string at `tokens` below `v`, if there is one.
pub open spec fn str_at(v: JsonValue, tokens: Seq<Seq<char>>) -> Option<Seq<char>> {
    match v.at_path(tokens) {
        Some(x) => x.str_value(),
        None => None,
    }
}

/// The array at `tokens` below `v`, if there is one.
pub open spec fn array_at(v: JsonValue, tokens: Seq<Seq<char>>) -> Option<Seq<JsonValue>> {
    match v.at_path(tokens) {
        Some(x) => x.array_value(),
        None => None,
    }
}

/// The string at `tokens` below `v`.
pub fn str_at_exec<'a>(v: &'a JsonValue, tokens: &[&str]) -> (r: Option<&'a str>)
    ensures
        r matches Some(s) ==> str_at(*v, path_view(tokens@)) == Some(s@),
        r is None ==> str_at(*v, path_view(tokens@)) is None,
{
    match v.pointer(tokens) {
        Some(x) => x.as_str(),
        None => None,
    }
}

/// The array at `tokens` below `v`.
pub fn array_at_exec<'a>(v: &'a JsonValue, tokens: &[&str]) -> (r: Option<&'a Vec<JsonValue>>)
    ensures
        r matches Some(a) ==> array_at(*v, path_view(tokens@)) == Some(a@),
        r is None ==> array_at(*v, path_view(tokens@)) is None,
{
    match v.pointer(tokens) {
        Some(x) => x.as_array(),
        None => None,
    }
}

fn find_member<'a>(m: &'a Vec<(String, JsonValue)>, key: &str) -> (r: Option<&'a JsonValue>)
    ensures
        r matches Some(v) ==> member(m@, key@) == Some(*v),
        r is None ==> member(m@, key@) is None,
{
    let kv = chars_of(key);
    let mut i: usize = 0;
    proof {
        assert(m@.skip(0) =~= m@);
    }
    while i < m.len()
        invariant
            i <= m@.len(),
            kv@ == key@,
            member(m@, key@) == member(m@.skip(i as int), key@),
        decreases m.len() - i,
    {
        let ghost rest = m@.skip(i as int);
        proof {
            assert(rest[0] == m@[i as int]);
            assert(rest.drop_first() =~= m@.skip(i + 1));
        }
        let name = chars_of(m[i].0.as_str());
        if crate::text::chars_eq(&name, &kv) {
            return Some(&m[i].1);
        }
        i = i + 1;
    }
    None
}

fn array_index_exec(token: &str, len: usize) -> (r: Option<usize>)
    ensures
        r matches Some(i) ==> array_index(token@) == Some(i as nat) && i < len,
        r is None ==> array_index(token@) is None || array_index(token@).unwrap() >= len,
{
    let t = chars_of(token);
    if t.len() == 0 || (t.len() > 1 && t[0] == '0') || len == 0 {
        return None;
    }
    let mut acc: usize = 0;
    proof {
        assert(t@.take(0) =~= Seq::<char>::empty());
    }
    let mut i: usize = 0;
    while i < t.len()
        invariant
            i <= t@.len(),
            t@ == token@,
            t@.len() > 0,
            acc < len,
            all_digits(t@.take(i as int)),
            acc as nat == digits_value(t@.take(i as int)),
        decreases t.len() - i,
    {
        proof {
            assert(t@.take(i + 1).drop_last() =~= t@.take(i as int));
        }
        if !ascii_digit(t[i]) {
            proof {
                assert(!is_ascii_digit(t@[i as int]));
            }
            return None;
        }
        let d = (t[i] as u32 - '0' as u32) as usize;
        if acc > len / 10 || d >= len - acc * 10 {
            proof {
                assert(all_digits(t@.take(i + 1)));
                lemma_digits_prefix_bound(t@, i + 1);
                if acc > len / 10 {
                    assert(acc * 10 + d >= len) by (nonlinear_arith)
                        requires
                            acc > len / 10,
                    ;
                }
            }
            return None;
        }
        acc = acc * 10 + d;
        i = i + 1;
    }
    proof {
        assert(t@.take(t@.len() as int) =~= t@);
    }
    Some(acc)
}

proof fn lemma_digits_prefix_bound(s: Seq<char>, n: int)
    requires
        0 <= n <= s.len(),
        all_digits(s.take(n)),
    ensures
        all_digits(s) ==> digits_value(s.take(n)) <= digits_value(s),
    decreases s.len() - n,
{
    if n < s.len() && all_digits(s) {
        assert(all_digits(s.take(n + 1)));
        lemma_digits_prefix_bound(s, n + 1);
        assert(s.take(n + 1).drop_last() =~= s.take(n));
    } else if n == s.len() {
        assert(s.take(n) =~= s);
    }
}

} // verus!
