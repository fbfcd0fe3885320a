//! JSON values as the library builds and reads them, and their compact text.

use vstd::prelude::*;

use crate::text::{decimal, push_all, push_decimal, push_signed, push_string, signed_decimal, string_of};

verus! {

/// A JSON value. Object members keep the order they were given in.
pub enum Json {
    Null,
    Bool(bool),
    /// A number that fits `u64`.
    UInt(u64),
    /// A negative number that fits `i64`.
    Int(i64),
    /// Any other number, held as the text JSON gives for it.
    Float(String),
    Str(String),
    Array(Vec<Json>),
    Object(Vec<(String, Json)>),
}

/// The mathematical form of a JSON value.
pub enum JsonValue {
    Null,
    Bool(bool),
    Int(int),
    Float(Seq<char>),
    Str(Seq<char>),
    Array(Seq<JsonValue>),
    Object(Seq<(Seq<char>, JsonValue)>),
}

/// The mathematical form of a JSON value.
pub open spec fn json_view(j: Json) -> JsonValue
    decreases j, 0int,
{
    match j {
        Json::Null => JsonValue::Null,
        Json::Bool(b) => JsonValue::Bool(b),
        Json::UInt(n) => JsonValue::Int(n as int),
        Json::Int(i) => JsonValue::Int(i as int),
        Json::Float(t) => JsonValue::Float(t@),
        Json::Str(s) => JsonValue::Str(s@),
        Json::Array(items) => JsonValue::Array(items_view(items@)),
        Json::Object(members) => JsonValue::Object(members_view(members@)),
    }
}

/// The mathematical forms of array items.
pub open spec fn items_view(items: Seq<Json>) -> Seq<JsonValue>
    decreases items, 1int,
{
    if items.len() == 0 {
        Seq::empty()
    } else {
        items_view(items.drop_last()).push(json_view(items.last()))
    }
}

/// The mathematical forms of object members.
pub open spec fn members_view(members: Seq<(String, Json)>) -> Seq<(Seq<char>, JsonValue)>
    decreases members, 1int,
{
    if members.len() == 0 {
        Seq::empty()
    } else {
        members_view(members.drop_last()).push((members.last().0@, json_view(members.last().1)))
    }
}

impl View for Json {
    type V = JsonValue;

    open spec fn view(&self) -> JsonValue {
        json_view(*self)
    }
}

pub proof fn lemma_items_view_index(items: Seq<Json>, i: int)
    requires
        0 <= i < items.len(),
    ensures
        items_view(items).len() == items.len(),
        items_view(items)[i] == json_view(items[i]),
    decreases items.len(),
{
    if i < items.len() - 1 {
        lemma_items_view_index(items.drop_last(), i);
    } else {
        lemma_items_view_len(items.drop_last());
    }
}

pub proof fn lemma_items_view_len(items: Seq<Json>)
    ensures
        items_view(items).len() == items.len(),
    decreases items.len(),
{
    if items.len() > 0 {
        lemma_items_view_len(items.drop_last());
    }
}

pub proof fn lemma_members_view_len(members: Seq<(String, Json)>)
    ensures
        members_view(members).len() == members.len(),
    decreases members.len(),
{
    if members.len() > 0 {
        lemma_members_view_len(members.drop_last());
    }
}

pub proof fn lemma_members_view_index(members: Seq<(String, Json)>, i: int)
    requires
        0 <= i < members.len(),
    ensures
        members_view(members).len() == members.len(),
        members_view(members)[i] == (members[i].0@, json_view(members[i].1)),
    decreases members.len(),
{
    if i < members.len() - 1 {
        lemma_members_view_index(members.drop_last(), i);
    } else {
        lemma_members_view_len(members.drop_last());
    }
}

/// The members of an object, member by member.
pub proof fn lemma_members_view(members: Seq<(String, Json)>)
    ensures
        members_view(members) == Seq::new(
            members.len(),
            |i: int| (members[i].0@, json_view(members[i].1)),
        ),
{
    lemma_members_view_len(members);
    assert forall|i: int| 0 <= i < members.len() implies #[trigger] members_view(members)[i] == (
    members[i].0@, json_view(members[i].1)) by {
        lemma_members_view_index(members, i);
    }
    assert(members_view(members) =~= Seq::new(
        members.len(),
        |i: int| (members[i].0@, json_view(members[i].1)),
    ));
}

/// A lower-case hexadecimal digit.
pub open spec fn hex_digit(n: int) -> char {
    if n < 10 {
        (48 + n) as char
    } else {
        (87 + n) as char
    }
}

/// How `serde_json` writes one character inside a string: `"` and `\`
/// behind a backslash; backspace, tab, line feed, form feed and carriage
/// return as `\b`, `\t`, `\n`, `\f`, `\r`; the other characters below
/// U+0020 as `\u00` and two lower-case hex digits; any other character as
/// itself.
pub open spec fn escaped(c: char) -> Seq<char> {
    if c == '"' {
        seq!['\\', '"']
    } else if c == '\\' {
        seq!['\\', '\\']
    } else if c == '\u{8}' {
        seq!['\\', 'b']
    } else if c == '\t' {
        seq!['\\', 't']
    } else if c == '\n' {
        seq!['\\', 'n']
    } else if c == '\u{c}' {
        seq!['\\', 'f']
    } else if c == '\r' {
        seq!['\\', 'r']
    } else if (c as int) < 32 {
        seq!['\\', 'u', '0', '0', hex_digit(c as int / 16), hex_digit(c as int % 16)]
    } else {
        seq![c]
    }
}

/// The characters of `s`, each escaped as `serde_json` does.
pub open spec fn escaped_text(s: Seq<char>) -> Seq<char>
    decreases s.len(),
{
    if s.len() == 0 {
        Seq::empty()
    } else {
        escaped_text(s.drop_last()) + escaped(s.last())
    }
}

/// The text `serde_json` writes for a string: the escaped characters of `s`
/// between double quotes.
pub open spec fn json_quoted(s: Seq<char>) -> Seq<char> {
    seq!['"'] + escaped_text(s) + seq!['"']
}

/// Quotes and escapes `s` as a JSON string.
///
/// Trusted: `serde_json::to_string` on a `str`, which writes the string
/// between quotes and escapes its characters from a fixed table (see
/// [`escaped`]). Serialising a string cannot fail.
#[verifier::external_body]
pub(crate) fn quote(s: &str) -> (res: String)
    ensures
        res@ == json_quoted(s@),
{
    match serde_json::to_string(s) {
        Ok(text) => text,
        Err(_) => String::new(),
    }
}

/// The compact JSON text of a value: no white space, members in order.
pub open spec fn json_text(v: JsonValue) -> Seq<char>
    decreases v, 0int,
{
    match v {
        JsonValue::Null => "null"@,
        JsonValue::Bool(b) => if b {
            "true"@
        } else {
            "false"@
        },
        JsonValue::Int(i) => signed_decimal(i),
        JsonValue::Float(t) => t,
        JsonValue::Str(s) => json_quoted(s),
        JsonValue::Array(items) => seq!['['] + items_text(items) + seq![']'],
        JsonValue::Object(members) => seq!['{'] + members_text(members) + seq!['}'],
    }
}

/// The comma-separated texts of array items.
pub open spec fn items_text(items: Seq<JsonValue>) -> Seq<char>
    decreases items, 1int,
{
    if items.len() == 0 {
        Seq::empty()
    } else if items.len() == 1 {
        json_text(items[0])
    } else {
        items_text(items.drop_last()) + seq![','] + json_text(items.last())
    }
}

/// The comma-separated `"key":value` texts of object members.
pub open spec fn members_text(members: Seq<(Seq<char>, JsonValue)>) -> Seq<char>
    decreases members, 1int,
{
    if members.len() == 0 {
        Seq::empty()
    } else if members.len() == 1 {
        json_quoted(members[0].0) + seq![':'] + json_text(members[0].1)
    } else {
        members_text(members.drop_last()) + seq![','] + json_quoted(members.last().0) + seq![':']
            + json_text(members.last().1)
    }
}

fn push_quoted(out: &mut Vec<char>, s: &String)
    ensures
        final(out)@ == old(out)@ + json_quoted(s@),
{
    let q = quote(s.as_str());
    push_all(out, q.as_str());
}

impl Json {
    /// Appends the compact JSON text of `self` to `out`.
    pub fn write_to(&self, out: &mut Vec<char>)
        ensures
            final(out)@ == old(out)@ + json_text(self@),
        decreases self,
    {
        match self {
            Json::Null => {
                push_all(out, "null");
                proof {
                    reveal_strlit("null");
                }
            },
            Json::Bool(b) => {
                if *b {
                    push_all(out, "true");
                } else {
                    push_all(out, "false");
                }
            },
            Json::UInt(n) => {
                push_decimal(out, *n);
                assert(signed_decimal(*n as int) == decimal(*n as nat));
            },
            Json::Int(i) => {
                push_signed(out, *i);
            },
            Json::Float(t) => {
                push_string(out, t);
            },
            Json::Str(s) => {
                push_quoted(out, s);
            },
            Json::Array(items) => {
                let ghost start = out@;
                out.push('[');
                let n = items.len();
                let ghost views = items_view(items@);
                proof {
                    lemma_items_view_len(items@);
                }
                for i in 0..n
                    invariant
                        n == items@.len(),
                        views == items_view(items@),
                        *self == Json::Array(*items),
                        views.len() == n,
                        out@ == start.push('[') + items_text(views.take(i as int)),
                {
                    let ghost before = out@;
                    if i > 0 {
                        out.push(',');
                    }
                    proof {
                        lemma_items_view_index(items@, i as int);
                        assert(decreases_to!(items@ => items@[i as int]));
                        assert(decreases_to!(*items => items@));
                        assert(*items == (*self)->Array_0);
                        assert(decreases_to!(*self => (*self)->Array_0));
                        assert(decreases_to!(*self => items@[i as int]));
                    }
                    items[i].write_to(out);
                    proof {
                        let t = views.take(i + 1);
                        assert(t.drop_last() == views.take(i as int));
                        assert(t.last() == items@[i as int]@);
                        if i == 0 {
                            assert(views.take(0) == Seq::<JsonValue>::empty());
                            assert(out@ == start.push('[') + items_text(t));
                        } else {
                            assert(out@ == before + seq![','] + json_text(items@[i as int]@));
                            assert(out@ == start.push('[') + items_text(t));
                        }
                    }
                }
                out.push(']');
                assert(views.take(n as int) == views);
                assert(out@ == start + (seq!['['] + items_text(views) + seq![']']));
            },
            Json::Object(members) => {
                let ghost start = out@;
                out.push('{');
                let n = members.len();
                let ghost views = members_view(members@);
                proof {
                    lemma_members_view_len(members@);
                }
                for i in 0..n
                    invariant
                        n == members@.len(),
                        views == members_view(members@),
                        *self == Json::Object(*members),
                        views.len() == n,
                        out@ == start.push('{') + members_text(views.take(i as int)),
                {
                    let ghost before = out@;
                    if i > 0 {
                        out.push(',');
                    }
                    push_quoted(out, &members[i].0);
                    out.push(':');
                    proof {
                        lemma_members_view_index(members@, i as int);
                        assert(decreases_to!(members@[i as int] => members@[i as int].1));
                        assert(decreases_to!(members@ => members@[i as int]));
                        assert(decreases_to!(*members => members@));
                        assert(*members == (*self)->Object_0);
                        assert(decreases_to!(*self => (*self)->Object_0));
                        assert(decreases_to!(*self => members@[i as int].1));
                    }
                    members[i].1.write_to(out);
                    proof {
                        let t = views.take(i + 1);
                        assert(t.drop_last() == views.take(i as int));
                        assert(t.last() == (members@[i as int].0@, members@[i as int].1@));
                        if i == 0 {
                            assert(views.take(0) == Seq::<(Seq<char>, JsonValue)>::empty());
                            assert(out@ == start.push('{') + members_text(t));
                        } else {
                            assert(out@ == start.push('{') + members_text(t));
                        }
                    }
                }
                out.push('}');
                assert(views.take(n as int) == views);
                assert(out@ == start + (seq!['{'] + members_text(views) + seq!['}']));
            },
        }
    }

    /// A copy of `self`.
    pub fn duplicate(&self) -> (res: Json)
        ensures
            res@ == self@,
        decreases self,
    {
        match self {
            Json::Null => Json::Null,
            Json::Bool(b) => Json::Bool(*b),
            Json::UInt(n) => Json::UInt(*n),
            Json::Int(i) => Json::Int(*i),
            Json::Float(t) => Json::Float(t.clone()),
            Json::Str(s) => Json::Str(s.clone()),
            Json::Array(items) => {
                let mut copy: Vec<Json> = Vec::new();
                let n = items.len();
                for i in 0..n
                    invariant
                        n == items@.len(),
                        *self == Json::Array(*items),
                        copy@.len() == i,
                        items_view(copy@) == items_view(items@.take(i as int)),
                {
                    proof {
                        assert(decreases_to!(items@ => items@[i as int]));
                        assert(decreases_to!(*items => items@));
                        assert(*items == (*self)->Array_0);
                        assert(decreases_to!(*self => (*self)->Array_0));
                    }
                    let item = items[i].duplicate();
                    let ghost before = copy@;
                    copy.push(item);
                    assert(copy@.drop_last() == before);
                    assert(items@.take(i + 1).drop_last() == items@.take(i as int));
                }
                assert(items@.take(n as int) == items@);
                Json::Array(copy)
            },
            Json::Object(members) => {
                let mut copy: Vec<(String, Json)> = Vec::new();
                let n = members.len();
                for i in 0..n
                    invariant
                        n == members@.len(),
                        *self == Json::Object(*members),
                        copy@.len() == i,
                        members_view(copy@) == members_view(members@.take(i as int)),
                {
                    proof {
                        assert(decreases_to!(members@[i as int] => members@[i as int].1));
                        assert(decreases_to!(members@ => members@[i as int]));
                        assert(decreases_to!(*members => members@));
                        assert(*members == (*self)->Object_0);
                        assert(decreases_to!(*self => (*self)->Object_0));
                    }
                    let value = members[i].1.duplicate();
                    let key = members[i].0.clone();
                    let ghost before = copy@;
                    copy.push((key, value));
                    assert(copy@.drop_last() == before);
                    assert(members@.take(i + 1).drop_last() == members@.take(i as int));
                }
                assert(members@.take(n as int) == members@);
                Json::Object(copy)
            },
        }
    }

    /// The compact JSON text of `self`.
    pub fn to_text(&self) -> (res: String)
        ensures
            res@ == json_text(self@),
    {
        let mut out: Vec<char> = Vec::new();
        self.write_to(&mut out);
        assert(out@ == Seq::<char>::empty() + json_text(self@));
        string_of(&out)
    }

    /// The value of the first member named `key`, when `self` is an object.
    pub fn get(&self, key: &str) -> (res: Option<&Json>)
        ensures
            match res {
                Some(r) => spec_member(*self, key@) == Some(*r),
                None => spec_member(*self, key@) is None,
            },
    {
        match self {
            Json::Object(members) => {
                let n = members.len();
                assert(members@.subrange(0, n as int) == members@);
                for i in 0..n
                    invariant
                        n == members@.len(),
                        *self == Json::Object(*members),
                        member_in(members@, key@) == member_in(members@.subrange(i as int, n as int), key@),
                {
                    let ghost rest = members@.subrange(i as int, n as int);
                    assert(rest.drop_first() == members@.subrange(i + 1, n as int));
                    if crate::text::str_is(members[i].0.as_str(), key) {
                        return Some(&members[i].1);
                    }
                }
                None
            },
            _ => None,
        }
    }
}

/// The value of the first member of `members` named `key`.
pub open spec fn member_in(members: Seq<(String, Json)>, key: Seq<char>) -> Option<Json>
    decreases members.len(),
{
    if members.len() == 0 {
        None
    } else if members[0].0@ == key {
        Some(members[0].1)
    } else {
        member_in(members.drop_first(), key)
    }
}

/// The value of the first member named `key` of an object; `None` for
/// anything else.
pub open spec fn spec_member(v: Json, key: Seq<char>) -> Option<Json> {
    match v {
        Json::Object(members) => member_in(members@, key),
        _ => None,
    }
}

/// The string that member `key` of `v` holds, if it holds one.
pub open spec fn member_str(v: Json, key: Seq<char>) -> Option<Seq<char>> {
    match spec_member(v, key) {
        Some(Json::Str(s)) => Some(s@),
        _ => None,
    }
}

/// The items of the array that member `key` of `v` holds, if it holds one.
pub open spec fn member_items(v: Json, key: Seq<char>) -> Option<Seq<Json>> {
    match spec_member(v, key) {
        Some(Json::Array(items)) => Some(items@),
        _ => None,
    }
}

/// Item `i` of `v` when `v` is an array long enough.
pub open spec fn spec_item(v: Json, i: int) -> Option<Json> {
    match v {
        Json::Array(items) => if 0 <= i < items@.len() {
            Some(items@[i])
        } else {
            None
        },
        _ => None,
    }
}

/// The number `v` holds when it is a non-negative integer that fits `u64`.
pub open spec fn spec_as_u64(v: Option<Json>) -> Option<u64> {
    match v {
        Some(Json::UInt(n)) => Some(n),
        _ => None,
    }
}

impl Json {
    /// The string member `key`, if `self` is an object holding one.
    pub fn str_member(&self, key: &str) -> (res: Option<&String>)
        ensures
            match res {
                Some(s) => member_str(*self, key@) == Some(s@),
                None => member_str(*self, key@) is None,
            },
    {
        match self.get(key) {
            Some(Json::Str(s)) => Some(s),
            _ => None,
        }
    }

    /// The items of the array member `key`, if `self` is an object holding one.
    pub fn items_member(&self, key: &str) -> (res: Option<&Vec<Json>>)
        ensures
            match res {
                Some(items) => member_items(*self, key@) == Some(items@),
                None => member_items(*self, key@) is None,
            },
    {
        match self.get(key) {
            Some(Json::Array(items)) => Some(items),
            _ => None,
        }
    }

    /// Item `i`, if `self` is an array long enough.
    pub fn item(&self, i: usize) -> (res: Option<&Json>)
        ensures
            match res {
                Some(r) => spec_item(*self, i as int) == Some(*r),
                None => spec_item(*self, i as int) is None,
            },
    {
        match self {
            Json::Array(items) => if i < items.len() {
                Some(&items[i])
            } else {
                None
            },
            _ => None,
        }
    }

    /// The number member `key` as a `u64`, if it is one.
    pub fn u64_member(&self, key: &str) -> (res: Option<u64>)
        ensures
            res == spec_as_u64(spec_member(*self, key@)),
    {
        match self.get(key) {
            Some(Json::UInt(n)) => Some(*n),
            _ => None,
        }
    }
}

} // verus!
