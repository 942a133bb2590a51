//! JSON values, and the reading and printing of them.
use vstd::prelude::*;
use vstd::string::*;

use serde_json::{Number, Value};

verus! {

/// A JSON value as serde_json holds it.
#[verifier::external_type_specification]
#[verifier::external_body]
pub struct ExValue(serde_json::Value);

/// A JSON number as serde_json holds it. Nothing here looks inside one with a fraction.
#[verifier::external_type_specification]
#[verifier::external_body]
pub struct ExNumber(serde_json::Number);

/// Why serde_json refused a text.
#[verifier::external_type_specification]
#[verifier::external_body]
pub struct ExError(serde_json::Error);

/// What a JSON number says: a whole number, or one that is kept as a fraction.
pub enum Numeral {
    Int(int),
    Fraction(Number),
}

/// What a serde_json number says: its value where it holds a whole number
/// (`serde_json::Number::as_u64`, `as_i64`), and itself where it holds a fraction.
pub uninterp spec fn numeral_of(n: Number) -> Numeral;

/// What a JSON value says.
pub enum Json {
    Null,
    Bool(bool),
    Number(Numeral),
    String(Seq<char>),
    Array(Seq<Json>),
    Object(Map<Seq<char>, Json>),
}

/// A JSON value. Where a key occurs twice in an object, the last one counts.
#[derive(Debug, PartialEq)]
pub enum JsonValue {
    Null,
    Bool(bool),
    /// A whole number that is not negative.
    PosInt(u64),
    /// A whole number below zero.
    NegInt(i64),
    /// A number as serde_json holds it; where a text was read, one with a fraction.
    Number(Number),
    String(String),
    Array(Vec<JsonValue>),
    Object(Vec<(String, JsonValue)>),
}

/// What `v` says.
pub open spec fn json_view(v: JsonValue) -> Json
    decreases v,
{
    match v {
        JsonValue::Null => Json::Null,
        JsonValue::Bool(b) => Json::Bool(b),
        JsonValue::PosInt(n) => Json::Number(Numeral::Int(n as int)),
        JsonValue::NegInt(n) => Json::Number(Numeral::Int(n as int)),
        JsonValue::Number(n) => Json::Number(numeral_of(n)),
        JsonValue::String(s) => Json::String(s@),
        JsonValue::Array(items) => Json::Array(
            Seq::new(
                items@.len(),
                |i: int|
                    if 0 <= i < items@.len() {
                        json_view(items@[i])
                    } else {
                        Json::Null
                    },
            ),
        ),
        JsonValue::Object(members) => Json::Object(members_view(members@)),
    }
}

/// What the members of an object say.
pub open spec fn members_view(members: Seq<(String, JsonValue)>) -> Map<Seq<char>, Json>
    decreases members,
{
    if members.len() == 0 {
        Map::empty()
    } else {
        members_view(members.drop_last()).insert(members.last().0@, json_view(members.last().1))
    }
}

impl View for JsonValue {
    type V = Json;

    open spec fn view(&self) -> Json {
        json_view(*self)
    }
}

impl Json {
    /// The member of an object under `key`, if the value is an object that has it.
    pub open spec fn member(self, key: Seq<char>) -> Option<Json> {
        match self {
            Json::Object(m) => if m.contains_key(key) {
                Some(m[key])
            } else {
                None
            },
            _ => None,
        }
    }

    /// The value that `path` leads to, key by key.
    pub open spec fn at(self, path: Seq<Seq<char>>) -> Option<Json>
        decreases path.len(),
    {
        if path.len() == 0 {
            Some(self)
        } else {
            match self.member(path[0]) {
                Some(child) => child.at(path.drop_first()),
                None => None,
            }
        }
    }

    /// The value with what `path` leads to replaced by `new`; unchanged where it leads nowhere.
    pub open spec fn with(self, path: Seq<Seq<char>>, new: Json) -> Json
        decreases path.len(),
    {
        if path.len() == 0 {
            new
        } else {
            match self {
                Json::Object(m) => if m.contains_key(path[0]) {
                    Json::Object(m.insert(path[0], m[path[0]].with(path.drop_first(), new)))
                } else {
                    self
                },
                _ => self,
            }
        }
    }

    /// An object with `key` set to `new`; another value unchanged.
    pub open spec fn set(self, key: Seq<char>, new: Json) -> Json {
        match self {
            Json::Object(m) => Json::Object(m.insert(key, new)),
            _ => self,
        }
    }
}

/// One member more.
proof fn lemma_pushed(members: Seq<(String, JsonValue)>, member: (String, JsonValue))
    ensures
        members_view(members.push(member)) == members_view(members).insert(
            member.0@,
            json_view(member.1),
        ),
{
    reveal_with_fuel(members_view, 2);
    assert(members.push(member).drop_last() =~= members);
}

/// A key that is among the members is among what they say, under the value of its last place.
proof fn lemma_member_at(members: Seq<(String, JsonValue)>, i: int)
    requires
        0 <= i < members.len(),
        forall|j: int| i < j < members.len() ==> (#[trigger] members[j]).0@ != members[i].0@,
    ensures
        members_view(members).contains_key(members[i].0@),
        members_view(members)[members[i].0@] == json_view(members[i].1),
    decreases members.len(),
{
    let last = members.len() - 1;
    if i < last {
        let before = members.drop_last();
        assert(before[i] == members[i]);
        assert(members[last].0@ != members[i].0@);
        assert forall|j: int| i < j < before.len() implies (#[trigger] before[j]).0@
            != before[i].0@ by {
            assert(members[j].0@ != members[i].0@);
        }
        lemma_member_at(before, i);
    }
}

/// A key that is not among the members is not among what they say.
proof fn lemma_member_absent(members: Seq<(String, JsonValue)>, key: Seq<char>)
    requires
        forall|j: int| 0 <= j < members.len() ==> (#[trigger] members[j]).0@ != key,
    ensures
        !members_view(members).contains_key(key),
    decreases members.len(),
{
    if members.len() > 0 {
        let before = members.drop_last();
        assert(members[members.len() - 1].0@ != key);
        assert forall|j: int| 0 <= j < before.len() implies (#[trigger] before[j]).0@ != key by {
            assert(members[j].0@ != key);
        }
        lemma_member_absent(before, key);
    }
}

/// Taking a member out leaves the other keys alone.
proof fn lemma_member_removed(members: Seq<(String, JsonValue)>, i: int)
    requires
        0 <= i < members.len(),
    ensures
        members_view(members.remove(i)).remove(members[i].0@) == members_view(members).remove(
            members[i].0@,
        ),
    decreases members.len(),
{
    let last = members.len() - 1;
    let key = members[i].0@;
    let before = members.drop_last();
    if i == last {
        assert(members.remove(i) =~= before);
        assert(members_view(before).remove(key) =~= members_view(members).remove(key));
    } else {
        lemma_member_removed(before, i);
        assert(members.remove(i).drop_last() =~= before.remove(i));
        assert(members.remove(i).last() == members.last());
        let k = members.last().0@;
        let v = json_view(members.last().1);
        let x = members_view(before.remove(i));
        let y = members_view(before);
        assert(before[i].0@ == key);
        assert(x.remove(key) == y.remove(key));
        assert(x.insert(k, v).remove(key) =~= y.insert(k, v).remove(key)) by {
            assert forall|q: Seq<char>| q != key implies x.insert(k, v).contains_key(q)
                == y.insert(k, v).contains_key(q) by {
                assert(x.remove(key).contains_key(q) == y.remove(key).contains_key(q));
            }
            assert forall|q: Seq<char>|
                q != key && x.insert(k, v).contains_key(q) implies x.insert(k, v)[q] == y.insert(
                k,
                v,
            )[q] by {
                if q != k {
                    assert(x.remove(key).contains_key(q));
                    assert(x.remove(key)[q] == y.remove(key)[q]);
                }
            }
        }
    }
}

/// The last place of `key` among the members.
fn last_place(members: &Vec<(String, JsonValue)>, key: &String) -> (r: Option<usize>)
    ensures
        match r {
            Some(i) => i < members@.len() && members@[i as int].0@ == key@ && forall|j: int|
                i < j < members@.len() ==> (#[trigger] members@[j]).0@ != key@,
            None => forall|j: int| 0 <= j < members@.len() ==> (#[trigger] members@[j]).0@ != key@,
        },
{
    let mut i: usize = members.len();
    while i > 0
        invariant
            i <= members@.len(),
            forall|j: int| i <= j < members@.len() ==> (#[trigger] members@[j]).0@ != key@,
        decreases i,
    {
        i = i - 1;
        if members[i].0 == *key {
            return Some(i);
        }
    }
    None
}

impl JsonValue {
    /// The member of an object under `key`, if the value is an object that has it.
    pub fn member(&self, key: &str) -> (r: Option<&JsonValue>)
        ensures
            match self@.member(key@) {
                Some(j) => r matches Some(v) && v@ == j,
                None => r is None,
            },
    {
        let key = String::from_str(key);
        match self {
            JsonValue::Object(members) => {
                let place: Option<usize> = last_place(members, &key);
                match place {
                    Some(i) => {
                        proof {
                            lemma_member_at(members@, i as int);
                        }
                        Some(&members[i].1)
                    },
                    None => {
                        proof {
                            lemma_member_absent(members@, key@);
                        }
                        None
                    },
                }
            },
            _ => None,
        }
    }

    /// The member of an object under `key`, taken out of it.
    pub fn into_member(self, key: &str) -> (r: Option<JsonValue>)
        ensures
            match self@.member(key@) {
                Some(j) => r matches Some(v) && v@ == j,
                None => r is None,
            },
    {
        let key = String::from_str(key);
        match self {
            JsonValue::Object(members) => {
                let mut members = members;
                let place: Option<usize> = last_place(&members, &key);
                match place {
                    Some(i) => {
                        proof {
                            lemma_member_at(members@, i as int);
                        }
                        let (_, value) = members.remove(i);
                        Some(value)
                    },
                    None => {
                        proof {
                            lemma_member_absent(members@, key@);
                        }
                        None
                    },
                }
            },
            _ => None,
        }
    }

    /// An object with `key` set to `new`; another value unchanged.
    pub fn set(self, key: &str, new: JsonValue) -> (r: JsonValue)
        ensures
            r@ == self@.set(key@, new@),
    {
        match self {
            JsonValue::Object(members) => {
                let mut members = members;
                let ghost had = members@;
                let name = String::from_str(key);
                members.push((name, new));
                proof {
                    lemma_pushed(had, (name, new));
                }
                JsonValue::Object(members)
            },
            other => other,
        }
    }
}

/// The texts of a path.
pub open spec fn path_view(path: Seq<&str>) -> Seq<Seq<char>> {
    Seq::new(path.len(), |i: int| path[i]@)
}

/// The value that `path` leads to, key by key.
pub fn value_at<'a>(v: &'a JsonValue, path: &[&str]) -> (r: Option<&'a JsonValue>)
    ensures
        match v@.at(path_view(path@)) {
            Some(j) => r matches Some(x) && x@ == j,
            None => r is None,
        },
{
    let ghost full = path_view(path@);
    let mut here: &'a JsonValue = v;
    assert(full.skip(0) =~= full);
    for i in 0..path.len()
        invariant
            full == path_view(path@),
            v@.at(full) == here@.at(full.skip(i as int)),
    {
        proof {
            assert(full.skip(i as int)[0] == path@[i as int]@);
            assert(full.skip(i as int).drop_first() =~= full.skip(i + 1));
        }
        match here.member(path[i]) {
            Some(child) => {
                here = child;
            },
            None => {
                return None;
            },
        }
    }
    assert(full.skip(path@.len() as int).len() == 0);
    Some(here)
}

/// The value with `key` set to `new` in the object that `path` leads to; unchanged where it leads
/// to none.
pub open spec fn set_at_path(v: Json, path: Seq<Seq<char>>, key: Seq<char>, new: Json) -> Json {
    match v.at(path) {
        Some(object) => v.with(path, object.set(key, new)),
        None => v,
    }
}

/// As [`set_at`], for the path from `from` on.
fn set_from(v: JsonValue, path: &[&str], from: usize, key: &str, new: JsonValue) -> (r: JsonValue)
    requires
        from <= path@.len(),
    ensures
        r@ == set_at_path(v@, path_view(path@).skip(from as int), key@, new@),
    decreases path@.len() - from,
{
    let ghost rest = path_view(path@).skip(from as int);
    if from == path.len() {
        assert(rest.len() == 0);
        return v.set(key, new);
    }
    assert(rest[0] == path@[from as int]@);
    assert(rest.drop_first() =~= path_view(path@).skip(from + 1));
    match v {
        JsonValue::Object(members) => {
            let name = String::from_str(path[from]);
            let place: Option<usize> = last_place(&members, &name);
            let mut members = members;
            let ghost had = members@;
            match place {
                Some(i) => {
                    proof {
                        lemma_member_at(had, i as int);
                        lemma_member_removed(had, i as int);
                    }
                    let (name, child) = members.remove(i);
                    let ghost left = members@;
                    let child = set_from(child, path, from + 1, key, new);
                    members.push((name, child));
                    proof {
                        lemma_pushed(left, (name, child));
                        let x = members_view(left);
                        let y = members_view(had);
                        assert(x.insert(name@, child@) =~= x.remove(name@).insert(name@, child@));
                        assert(y.insert(name@, child@) =~= y.remove(name@).insert(name@, child@));
                        assert(y.insert(name@, y[name@]) =~= y);
                    }
                    JsonValue::Object(members)
                },
                None => {
                    proof {
                        lemma_member_absent(had, name@);
                    }
                    JsonValue::Object(members)
                },
            }
        },
        other => other,
    }
}

/// The value with `key` set to `new` in the object that `path` leads to; unchanged where it leads
/// to none.
pub fn set_at(v: JsonValue, path: &[&str], key: &str, new: JsonValue) -> (r: JsonValue)
    ensures
        r@ == set_at_path(v@, path_view(path@), key@, new@),
{
    assert(path_view(path@).skip(0) =~= path_view(path@));
    set_from(v, path, 0, key, new)
}

// ---------------------------------------------------------------------------
// serde_json's values.
// ---------------------------------------------------------------------------

/// What a serde_json value holds.
pub uninterp spec fn json_of(v: Value) -> Json;

/// A serde_json value, opened one level deep.
enum Opened {
    Null,
    Bool(bool),
    PosInt(u64),
    NegInt(i64),
    Number(Number),
    String(String),
    Array(Vec<Value>),
    Object(Vec<(String, Value)>),
}

/// What an opened value says.
spec fn opened_view(o: Opened) -> Json {
    match o {
        Opened::Null => Json::Null,
        Opened::Bool(b) => Json::Bool(b),
        Opened::PosInt(n) => Json::Number(Numeral::Int(n as int)),
        Opened::NegInt(n) => Json::Number(Numeral::Int(n as int)),
        Opened::Number(n) => Json::Number(numeral_of(n)),
        Opened::String(s) => Json::String(s@),
        Opened::Array(items) => Json::Array(Seq::new(items@.len(), |i: int| json_of(items@[i]))),
        Opened::Object(members) => Json::Object(opened_members(members@)),
    }
}

/// What opened members say.
spec fn opened_members(members: Seq<(String, Value)>) -> Map<Seq<char>, Json>
    decreases members.len(),
{
    if members.len() == 0 {
        Map::empty()
    } else {
        opened_members(members.drop_last()).insert(members.last().0@, json_of(members.last().1))
    }
}

/// No key twice.
spec fn keys_distinct(members: Seq<(String, Value)>) -> bool {
    forall|i: int, j: int|
        0 <= i < j < members.len() ==> (#[trigger] members[i]).0@ != (#[trigger] members[j]).0@
}

/// Takes a `serde_json::Value` apart by its variants: the parts are those of the value, a whole
/// number (`serde_json::Number::as_u64`, `as_i64`) is taken by its value, so that a number that is
/// left is a fraction, and an object (`serde_json::Map`) gives each of its keys once.
#[verifier::external_body]
fn open_value(v: Value) -> (r: Opened)
    ensures
        opened_view(r) == json_of(v),
        r matches Opened::Object(members) ==> keys_distinct(members@),
        r matches Opened::Number(n) ==> numeral_of(n) is Fraction,
{
    match v {
        Value::Null => Opened::Null,
        Value::Bool(b) => Opened::Bool(b),
        Value::Number(n) => match (n.as_u64(), n.as_i64()) {
            (Some(u), _) => Opened::PosInt(u),
            (None, Some(i)) => Opened::NegInt(i),
            (None, None) => Opened::Number(n),
        },
        Value::String(s) => Opened::String(s),
        Value::Array(items) => Opened::Array(items),
        Value::Object(members) => Opened::Object(members.into_iter().collect()),
    }
}

/// Builds a `serde_json::Value` of the given parts; a whole number keeps its value
/// (`serde_json::Number::from`), a serde_json number says in the value what it says by itself, and
/// of an object's members with one key the last one stays.
#[verifier::external_body]
fn close_value(o: Opened) -> (r: Value)
    ensures
        json_of(r) == opened_view(o),
        o matches Opened::Number(n) ==> json_of(r) == Json::Number(numeral_of(n)),
{
    match o {
        Opened::Null => Value::Null,
        Opened::Bool(b) => Value::Bool(b),
        Opened::PosInt(n) => Value::Number(Number::from(n)),
        Opened::NegInt(n) => Value::Number(Number::from(n)),
        Opened::Number(n) => Value::Number(n),
        Opened::String(s) => Value::String(s),
        Opened::Array(items) => Value::Array(items),
        Opened::Object(members) => Value::Object(members.into_iter().collect()),
    }
}

/// Every member is among what the members say.
proof fn lemma_opened_member(members: Seq<(String, Value)>, i: int)
    requires
        keys_distinct(members),
        0 <= i < members.len(),
    ensures
        opened_members(members).contains_key(members[i].0@),
        opened_members(members)[members[i].0@] == json_of(members[i].1),
    decreases members.len(),
{
    if i < members.len() - 1 {
        let before = members.drop_last();
        assert forall|a: int, b: int| 0 <= a < b < before.len() implies (#[trigger] before[a]).0@
            != (#[trigger] before[b]).0@ by {
            assert(members[a].0@ != members[b].0@);
        }
        lemma_opened_member(before, i);
        assert(members[i].0@ != members[members.len() - 1].0@);
    }
}

/// Finitely many members.
proof fn lemma_opened_finite(members: Seq<(String, Value)>)
    ensures
        opened_members(members).dom().finite(),
    decreases members.len(),
{
    if members.len() > 0 {
        lemma_opened_finite(members.drop_last());
    }
}

/// The library's form of a serde_json value.
pub fn from_serde(v: Value) -> (r: JsonValue)
    ensures
        r@ == json_of(v),
    decreases json_of(v),
{
    let ghost whole = json_of(v);
    match open_value(v) {
        Opened::Null => JsonValue::Null,
        Opened::Bool(b) => JsonValue::Bool(b),
        Opened::PosInt(n) => JsonValue::PosInt(n),
        Opened::NegInt(n) => JsonValue::NegInt(n),
        Opened::Number(n) => JsonValue::Number(n),
        Opened::String(s) => JsonValue::String(s),
        Opened::Array(items) => {
            let ghost all = items@;
            let ghost said = Seq::new(all.len(), |i: int| json_of(all[i]));
            let mut out: Vec<JsonValue> = Vec::new();
            for item in it: items.into_iter()
                invariant
                    it.seq() == all,
                    said == Seq::new(all.len(), |i: int| json_of(all[i])),
                    whole == Json::Array(said),
                    whole == json_of(v),
                    out@.len() == it.index(),
                    forall|k: int| 0 <= k < out@.len() ==> json_view(#[trigger] out@[k]) == said[k],
            {
                proof {
                    assert(said[it.index() as int] == json_of(item));
                    assert(decreases_to!(whole => whole->Array_0));
                    assert(decreases_to!(said => said[it.index() as int]));
                }
                out.push(from_serde(item));
            }
            let r = JsonValue::Array(out);
            assert(r@->Array_0 =~= said);
            r
        },
        Opened::Object(members) => {
            let ghost all = members@;
            let mut out: Vec<(String, JsonValue)> = Vec::new();
            assert(all.take(0) =~= Seq::empty());
            proof {
                lemma_opened_finite(all);
            }
            for member in it: members.into_iter()
                invariant
                    it.seq() == all,
                    keys_distinct(all),
                    whole == Json::Object(opened_members(all)),
                    whole == json_of(v),
                    opened_members(all).dom().finite(),
                    members_view(out@) == opened_members(all.take(it.index() as int)),
            {
                let ghost had = out@;
                let ghost i = it.index() as int;
                let (name, value) = member;
                proof {
                    lemma_opened_member(all, i);
                    assert(decreases_to!(whole => whole->Object_0));
                    assert(decreases_to!(whole->Object_0 => (whole->Object_0)[all[i].0@]));
                }
                let value = from_serde(value);
                out.push((name, value));
                proof {
                    lemma_pushed(had, (name, value));
                    assert(all.take(i + 1).drop_last() =~= all.take(i));
                }
            }
            assert(all.take(all.len() as int) =~= all);
            let r = JsonValue::Object(out);
            r
        },
    }
}

/// serde_json's form of a value.
pub fn into_serde(v: JsonValue) -> (r: Value)
    ensures
        json_of(r) == v@,
    decreases v,
{
    let ghost whole = v;
    match v {
        JsonValue::Null => close_value(Opened::Null),
        JsonValue::Bool(b) => close_value(Opened::Bool(b)),
        JsonValue::PosInt(n) => close_value(Opened::PosInt(n)),
        JsonValue::NegInt(n) => close_value(Opened::NegInt(n)),
        JsonValue::Number(n) => close_value(Opened::Number(n)),
        JsonValue::String(s) => close_value(Opened::String(s)),
        JsonValue::Array(items) => {
            let ghost all = items@;
            let mut out: Vec<Value> = Vec::new();
            for item in it: items.into_iter()
                invariant
                    it.seq() == all,
                    whole == v,
                    whole == JsonValue::Array(items),
                    all == items@,
                    out@.len() == it.index(),
                    forall|k: int| 0 <= k < out@.len() ==> json_of(#[trigger] out@[k]) == json_view(
                        all[k],
                    ),
            {
                proof {
                    assert(decreases_to!(whole => whole->Array_0));
                    assert(decreases_to!((whole->Array_0) => (whole->Array_0)@));
                    assert(decreases_to!(all => all[it.index() as int]));
                }
                out.push(into_serde(item));
            }
            let o = Opened::Array(out);
            assert(opened_view(o)->Array_0 =~= whole@->Array_0);
            close_value(o)
        },
        JsonValue::Object(members) => {
            let ghost all = members@;
            let mut out: Vec<(String, Value)> = Vec::new();
            assert(all.take(0) =~= Seq::empty());
            for member in it: members.into_iter()
                invariant
                    it.seq() == all,
                    whole == v,
                    whole == JsonValue::Object(members),
                    all == members@,
                    opened_members(out@) == members_view(all.take(it.index() as int)),
            {
                let ghost had = out@;
                let ghost i = it.index() as int;
                proof {
                    assert(decreases_to!(whole => whole->Object_0));
                    assert(decreases_to!((whole->Object_0) => (whole->Object_0)@));
                    assert(decreases_to!(all => all[i]));
                    assert(decreases_to!(member => member.1));
                }
                let (name, value) = member;
                let value = into_serde(value);
                out.push((name, value));
                proof {
                    assert(out@.drop_last() =~= had);
                    assert(all.take(i + 1) =~= all.take(i).push(all[i]));
                    lemma_pushed(all.take(i), all[i]);
                }
            }
            assert(all.take(all.len() as int) =~= all);
            close_value(Opened::Object(out))
        },
    }
}

/// The value that a byte string encodes or, if it is not JSON, what the parser says of it.
pub uninterp spec fn json_parse(data: Seq<u8>) -> Result<Json, Seq<char>>;

/// The value that a text encodes or, if it is not JSON, what the parser says of it.
pub uninterp spec fn json_parse_text(text: Seq<char>) -> Result<Json, Seq<char>>;

/// The compact text of a value.
pub uninterp spec fn json_text(j: Json) -> Seq<char>;

/// The bytes of the compact text of a value.
pub uninterp spec fn json_bytes(j: Json) -> Seq<u8>;

/// The most nested arrays and objects that the parser takes.
pub open spec fn depth_limit() -> nat {
    127
}

/// Whether `j` is at most `depth` nested arrays and objects.
pub open spec fn nests_within(j: Json, depth: nat) -> bool
    decreases depth,
{
    match j {
        Json::Array(items) => depth > 0 && forall|i: int|
            0 <= i < items.len() ==> nests_within(#[trigger] items[i], (depth - 1) as nat),
        Json::Object(m) => depth > 0 && forall|k: Seq<char>|
            m.contains_key(k) ==> nests_within(#[trigger] m[k], (depth - 1) as nat),
        _ => true,
    }
}

/// Whether `b` says what `a` says but for fractions, in at most `depth` nested arrays and objects:
/// the same nulls, truth values, whole numbers and texts, under the same keys and in the same
/// places, and a fraction wherever `a` has one.
pub open spec fn alike(a: Json, b: Json, depth: nat) -> bool
    decreases depth,
{
    match (a, b) {
        (Json::Null, Json::Null) => true,
        (Json::Bool(x), Json::Bool(y)) => x == y,
        (Json::Number(Numeral::Int(x)), Json::Number(Numeral::Int(y))) => x == y,
        (Json::Number(Numeral::Fraction(_)), Json::Number(Numeral::Fraction(_))) => true,
        (Json::String(x), Json::String(y)) => x == y,
        (Json::Array(x), Json::Array(y)) => depth > 0 && x.len() == y.len() && forall|i: int|
            0 <= i < x.len() ==> alike(#[trigger] x[i], y[i], (depth - 1) as nat),
        (Json::Object(x), Json::Object(y)) => depth > 0 && x.dom() == y.dom() && forall|
            k: Seq<char>,
        |
            x.contains_key(k) ==> alike(#[trigger] x[k], y[k], (depth - 1) as nat),
        _ => false,
    }
}

/// Whether `read` is what reading the printed text of `j` gives: something like `j`.
pub open spec fn reads_back(j: Json, read: Result<Json, Seq<char>>) -> bool {
    read matches Ok(back) && alike(j, back, depth_limit())
}

/// What reading gave: what the value says, or the text of the error.
pub open spec fn outcome(r: Result<Value, String>) -> Result<Json, Seq<char>> {
    match r {
        Ok(v) => Ok(json_of(v)),
        Err(why) => Err(why@),
    }
}

/// Calls `serde_json::from_slice`: the same bytes give the same value, or are always refused with
/// an error that shows the same text. What is read nests at most 127 deep, the limit of the parser.
#[verifier::external_body]
fn serde_from_slice(data: &[u8]) -> (r: Result<Value, String>)
    ensures
        outcome(r) == json_parse(data@),
        r matches Ok(v) ==> nests_within(json_of(v), depth_limit()),
{
    serde_json::from_slice(data).map_err(|e| e.to_string())
}

/// Calls `serde_json::from_str`: the same text gives the same value, or is always refused with an
/// error that shows the same text. What is read nests at most 127 deep, the limit of the parser.
#[verifier::external_body]
fn serde_from_str(text: &str) -> (r: Result<Value, String>)
    ensures
        outcome(r) == json_parse_text(text@),
        r matches Ok(v) ==> nests_within(json_of(v), depth_limit()),
{
    serde_json::from_str(text).map_err(|e| e.to_string())
}

/// Calls `serde_json::to_string` on a `Value`, which prints every value: its object keys are
/// strings and its numbers are finite. The same value gives the same text, since the members of an
/// object are kept in the order of their keys. Where the value does not nest too deep for the
/// parser, `serde_json::from_str` reads the text as the value again, but for fractions: each comes
/// back as a fraction, which may be a neighbour of the printed one.
#[verifier::external_body]
fn serde_to_string(v: &Value) -> (r: Result<String, serde_json::Error>)
    ensures
        r is Ok,
        r matches Ok(s) ==> s@ == json_text(json_of(*v)),
        r matches Ok(s) ==> (nests_within(json_of(*v), depth_limit()) ==> reads_back(
            json_of(*v),
            json_parse_text(s@),
        )),
{
    serde_json::to_string(v)
}

/// Calls `serde_json::to_vec` on a `Value`, which prints every value: its object keys are strings
/// and its numbers are finite. The same value gives the same bytes, since the members of an object
/// are kept in the order of their keys. Where the value does not nest too deep for the parser,
/// `serde_json::from_slice` reads the bytes as the value again, but for fractions: each comes back
/// as a fraction, which may be a neighbour of the printed one.
#[verifier::external_body]
fn serde_to_vec(v: &Value) -> (r: Result<Vec<u8>, serde_json::Error>)
    ensures
        r is Ok,
        r matches Ok(b) ==> b@ == json_bytes(json_of(*v)),
        r matches Ok(b) ==> (nests_within(json_of(*v), depth_limit()) ==> reads_back(
            json_of(*v),
            json_parse(b@),
        )),
{
    serde_json::to_vec(v)
}

/// A member of something nests less deep.
proof fn lemma_member_nests(j: Json, key: Seq<char>, depth: nat)
    requires
        nests_within(j, depth),
        j.member(key) is Some,
    ensures
        depth > 0,
        nests_within(j.member(key)->0, (depth - 1) as nat),
{
}

/// Replacing what a path leads to by something that nests no deeper keeps the nesting.
pub proof fn lemma_with_nests(j: Json, path: Seq<Seq<char>>, new: Json, depth: nat)
    requires
        nests_within(j, depth),
        j.at(path) is Some,
        path.len() <= depth ==> nests_within(new, (depth - path.len()) as nat),
    ensures
        path.len() <= depth,
        nests_within(j.with(path, new), depth),
    decreases path.len(),
{
    if path.len() > 0 {
        lemma_member_nests(j, path[0], depth);
        let rest = path.drop_first();
        let d = (depth - 1) as nat;
        lemma_with_nests(j.member(path[0])->0, rest, new, d);
        let m = j->Object_0;
        let n = m.insert(path[0], m[path[0]].with(rest, new));
        assert forall|k: Seq<char>| n.contains_key(k) implies nests_within(#[trigger] n[k], d) by {
            if k != path[0] {
                assert(nests_within(m[k], d));
            }
        }
    }
}

/// What a path leads to nests less deep.
pub proof fn lemma_at_nests(j: Json, path: Seq<Seq<char>>, depth: nat)
    requires
        nests_within(j, depth),
        j.at(path) is Some,
    ensures
        path.len() <= depth,
        nests_within(j.at(path)->0, (depth - path.len()) as nat),
    decreases path.len(),
{
    if path.len() > 0 {
        lemma_member_nests(j, path[0], depth);
        lemma_at_nests(j.member(path[0])->0, path.drop_first(), (depth - 1) as nat);
    }
}

/// Setting a member that does not nest keeps the nesting.
pub proof fn lemma_set_nests(j: Json, key: Seq<char>, new: Json, depth: nat)
    requires
        nests_within(j, depth),
        nests_within(new, 0),
        !(new is Array) && !(new is Object),
    ensures
        nests_within(j.set(key, new), depth),
{
    if j is Object {
        let m = j->Object_0;
        let n = m.insert(key, new);
        assert forall|k: Seq<char>| n.contains_key(k) implies nests_within(
            #[trigger] n[k],
            (depth - 1) as nat,
        ) by {
            if k != key {
                assert(nests_within(m[k], (depth - 1) as nat));
            }
        }
    }
}

/// Likes have like members under the same keys.
pub proof fn lemma_member_alike(a: Json, b: Json, key: Seq<char>, depth: nat)
    requires
        alike(a, b, depth),
    ensures
        a.member(key) is None ==> b.member(key) is None,
        a.member(key) is Some ==> depth > 0 && b.member(key) is Some && alike(
            a.member(key)->0,
            b.member(key)->0,
            (depth - 1) as nat,
        ),
{
    if a is Object {
        let x = a->Object_0;
        let y = b->Object_0;
        assert(x.dom().contains(key) == y.dom().contains(key));
        if x.contains_key(key) {
            assert(alike(x[key], y[key], (depth - 1) as nat));
        }
    }
}

/// A path leads to likes in likes.
pub proof fn lemma_at_alike(a: Json, b: Json, path: Seq<Seq<char>>, depth: nat)
    requires
        alike(a, b, depth),
        a.at(path) is Some,
    ensures
        path.len() <= depth,
        b.at(path) is Some,
        alike(a.at(path)->0, b.at(path)->0, (depth - path.len()) as nat),
    decreases path.len(),
{
    if path.len() > 0 {
        lemma_member_alike(a, b, path[0], depth);
        lemma_at_alike(
            a.member(path[0])->0,
            b.member(path[0])->0,
            path.drop_first(),
            (depth - 1) as nat,
        );
    }
}

/// The value that `data` encodes or, where it is not JSON, what the parser says of it.
pub fn parse(data: &[u8]) -> (r: Result<JsonValue, String>)
    ensures
        match json_parse(data@) {
            Ok(j) => r matches Ok(v) && v@ == j && nests_within(j, depth_limit()),
            Err(why) => r matches Err(e) && e@ == why,
        },
{
    match serde_from_slice(data) {
        Ok(v) => Ok(from_serde(v)),
        Err(why) => Err(why),
    }
}

/// The value that `text` encodes or, where it is not JSON, what the parser says of it.
pub fn parse_text(text: &str) -> (r: Result<JsonValue, String>)
    ensures
        match json_parse_text(text@) {
            Ok(j) => r matches Ok(v) && v@ == j && nests_within(j, depth_limit()),
            Err(why) => r matches Err(e) && e@ == why,
        },
{
    match serde_from_str(text) {
        Ok(v) => Ok(from_serde(v)),
        Err(why) => Err(why),
    }
}

/// What the debugging format of `serde_json::Value` shows of a value.
pub uninterp spec fn json_debug(j: Json) -> Seq<char>;

/// Formats with the `Debug` of `serde_json::Value`, which shows what a value says: the same of
/// values that say the same.
#[verifier::external_body]
fn serde_debug(v: &Value) -> (r: String)
    ensures
        r@ == json_debug(json_of(*v)),
{
    format!("{v:?}")
}

/// What the debugging format shows of `v`.
pub fn debug_text(v: JsonValue) -> (r: String)
    ensures
        r@ == json_debug(v@),
{
    let value = into_serde(v);
    serde_debug(&value)
}

/// The compact text of `v`. Reading it gives back what `v` says, but for fractions.
pub fn print(v: JsonValue) -> (r: String)
    ensures
        r@ == json_text(v@),
        nests_within(v@, depth_limit()) ==> reads_back(v@, json_parse_text(r@)),
{
    let value = into_serde(v);
    serde_to_string(&value).unwrap()
}

/// The bytes of the compact text of `v`. Reading them gives back what `v` says, but for fractions.
pub fn print_bytes(v: JsonValue) -> (r: Vec<u8>)
    ensures
        r@ == json_bytes(v@),
        nests_within(v@, depth_limit()) ==> reads_back(v@, json_parse(r@)),
{
    let value = into_serde(v);
    serde_to_vec(&value).unwrap()
}

/// What a value says: a scalar itself, an array its items in order, and an object, for every key that
/// one of its members has, the value of the last of them.
pub proof fn law_values_say_what_they_hold(
    b: bool,
    n: u64,
    m: i64,
    s: String,
    items: Vec<JsonValue>,
    members: Vec<(String, JsonValue)>,
    i: int,
    key: Seq<char>,
)
    ensures
        JsonValue::Null@ == Json::Null,
        JsonValue::Bool(b)@ == Json::Bool(b),
        JsonValue::PosInt(n)@ == Json::Number(Numeral::Int(n as int)),
        JsonValue::NegInt(m)@ == Json::Number(Numeral::Int(m as int)),
        JsonValue::String(s)@ == Json::String(s@),
        JsonValue::Array(items)@ matches Json::Array(said) && said.len() == items@.len() && (0 <= i
            < items@.len() ==> said[i] == items@[i]@),
        0 <= i < members@.len() && members@[i].0@ == key && (forall|j: int|
            i < j < members@.len() ==> (#[trigger] members@[j]).0@ != key) ==> JsonValue::Object(
            members,
        )@.member(key) == Some(members@[i].1@),
        (forall|j: int| 0 <= j < members@.len() ==> (#[trigger] members@[j]).0@ != key)
            ==> JsonValue::Object(members)@.member(key) is None,
{
    if 0 <= i < members@.len() && members@[i].0@ == key && (forall|j: int|
        i < j < members@.len() ==> (#[trigger] members@[j]).0@ != key) {
        lemma_member_at(members@, i);
    }
    if forall|j: int| 0 <= j < members@.len() ==> (#[trigger] members@[j]).0@ != key {
        lemma_member_absent(members@, key);
    }
}

/// What is set under a key of the object that a path leads to is found there, the rest of that object
/// and all that a path to elsewhere leads to stays, and where the path leads to no object nothing
/// changes.
pub proof fn law_setting_at_a_path(
    v: Json,
    path: Seq<Seq<char>>,
    key: Seq<char>,
    new: Json,
    other: Seq<char>,
)
    ensures
        v.at(path) matches Some(Json::Object(m)) ==> set_at_path(v, path, key, new).at(path) == Some(
            Json::Object(m.insert(key, new)),
        ),
        !(v.at(path) matches Some(Json::Object(_))) ==> set_at_path(v, path, key, new) == v,
        path.len() > 0 && other != path[0] ==> set_at_path(v, path, key, new).member(other)
            == v.member(other),
{
    match v.at(path) {
        Some(found) => {
            lemma_with_leads_back(v, path, found.set(key, new));
            if !(found is Object) {
                lemma_with_itself(v, path);
            }
        },
        None => {},
    }
}

/// What was put at the end of a path is found there.
proof fn lemma_with_leads_back(v: Json, path: Seq<Seq<char>>, new: Json)
    requires
        v.at(path) is Some,
    ensures
        v.with(path, new).at(path) == Some(new),
    decreases path.len(),
{
    if path.len() > 0 {
        lemma_with_leads_back(v.member(path[0])->0, path.drop_first(), new);
    }
}

/// Putting back what was found changes nothing.
proof fn lemma_with_itself(v: Json, path: Seq<Seq<char>>)
    requires
        v.at(path) is Some,
    ensures
        v.with(path, v.at(path)->0) == v,
    decreases path.len(),
{
    if path.len() > 0 {
        let child = v.member(path[0])->0;
        lemma_with_itself(child, path.drop_first());
        match v {
            Json::Object(m) => {
                assert(m.insert(path[0], m[path[0]]) =~= m);
            },
            _ => {},
        }
    }
}

/// The keys of a path, in order.
pub proof fn law_keys_of_a_path(path: Seq<&str>, i: int)
    ensures
        path_view(path).len() == path.len(),
        0 <= i < path.len() ==> path_view(path)[i] == path[i]@,
{
}

/// An opened value says what it holds.
proof fn lemma_opened_values(
    b: bool,
    n: u64,
    m: i64,
    s: String,
    items: Vec<Value>,
    members: Vec<(String, Value)>,
    i: int,
)
    ensures
        opened_view(Opened::Null) == Json::Null,
        opened_view(Opened::Bool(b)) == Json::Bool(b),
        opened_view(Opened::PosInt(n)) == Json::Number(Numeral::Int(n as int)),
        opened_view(Opened::NegInt(m)) == Json::Number(Numeral::Int(m as int)),
        opened_view(Opened::String(s)) == Json::String(s@),
        opened_view(Opened::Array(items)) matches Json::Array(said) && said.len() == items@.len() && (
        0 <= i < items@.len() ==> said[i] == json_of(items@[i])),
        keys_distinct(members@) && 0 <= i < members@.len() ==> opened_view(
            Opened::Object(members),
        ).member(members@[i].0@) == Some(json_of(members@[i].1)),
{
    if keys_distinct(members@) && 0 <= i < members@.len() {
        lemma_opened_member(members@, i);
    }
}

} // verus!
