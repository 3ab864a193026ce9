//! JSON values.

use vstd::prelude::*;

use crate::text::same;

verus! {

/// A JSON value.
#[derive(Debug, PartialEq, Eq)]
pub enum Json {
    Null,
    Bool(bool),
    /// A whole number that is not negative.
    Unsigned(u64),
    /// A negative whole number.
    Signed(i64),
    /// Any other number, as it is written.
    Float(String),
    Text(String),
    List(Vec<Json>),
    /// Members, in order of their names.
    Object(Vec<(String, Json)>),
}

/// Whether `i` is where the member with this name stands.
pub open spec fn member_at(members: Seq<(String, Json)>, name: Seq<char>, i: int) -> bool {
    &&& 0 <= i < members.len()
    &&& members[i].0@ == name
    &&& forall|j: int| 0 <= j < i ==> (#[trigger] members[j]).0@ != name
}

impl Json {
    /// The member of an object with this name; nothing for any other value.
    pub open spec fn member(self, name: Seq<char>) -> Option<Json> {
        match self {
            Json::Object(members) => if exists|i: int| member_at(members@, name, i) {
                Some(members@[choose|i: int| member_at(members@, name, i)].1)
            } else {
                None
            },
            _ => None,
        }
    }

    /// The member of an object with this name; nothing for any other value.
    pub fn get(&self, name: &str) -> (r: Option<&Json>)
        ensures
            r == (match self.member(name@) {
                Some(v) => Some(&v),
                None => None::<&Json>,
            }),
    {
        match self {
            Json::Object(members) => {
                let mut i: usize = 0;
                while i < members.len()
                    invariant
                        i <= members.len(),
                        forall|j: int| 0 <= j < i ==> (#[trigger] members@[j]).0@ != name@,
                        *self == Json::Object(*members),
                    decreases members.len() - i,
                {
                    if same(members[i].0.as_str(), name) {
                        proof {
                            assert(member_at(members@, name@, i as int));
                            let c = choose|i: int| member_at(members@, name@, i);
                            assert(member_at(members@, name@, c));
                            if c < i {
                                assert(members@[c].0@ != name@);
                            }
                            if i < c {
                                assert(members@[i as int].0@ != name@);
                            }
                            assert(self.member(name@) == Some(members@[i as int].1));
                        }
                        return Some(&members[i].1);
                    }
                    i += 1;
                }
                None
            },
            _ => None,
        }
    }
}

/// The mathematical content of a JSON value.
pub enum JsonModel {
    Null,
    Bool(bool),
    Unsigned(u64),
    Signed(i64),
    Float(Seq<char>),
    Text(Seq<char>),
    List(Seq<JsonModel>),
    Object(Seq<(Seq<char>, JsonModel)>),
}

/// Whether `i` is where the member with this name stands.
pub open spec fn named_at(members: Seq<(Seq<char>, JsonModel)>, name: Seq<char>, i: int) -> bool {
    &&& 0 <= i < members.len()
    &&& members[i].0 == name
    &&& forall|j: int| 0 <= j < i ==> (#[trigger] members[j]).0 != name
}

impl JsonModel {
    /// The member of an object with this name; nothing for any other value.
    pub open spec fn member(self, name: Seq<char>) -> Option<JsonModel> {
        match self {
            JsonModel::Object(members) => if exists|i: int| named_at(members, name, i) {
                Some(members[choose|i: int| named_at(members, name, i)].1)
            } else {
                None
            },
            _ => None,
        }
    }

    /// The text that a value is, if it is one.
    pub open spec fn as_text(self) -> Option<Seq<char>> {
        match self {
            JsonModel::Text(s) => Some(s),
            _ => None,
        }
    }
}

/// The mathematical content of a value.
pub open spec fn content(j: Json) -> JsonModel
    decreases j,
{
    match j {
        Json::Null => JsonModel::Null,
        Json::Bool(b) => JsonModel::Bool(b),
        Json::Unsigned(n) => JsonModel::Unsigned(n),
        Json::Signed(n) => JsonModel::Signed(n),
        Json::Float(s) => JsonModel::Float(s@),
        Json::Text(s) => JsonModel::Text(s@),
        Json::List(items) => JsonModel::List(
            Seq::new(
                items@.len(),
                |i: int|
                    if 0 <= i < items@.len() {
                        content(items@[i])
                    } else {
                        JsonModel::Null
                    },
            ),
        ),
        Json::Object(members) => JsonModel::Object(
            Seq::new(
                members@.len(),
                |i: int|
                    if 0 <= i < members@.len() {
                        (members@[i].0@, content(members@[i].1))
                    } else {
                        (Seq::empty(), JsonModel::Null)
                    },
            ),
        ),
    }
}

/// A value's own type, in the crate that parses it.
#[verifier::external_type_specification]
#[verifier::external_body]
pub struct ExValue(serde_json::Value);

/// What a parsed value holds.
pub uninterp spec fn value_content(v: serde_json::Value) -> JsonModel;

/// What `serde_json::from_str` makes of a text: a value, or its complaint.
pub uninterp spec fn parsed_json(text: Seq<char>) -> Result<JsonModel, Seq<char>>;

/// `serde_json::from_str`, into a value. What it makes of a text depends on the text alone,
/// and is named rather than described.
#[verifier::external_body]
fn parse_value(text: &str) -> (r: Result<serde_json::Value, String>)
    ensures
        match r {
            Ok(v) => parsed_json(text@) == Ok::<JsonModel, Seq<char>>(value_content(v)),
            Err(e) => parsed_json(text@) == Err::<JsonModel, Seq<char>>(e@),
        },
{
    serde_json::from_str(text).map_err(|e| e.to_string())
}

/// A value taken apart, one level deep.
enum Opened<'a> {
    Null,
    Bool(bool),
    Unsigned(u64),
    Signed(i64),
    Float(String),
    Text(&'a str),
    List(&'a Vec<serde_json::Value>),
    Object(Vec<(&'a String, &'a serde_json::Value)>),
}

impl Opened<'_> {
    spec fn content(self) -> JsonModel {
        match self {
            Opened::Null => JsonModel::Null,
            Opened::Bool(b) => JsonModel::Bool(b),
            Opened::Unsigned(n) => JsonModel::Unsigned(n),
            Opened::Signed(n) => JsonModel::Signed(n),
            Opened::Float(s) => JsonModel::Float(s@),
            Opened::Text(s) => JsonModel::Text(s@),
            Opened::List(items) => JsonModel::List(
                Seq::new(items@.len(), |i: int| value_content(items@[i])),
            ),
            Opened::Object(members) => JsonModel::Object(
                Seq::new(members@.len(), |i: int| (members@[i].0@, value_content(*members@[i].1))),
            ),
        }
    }
}

/// A `serde_json::Value` taken apart by its variants, a number by the three kinds of it that
/// `Number::as_u64` and `Number::as_i64` tell apart: what it holds is what its parts hold.
#[verifier::external_body]
fn open_value(v: &serde_json::Value) -> (r: Opened<'_>)
    ensures
        r.content() == value_content(*v),
{
    match v {
        serde_json::Value::Null => Opened::Null,
        serde_json::Value::Bool(b) => Opened::Bool(*b),
        serde_json::Value::Number(n) => match (n.as_u64(), n.as_i64()) {
            (Some(n), _) => Opened::Unsigned(n),
            (_, Some(n)) => Opened::Signed(n),
            _ => Opened::Float(n.to_string()),
        },
        serde_json::Value::String(s) => Opened::Text(s),
        serde_json::Value::Array(items) => Opened::List(items),
        serde_json::Value::Object(members) => Opened::Object(members.iter().collect()),
    }
}

fn tree(v: &serde_json::Value) -> (r: Json)
    ensures
        content(r) == value_content(*v),
    decreases value_content(*v),
{
    match open_value(v) {
        Opened::Null => Json::Null,
        Opened::Bool(b) => Json::Bool(b),
        Opened::Unsigned(n) => Json::Unsigned(n),
        Opened::Signed(n) => Json::Signed(n),
        Opened::Float(s) => Json::Float(s),
        Opened::Text(s) => Json::Text(s.to_owned()),
        Opened::List(items) => {
            let ghost all = value_content(*v)->List_0;
            let mut out: Vec<Json> = Vec::new();
            let mut i: usize = 0;
            while i < items.len()
                invariant
                    i <= items.len(),
                    value_content(*v) == JsonModel::List(all),
                    all == Seq::new(items@.len(), |i: int| value_content(items@[i])),
                    out@.len() == i,
                    forall|j: int| 0 <= j < i ==> content(#[trigger] out@[j]) == all[j],
                decreases items.len() - i,
            {
                assert(all[i as int] == value_content(items@[i as int]));
                assert(decreases_to!(value_content(*v) => value_content(*v)->List_0));
                assert(decreases_to!(all => all[i as int]));
                out.push(tree(&items[i]));
                i += 1;
            }
            let r = Json::List(out);
            assert(content(r)->List_0 =~= all);
            r
        },
        Opened::Object(members) => {
            let ghost all = value_content(*v)->Object_0;
            let mut out: Vec<(String, Json)> = Vec::new();
            let mut i: usize = 0;
            while i < members.len()
                invariant
                    i <= members.len(),
                    value_content(*v) == JsonModel::Object(all),
                    all == Seq::new(members@.len(), |i: int| (members@[i].0@, value_content(*members@[i].1))),
                    out@.len() == i,
                    forall|j: int|
                        0 <= j < i ==> (#[trigger] out@[j]).0@ == all[j].0 && content(out@[j].1) == all[j].1,
                decreases members.len() - i,
            {
                assert(all[i as int] == (members@[i as int].0@, value_content(*members@[i as int].1)));
                assert(decreases_to!(value_content(*v) => value_content(*v)->Object_0));
                assert(decreases_to!(all => all[i as int]));
                assert(decreases_to!(all[i as int] => all[i as int].1));
                let (name, value) = members[i];
                out.push((name.clone(), tree(value)));
                i += 1;
            }
            let r = Json::Object(out);
            assert(content(r)->Object_0 =~= all);
            r
        },
    }
}

/// Read a JSON text: the value it holds, or why it holds none.
pub fn read(text: &str) -> (r: Result<Json, String>)
    ensures
        match r {
            Ok(j) => parsed_json(text@) == Ok::<JsonModel, Seq<char>>(content(j)),
            Err(e) => parsed_json(text@) == Err::<JsonModel, Seq<char>>(e@),
        },
{
    match parse_value(text) {
        Ok(v) => Ok(tree(&v)),
        Err(e) => Err(e),
    }
}

/// Taking a member of a value and taking it of the value's content is the same.
pub proof fn lemma_member(j: Json, name: Seq<char>)
    ensures
        match j.member(name) {
            Some(v) => content(j).member(name) == Some(content(v)),
            None => content(j).member(name) is None,
        },
{
    if let Json::Object(members) = j {
        let all = content(j)->Object_0;
        assert(all.len() == members@.len());
        assert forall|i: int| #[trigger] member_at(members@, name, i) implies named_at(all, name, i) by {
            assert(all[i].0 == members@[i].0@);
            assert forall|k: int| 0 <= k < i implies (#[trigger] all[k]).0 != name by {
                assert(members@[k].0@ != name);
            }
        }
        assert forall|i: int| #[trigger] named_at(all, name, i) implies member_at(members@, name, i) by {
            assert(all[i].0 == members@[i].0@);
            assert forall|k: int| 0 <= k < i implies (#[trigger] members@[k]).0@ != name by {
                assert(all[k].0 != name);
            }
        }
        if exists|i: int| member_at(members@, name, i) {
            let a = choose|i: int| member_at(members@, name, i);
            assert(named_at(all, name, a));
            let b = choose|i: int| named_at(all, name, i);
            assert(a == b) by {
                if a < b {
                    assert(all[a].0 != name);
                }
                if b < a {
                    assert(all[b].0 != name);
                }
            }
            assert(all[a].1 == content(members@[a].1));
        } else {
            assert(!exists|i: int| named_at(all, name, i)) by {
                if exists|i: int| named_at(all, name, i) {
                    let b = choose|i: int| named_at(all, name, i);
                    assert(member_at(members@, name, b));
                }
            }
        }
    }
}

} // verus!
