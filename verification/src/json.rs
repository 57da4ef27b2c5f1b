//! A JSON document, held as plain values.
//!
//! An object keeps its members in the order they were read. A lookup answers the first member
//! of that name, so an object whose names are distinct behaves as a map.

use vstd::prelude::*;

use crate::text::{decimal, heard, same};

verus! {

#[derive(Debug)]
pub enum Json {
    Null,
    Bool(bool),
    /// A whole number from zero up.
    Unsigned(u64),
    /// A whole number below zero.
    Negative(i64),
    /// Any other number, as it is written.
    Decimal(String),
    Text(String),
    List(Vec<Json>),
    Object(Vec<Member>),
}

#[derive(Debug)]
pub struct Member {
    pub name: String,
    pub value: Json,
}

/// What a document says.
pub enum JsonView {
    Null,
    Bool(bool),
    Unsigned(u64),
    Negative(i64),
    Decimal(Seq<char>),
    Text(Seq<char>),
    List(Seq<JsonView>),
    Object(Seq<(Seq<char>, JsonView)>),
}

impl Json {
    pub open spec fn view(&self) -> JsonView
        decreases self,
    {
        match *self {
            Json::Null => JsonView::Null,
            Json::Bool(b) => JsonView::Bool(b),
            Json::Unsigned(n) => JsonView::Unsigned(n),
            Json::Negative(n) => JsonView::Negative(n),
            Json::Decimal(s) => JsonView::Decimal(s@),
            Json::Text(s) => JsonView::Text(s@),
            Json::List(items) => JsonView::List(
                Seq::new(
                    items@.len(),
                    |i: int|
                        if 0 <= i < items@.len() {
                            items@[i].view()
                        } else {
                            JsonView::Null
                        },
                ),
            ),
            Json::Object(members) => JsonView::Object(
                Seq::new(
                    members@.len(),
                    |i: int|
                        if 0 <= i < members@.len() {
                            (members@[i].name@, members@[i].value.view())
                        } else {
                            (Seq::empty(), JsonView::Null)
                        },
                ),
            ),
        }
    }
}

/// The items of a list, as what they say.
pub open spec fn items_view(items: Seq<Json>) -> Seq<JsonView> {
    items.map_values(|j: Json| j@)
}

pub open spec fn members_view(members: Seq<Member>) -> Seq<(Seq<char>, JsonView)> {
    members.map_values(|m: Member| (m.name@, m.value@))
}

/// The position of the first member of a name, or the number of members without one.
pub open spec fn position(members: Seq<(Seq<char>, JsonView)>, name: Seq<char>) -> int
    decreases members.len(),
{
    if members.len() == 0 || members[0].0 == name {
        0
    } else {
        1 + position(members.skip(1), name)
    }
}

impl JsonView {
    /// The member of an object by its name. Anything that is not an object has none.
    pub open spec fn member(self, name: Seq<char>) -> Option<JsonView> {
        match self {
            JsonView::Object(members) => {
                let at = position(members, name);
                if at < members.len() {
                    Some(members[at].1)
                } else {
                    None
                }
            },
            _ => None,
        }
    }

    pub open spec fn text(self) -> Option<Seq<char>> {
        match self {
            JsonView::Text(s) => Some(s),
            _ => None,
        }
    }

    pub open spec fn truth(self) -> Option<bool> {
        match self {
            JsonView::Bool(b) => Some(b),
            _ => None,
        }
    }

    pub open spec fn list(self) -> Option<Seq<JsonView>> {
        match self {
            JsonView::List(items) => Some(items),
            _ => None,
        }
    }

    pub open spec fn unsigned(self) -> Option<u64> {
        match self {
            JsonView::Unsigned(n) => Some(n),
            _ => None,
        }
    }

    /// The text of a member, where there is one and it is text.
    pub open spec fn member_text(self, name: Seq<char>) -> Option<Seq<char>> {
        match self.member(name) {
            Some(v) => v.text(),
            None => None,
        }
    }

    pub open spec fn member_truth(self, name: Seq<char>) -> Option<bool> {
        match self.member(name) {
            Some(v) => v.truth(),
            None => None,
        }
    }

    pub open spec fn member_list(self, name: Seq<char>) -> Option<Seq<JsonView>> {
        match self.member(name) {
            Some(v) => v.list(),
            None => None,
        }
    }
}

pub proof fn lemma_list_view(items: Seq<Json>)
    ensures
        forall|v: Vec<Json>| v@ == items ==> #[trigger] Json::List(v)@ == JsonView::List(
            items_view(items),
        ),
{
    assert forall|v: Vec<Json>| v@ == items implies #[trigger] Json::List(v)@ == JsonView::List(
        items_view(items),
    ) by {
        assert(Json::List(v)@->List_0 =~= items_view(items));
    }
}

pub proof fn lemma_object_view(members: Seq<Member>)
    ensures
        forall|v: Vec<Member>| v@ == members ==> #[trigger] Json::Object(v)@ == JsonView::Object(
            members_view(members),
        ),
{
    assert forall|v: Vec<Member>| v@ == members implies #[trigger] Json::Object(v)@
        == JsonView::Object(members_view(members)) by {
        assert(Json::Object(v)@->Object_0 =~= members_view(members));
    }
}

proof fn lemma_position(members: Seq<(Seq<char>, JsonView)>, name: Seq<char>, at: int)
    requires
        0 <= at <= members.len(),
        forall|i: int| 0 <= i < at ==> members[i].0 != name,
        at < members.len() ==> members[at].0 == name,
    ensures
        position(members, name) == at,
    decreases members.len(),
{
    if at > 0 {
        assert(members[0].0 != name);
        assert forall|i: int| 0 <= i < at - 1 implies members.skip(1)[i].0 != name by {
            assert(members.skip(1)[i] == members[i + 1]);
        }
        lemma_position(members.skip(1), name, at - 1);
    }
}

/// The first member of a name is the one that is found.
pub proof fn lemma_member_at(members: Seq<(Seq<char>, JsonView)>, name: Seq<char>, at: int)
    requires
        0 <= at < members.len(),
        forall|i: int| 0 <= i < at ==> (#[trigger] members[i]).0 != name,
        members[at].0 == name,
    ensures
        JsonView::Object(members).member(name) == Some(members[at].1),
{
    lemma_position(members, name, at);
}

/// A name that no member has finds nothing.
pub proof fn lemma_no_member(members: Seq<(Seq<char>, JsonView)>, name: Seq<char>)
    requires
        forall|i: int| 0 <= i < members.len() ==> (#[trigger] members[i]).0 != name,
    ensures
        JsonView::Object(members).member(name) is None,
{
    lemma_position(members, name, members.len() as int);
}

proof fn lemma_position_names(members: Seq<(Seq<char>, JsonView)>, name: Seq<char>)
    ensures
        0 <= position(members, name) <= members.len(),
        forall|i: int| 0 <= i < position(members, name) ==> (#[trigger] members[i]).0 != name,
        position(members, name) < members.len() ==> members[position(members, name)].0 == name,
    decreases members.len(),
{
    if members.len() > 0 && members[0].0 != name {
        let rest = members.skip(1);
        lemma_position_names(rest, name);
        assert forall|i: int| 0 <= i < position(members, name) implies (
        #[trigger] members[i]).0 != name by {
            if i > 0 {
                assert(rest[i - 1] == members[i]);
            }
        }
    }
}

/// Among the members of two objects put behind each other, those of the first are found first.
pub proof fn lemma_members_joined(
    first: Seq<(Seq<char>, JsonView)>,
    second: Seq<(Seq<char>, JsonView)>,
    name: Seq<char>,
)
    ensures
        JsonView::Object(first + second).member(name) == match JsonView::Object(first).member(name) {
            Some(value) => Some(value),
            None => JsonView::Object(second).member(name),
        },
{
    lemma_position_names(first, name);
    lemma_position_names(second, name);
    let (a, b) = (position(first, name), position(second, name));
    let both = first + second;
    if a < first.len() {
        assert forall|i: int| 0 <= i < a implies (#[trigger] both[i]).0 != name by {
            assert(both[i] == first[i]);
        }
        lemma_position(both, name, a);
    } else {
        assert forall|i: int| 0 <= i < first.len() + b implies (#[trigger] both[i]).0 != name by {
            if i < first.len() {
                assert(both[i] == first[i]);
            } else {
                assert(both[i] == second[i - first.len()]);
            }
        }
        lemma_position(both, name, first.len() + b);
    }
}

/// What an optional document says.
pub open spec fn seen(value: Option<&Json>) -> Option<JsonView> {
    match value {
        Some(value) => Some(value@),
        None => None,
    }
}

impl Json {
    pub fn get(&self, name: &str) -> (r: Option<&Json>)
        ensures
            seen(r) == self@.member(name@),
    {
        match self {
            Json::Object(members) => {
                let ghost seen = members_view(members@);
                proof {
                    lemma_object_view(members@);
                }
                let mut i: usize = 0;
                while i < members.len()
                    invariant
                        i <= members@.len(),
                        seen == members_view(members@),
                        self@ == JsonView::Object(seen),
                        forall|k: int| 0 <= k < i ==> seen[k].0 != name@,
                    decreases members@.len() - i,
                {
                    if same(members[i].name.as_str(), name) {
                        proof {
                            lemma_position(seen, name@, i as int);
                        }
                        return Some(&members[i].value);
                    }
                    i += 1;
                }
                proof {
                    lemma_position(seen, name@, i as int);
                }
                None
            },
            _ => None,
        }
    }

    pub fn as_str(&self) -> (r: Option<&str>)
        ensures
            heard(r) == self@.text(),
    {
        match self {
            Json::Text(s) => Some(s.as_str()),
            _ => None,
        }
    }

    pub fn as_bool(&self) -> (r: Option<bool>)
        ensures
            r == self@.truth(),
    {
        match self {
            Json::Bool(b) => Some(*b),
            _ => None,
        }
    }

    pub fn as_u64(&self) -> (r: Option<u64>)
        ensures
            r == self@.unsigned(),
    {
        match self {
            Json::Unsigned(n) => Some(*n),
            _ => None,
        }
    }

    pub fn as_array(&self) -> (r: Option<&Vec<Json>>)
        ensures
            match r {
                Some(items) => self@.list() == Some(items_view(items@)),
                None => self@.list() is None,
            },
    {
        match self {
            Json::List(items) => {
                proof {
                    lemma_list_view(items@);
                }
                Some(items)
            },
            _ => None,
        }
    }

    pub fn get_str(&self, name: &str) -> (r: Option<&str>)
        ensures
            heard(r) == self@.member_text(name@),
    {
        match self.get(name) {
            Some(v) => v.as_str(),
            None => None,
        }
    }

    pub fn get_bool(&self, name: &str) -> (r: Option<bool>)
        ensures
            r == self@.member_truth(name@),
    {
        match self.get(name) {
            Some(v) => v.as_bool(),
            None => None,
        }
    }

    pub fn get_array(&self, name: &str) -> (r: Option<&Vec<Json>>)
        ensures
            match r {
                Some(items) => self@.member_list(name@) == Some(items_view(items@)),
                None => self@.member_list(name@) is None,
            },
    {
        match self.get(name) {
            Some(v) => v.as_array(),
            None => None,
        }
    }
}

// ----- writing ----------------------------------------------------------------------

/// A document as `serde_json` holds it.
#[verifier::external_type_specification]
#[verifier::external_body]
pub struct ExDocument(serde_json::Value);

/// How `serde_json` writes a document without white space between its parts.
pub uninterp spec fn compact_text(value: JsonView) -> Seq<char>;

/// Printable ASCII text that JSON writes without an escape.
pub open spec fn needs_no_escape(s: Seq<char>) -> bool {
    forall|i: int|
        0 <= i < s.len() ==> ' ' <= (#[trigger] s[i]) <= '~' && s[i] != '"' && s[i] != '\\'
}

/// The same document as a `serde_json::Value`, part for part. A decimal goes through the parser of
/// `serde_json::Number`, and one that it refuses is left out as null. An object becomes a
/// `serde_json::Map`. Nothing is claimed of the result.
#[verifier::external_body]
fn document(json: &Json) -> (r: serde_json::Value) {
    match json {
        Json::Null => serde_json::Value::Null,
        Json::Bool(b) => serde_json::Value::Bool(*b),
        Json::Unsigned(n) => serde_json::Value::from(*n),
        Json::Negative(n) => serde_json::Value::from(*n),
        Json::Decimal(s) => s.parse().map_or(serde_json::Value::Null, serde_json::Value::Number),
        Json::Text(s) => serde_json::Value::from(s.as_str()),
        Json::List(items) => serde_json::Value::Array(items.iter().map(document).collect()),
        Json::Object(members) => serde_json::Value::Object(
            members.iter().map(|m| (m.name.clone(), document(&m.value))).collect(),
        ),
    }
}

/// Calls the `Display` impl of `serde_json::Value`. What it writes depends on the document alone
/// and is named by `compact_text`; beside the name the literals, whole numbers and text without an
/// escape are stated. How an object orders its members, and how a decimal and an escape are
/// written, is left to the name.
#[verifier::external_body]
fn written(json: &Json) -> (r: String)
    ensures
        r@ == compact_text(json@),
        json@ is Null ==> r@ == "null"@,
        json@ == JsonView::Bool(true) ==> r@ == "true"@,
        json@ == JsonView::Bool(false) ==> r@ == "false"@,
        json@ matches JsonView::Unsigned(n) ==> r@ == decimal(n as nat),
        json@ matches JsonView::Negative(n) ==> n < 0 ==> r@ == "-"@ + decimal((-n) as nat),
        json@ matches JsonView::Text(s) ==> needs_no_escape(s) ==> r@ == seq!['"'] + s + seq!['"'],
{
    document(json).to_string()
}

impl JsonView {
    /// The document on one line: no white space between its parts.
    pub open spec fn compact(self) -> Seq<char> {
        match self {
            JsonView::Null => "null"@,
            JsonView::Bool(b) => if b {
                "true"@
            } else {
                "false"@
            },
            JsonView::Unsigned(n) => decimal(n as nat),
            JsonView::Negative(n) => if n < 0 {
                "-"@ + decimal((-n) as nat)
            } else {
                compact_text(self)
            },
            JsonView::Text(s) => if needs_no_escape(s) {
                seq!['"'] + s + seq!['"']
            } else {
                compact_text(self)
            },
            _ => compact_text(self),
        }
    }
}

impl Json {
    pub fn write(&self) -> (r: String)
        ensures
            r@ == self@.compact(),
    {
        written(self)
    }
}

impl JsonView {
    /// The document in a line of prose: text is itself, and anything else keeps its JSON shape.
    pub open spec fn brief(self) -> Seq<char> {
        match self {
            JsonView::Text(s) => s,
            _ => self.compact(),
        }
    }
}

impl Json {
    pub fn in_brief(&self) -> (r: String)
        ensures
            r@ == self@.brief(),
    {
        match self {
            Json::Text(s) => s.clone(),
            _ => self.write(),
        }
    }
}

} // verus!
