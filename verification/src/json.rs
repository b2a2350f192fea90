//! JSON as this library sees it: a tree of plain values, read from bytes by
//! `serde_json`, in which fields are found by name whatever their case.

use vstd::prelude::*;

verus! {

/// A JSON value. A number is held as the bytes of its decimal text, and the
/// name of an object's member as its UTF-8 bytes.
#[derive(Debug)]
pub enum JsonValue {
    Null,
    Bool(bool),
    Number(Vec<u8>),
    Text(String),
    Array(Vec<JsonValue>),
    Object(Vec<Member>),
}

/// A member of a JSON object: its name, as UTF-8 bytes, and its value.
#[derive(Debug)]
pub struct Member {
    pub name: Vec<u8>,
    pub value: JsonValue,
}

/// The model of a [`JsonValue`].
pub enum JsonView {
    Null,
    Bool(bool),
    Number(Seq<u8>),
    Text(Seq<char>),
    Array(Seq<JsonView>),
    Object(Seq<MemberView>),
}

/// The model of a [`Member`].
pub struct MemberView {
    pub name: Seq<u8>,
    pub value: JsonView,
}

impl View for JsonValue {
    type V = JsonView;

    open spec fn view(&self) -> JsonView
        decreases self,
    {
        match self {
            JsonValue::Null => JsonView::Null,
            JsonValue::Bool(b) => JsonView::Bool(*b),
            JsonValue::Number(n) => JsonView::Number(n@),
            JsonValue::Text(t) => JsonView::Text(t@),
            JsonValue::Array(items) => JsonView::Array(
                Seq::new(
                    items@.len(),
                    |i: int|
                        if 0 <= i < items@.len() {
                            items@[i].view()
                        } else {
                            JsonView::Null
                        },
                ),
            ),
            JsonValue::Object(members) => JsonView::Object(
                Seq::new(
                    members@.len(),
                    |i: int|
                        if 0 <= i < members@.len() {
                            MemberView {
                                name: members@[i].name@,
                                value: members@[i].value.view(),
                            }
                        } else {
                            MemberView { name: Seq::empty(), value: JsonView::Null }
                        },
                ),
            ),
        }
    }
}

/// The models of the items of an array.
pub open spec fn item_views(items: Seq<JsonValue>) -> Seq<JsonView> {
    Seq::new(items.len(), |i: int| items[i]@)
}

/// The models of the members of an object.
pub open spec fn member_views(members: Seq<Member>) -> Seq<MemberView> {
    Seq::new(
        members.len(),
        |i: int| MemberView { name: members[i].name@, value: members[i].value@ },
    )
}

/// The model of an array is made of the models of its items, and that of an
/// object of the models of its members.
pub proof fn lemma_view_unfolds(v: JsonValue)
    ensures
        v matches JsonValue::Array(items) ==> v@ == JsonView::Array(item_views(items@)),
        v matches JsonValue::Object(members) ==> v@ == JsonView::Object(member_views(members@)),
{
    match v {
        JsonValue::Array(items) => {
            assert(v@->Array_0 =~= item_views(items@));
        },
        JsonValue::Object(members) => {
            let seen = v@->Object_0;
            assert(seen =~= member_views(members@));
        },
        _ => {},
    }
}

/// The model of an optional value.
pub open spec fn opt_json(o: Option<JsonValue>) -> Option<JsonView> {
    match o {
        Some(v) => Some(v@),
        None => None,
    }
}

/// The tree that `serde_json` reads from `bytes`; nothing where it rejects
/// them.
pub uninterp spec fn json_of(bytes: Seq<u8>) -> Option<JsonView>;

/// The JSON string literal that `serde_json` writes for `text`: the text in
/// double quotes, with the characters escaped that JSON asks to escape.
pub uninterp spec fn quoted(text: Seq<char>) -> Seq<char>;

/// `serde_json::Value`, the tree that `serde_json` reads. It is opaque here:
/// it is only handed from `serde_json::from_slice` to the copy below.
#[verifier::external_type_specification]
#[verifier::external_body]
pub struct ExJsonTree(serde_json::Value);

/// Copies a tree of `serde_json::Value` into a [`JsonValue`], node for node:
/// a number as the text that `serde_json::Number` prints for itself, a
/// member's name as its bytes. It is the second half of `parse_json`, which
/// alone calls it; nothing is claimed of its result.
#[verifier::external_body]
fn lift(value: serde_json::Value) -> JsonValue {
    match value {
        serde_json::Value::Null => JsonValue::Null,
        serde_json::Value::Bool(b) => JsonValue::Bool(b),
        serde_json::Value::Number(n) => JsonValue::Number(n.to_string().into_bytes()),
        serde_json::Value::String(s) => JsonValue::Text(s),
        serde_json::Value::Array(a) => JsonValue::Array(a.into_iter().map(lift).collect()),
        serde_json::Value::Object(m) => JsonValue::Object(
            m.into_iter().map(|(k, v)| Member { name: k.into_bytes(), value: lift(v) }).collect(),
        ),
    }
}

/// Reads `bytes` with `serde_json::from_slice`. The contract claims only that
/// the tree is a function of the bytes; it is not proved.
#[verifier::external_body]
pub(crate) fn parse_json(bytes: &[u8]) -> (r: Option<JsonValue>)
    ensures
        opt_json(r) == json_of(bytes@),
{
    serde_json::from_slice::<serde_json::Value>(bytes).ok().map(lift)
}

/// Writes `text` as a JSON string literal with `serde_json::to_string`. The
/// contract claims only that the literal is a function of the text; it is not
/// proved.
#[verifier::external_body]
pub(crate) fn quote(text: &str) -> (r: String)
    ensures
        r@ == quoted(text@),
{
    serde_json::to_string(text).unwrap_or_default()
}

/// A byte with an ASCII capital letter turned into the small one.
pub open spec fn folded(b: u8) -> u8 {
    if 0x41 <= b <= 0x5a {
        (b + 0x20) as u8
    } else {
        b
    }
}

/// Whether two names are the same but for the case of their ASCII letters.
pub open spec fn same_name(a: Seq<u8>, b: Seq<u8>) -> bool {
    &&& a.len() == b.len()
    &&& forall|i: int| 0 <= i < a.len() ==> folded(#[trigger] a[i]) == folded(b[i])
}

/// Whether `key` names the field that goes by `alias` or by `plain`.
pub open spec fn names(key: Seq<u8>, alias: Seq<u8>, plain: Seq<u8>) -> bool {
    same_name(key, alias) || same_name(key, plain)
}

/// Whether member `i` of an object names the field.
pub open spec fn hit(members: Seq<MemberView>, i: int, alias: Seq<u8>, plain: Seq<u8>) -> bool {
    0 <= i < members.len() && names(members[i].name, alias, plain)
}

/// What an object holds for a field.
pub enum Found {
    /// No member names the field.
    Missing,
    /// One member names the field, with this value.
    One(JsonView),
    /// Two members or more name the field.
    Many,
}

/// What the object with these members holds for the field that goes by
/// `alias` or by `plain`.
pub open spec fn lookup(members: Seq<MemberView>, alias: Seq<u8>, plain: Seq<u8>) -> Found {
    if !exists|i: int| hit(members, i, alias, plain) {
        Found::Missing
    } else if exists|i: int, j: int|
        i != j && hit(members, i, alias, plain) && hit(members, j, alias, plain) {
        Found::Many
    } else {
        Found::One(members[choose|i: int| hit(members, i, alias, plain)].value)
    }
}

/// Where an object holds a field.
#[derive(Clone, Copy, Debug, PartialEq, Eq, Structural)]
pub enum Place {
    Missing,
    At(usize),
    Many,
}

/// A byte with an ASCII capital letter turned into the small one.
fn fold(b: u8) -> (r: u8)
    ensures
        r == folded(b),
{
    if 0x41 <= b && b <= 0x5a {
        b + 0x20
    } else {
        b
    }
}

/// Whether two names are the same but for the case of their ASCII letters.
pub fn names_match(a: &[u8], b: &[u8]) -> (r: bool)
    ensures
        r == same_name(a@, b@),
{
    if a.len() != b.len() {
        return false;
    }
    let mut i: usize = 0;
    while i < a.len()
        invariant
            a.len() == b.len(),
            0 <= i <= a.len(),
            forall|k: int| 0 <= k < i ==> folded(#[trigger] a@[k]) == folded(b@[k]),
        decreases a.len() - i,
    {
        if fold(a[i]) != fold(b[i]) {
            return false;
        }
        i = i + 1;
    }
    true
}

/// Finds the member of an object that names the field which goes by `alias`
/// or by `plain`.
pub fn find(members: &Vec<Member>, alias: &[u8], plain: &[u8]) -> (r: Place)
    ensures
        match r {
            Place::Missing => lookup(member_views(members@), alias@, plain@) is Missing,
            Place::At(i) => i < members.len() && lookup(member_views(members@), alias@, plain@)
                == Found::One(members[i as int].value@),
            Place::Many => lookup(member_views(members@), alias@, plain@) is Many,
        },
{
    let ghost views = member_views(members@);
    let mut place: Option<usize> = None;
    let mut i: usize = 0;
    while i < members.len()
        invariant
            0 <= i <= members.len(),
            views == member_views(members@),
            match place {
                Some(p) => p < i && hit(views, p as int, alias@, plain@) && forall|k: int|
                    0 <= k < i && k != p ==> !hit(views, k, alias@, plain@),
                None => forall|k: int| 0 <= k < i ==> !hit(views, k, alias@, plain@),
            },
        decreases members.len() - i,
    {
        let key = members[i].name.as_slice();
        if names_match(key, alias) || names_match(key, plain) {
            assert(hit(views, i as int, alias@, plain@));
            match place {
                Some(p) => {
                    assert(hit(views, p as int, alias@, plain@));
                    return Place::Many;
                },
                None => {
                    place = Some(i);
                },
            }
        }
        i = i + 1;
    }
    match place {
        Some(p) => {
            proof {
                let c = choose|k: int| hit(views, k, alias@, plain@);
                assert(hit(views, p as int, alias@, plain@));
                assert(c == p);
            }
            Place::At(p)
        },
        None => Place::Missing,
    }
}

} // verus!
