//! JSON values.
//!
//! Request values are read and response bodies are built as [`Json`]; turning
//! them from and into bytes is the caller's business.

use vstd::prelude::*;

verus! {

/// A JSON value. An object keeps its members in order.
#[derive(Debug)]
pub enum Json {
    Null,
    Bool(bool),
    /// A number without a fractional part.
    Integer(i128),
    /// Any other number, as its text.
    Fraction(String),
    Text(String),
    Array(Vec<Json>),
    Object(Vec<Member>),
}

/// One member of an object.
#[derive(Debug)]
pub struct Member {
    pub name: String,
    pub value: Json,
}

/// The mathematical counterpart of [`Json`].
#[verifier::ext_equal]
pub ghost enum JsonView {
    Null,
    Bool(bool),
    Integer(int),
    Fraction(Seq<char>),
    Text(Seq<char>),
    Array(Seq<JsonView>),
    Object(Seq<MemberView>),
}

/// The mathematical counterpart of [`Member`].
#[verifier::ext_equal]
pub ghost struct MemberView {
    pub name: Seq<char>,
    pub value: JsonView,
}

/// A member called `name`.
pub open spec fn field(name: Seq<char>, value: JsonView) -> MemberView {
    MemberView { name, value }
}

impl View for Json {
    type V = JsonView;

    open spec fn view(&self) -> JsonView
        decreases self,
    {
        match self {
            Json::Null => JsonView::Null,
            Json::Bool(b) => JsonView::Bool(*b),
            Json::Integer(n) => JsonView::Integer(*n as int),
            Json::Fraction(s) => JsonView::Fraction(s@),
            Json::Text(s) => JsonView::Text(s@),
            Json::Array(items) => JsonView::Array(
                Seq::new(
                    items@.len(),
                    |i: int|
                        if 0 <= i < items@.len() {
                            items@[i].view()
                        } else {
                            JsonView::Null
                        },
                ),
            ),
            Json::Object(members) => JsonView::Object(
                Seq::new(
                    members@.len(),
                    |i: int|
                        if 0 <= i < members@.len() {
                            MemberView { name: members@[i].name@, value: members@[i].value.view() }
                        } else {
                            MemberView { name: Seq::empty(), value: JsonView::Null }
                        },
                ),
            ),
        }
    }
}

/// An object without members.
pub open spec fn fields() -> Seq<MemberView> {
    Seq::empty()
}

/// An array without items.
pub open spec fn items() -> Seq<JsonView> {
    Seq::empty()
}

/// The views of a sequence of values.
pub open spec fn views(items: Seq<Json>) -> Seq<JsonView> {
    items.map_values(|item: Json| item@)
}

/// The views of a sequence of object members.
pub open spec fn member_views(members: Seq<Member>) -> Seq<MemberView> {
    members.map_values(|member: Member| field(member.name@, member.value@))
}

impl JsonView {
    /// The value of the first member called `name`, where this is an object that has one.
    pub open spec fn get(self, name: Seq<char>) -> Option<JsonView> {
        match self {
            JsonView::Object(members) => first_named(members, name),
            _ => None,
        }
    }
}

/// The value of the first member called `name`.
pub open spec fn first_named(members: Seq<MemberView>, name: Seq<char>) -> Option<JsonView>
    decreases members.len(),
{
    if members.len() == 0 {
        None
    } else if members[0].name == name {
        Some(members[0].value)
    } else {
        first_named(members.drop_first(), name)
    }
}

pub proof fn lemma_object_view(value: Json)
    requires
        value is Object,
    ensures
        value@ == JsonView::Object(member_views(value->Object_0@)),
{
    let members = value->Object_0;
    let all = value@->Object_0;
    let expected = member_views(members@);
    assert(all.len() == expected.len());
    assert forall|i: int| 0 <= i < all.len() implies all[i] == expected[i] by {
        assert(all[i].name == members@[i].name@);
        assert(all[i].value == members@[i].value@);
    }
    assert(all =~= expected);
}

impl Json {
    /// A JSON string.
    pub fn text(s: &str) -> (r: Json)
        ensures
            r@ == JsonView::Text(s@),
    {
        Json::Text(s.to_owned())
    }

    /// A JSON string, or `null`.
    pub fn optional_text(s: &Option<String>) -> (r: Json)
        ensures
            r@ == optional_text_view(crate::text::optional(*s)),
    {
        match s {
            Some(text) => Json::text(text.as_str()),
            None => Json::Null,
        }
    }

    /// A JSON array.
    pub fn array(items: Vec<Json>) -> (r: Json)
        ensures
            r@ == JsonView::Array(views(items@)),
    {
        let r = Json::Array(items);
        assert(r@->Array_0 =~= views(items@));
        r
    }

    /// A JSON object.
    pub fn object(members: Vec<Member>) -> (r: Json)
        ensures
            r@ == JsonView::Object(member_views(members@)),
    {
        let r = Json::Object(members);
        proof {
            lemma_object_view(r);
        }
        r
    }

    /// The value of the first member called `name`, where this is an object that has one.
    pub fn get(&self, name: &str) -> (r: Option<&Json>)
        ensures
            match r {
                Some(value) => self@.get(name@) == Some(value@),
                None => self@.get(name@) is None,
            },
    {
        match self {
            Json::Object(members) => {
                let ghost all = self@->Object_0;
                proof {
                    lemma_object_view(*self);
                }
                let mut i: usize = 0;
                assert(all.skip(0) =~= all);
                while i < members.len()
                    invariant
                        i <= members.len(),
                        self@ == JsonView::Object(all),
                        all == member_views(members@),
                        first_named(all, name@) == first_named(all.skip(i as int), name@),
                    decreases members.len() - i,
                {
                    assert(all.skip(i as int)[0] == all[i as int]);
                    if crate::text::text_eq(members[i].name.as_str(), name) {
                        return Some(&members[i].value);
                    }
                    assert(all.skip(i as int).drop_first() =~= all.skip(i + 1));
                    i += 1;
                }
                None
            },
            _ => None,
        }
    }
}

/// A JSON string, or `null`.
pub open spec fn optional_text_view(s: Option<Seq<char>>) -> JsonView {
    match s {
        Some(text) => JsonView::Text(text),
        None => JsonView::Null,
    }
}

/// An array holding one text.
pub open spec fn one_text(s: Seq<char>) -> JsonView {
    JsonView::Array(items().push(JsonView::Text(s)))
}

/// An object under construction.
pub struct Fields {
    members: Vec<Member>,
}

impl View for Fields {
    type V = Seq<MemberView>;

    closed spec fn view(&self) -> Seq<MemberView> {
        member_views(self.members@)
    }
}

impl Fields {
    /// An object without members.
    pub fn new() -> (r: Fields)
        ensures
            r@ == fields(),
    {
        let r = Fields { members: Vec::new() };
        assert(r@ =~= fields());
        r
    }

    /// Adds a member behind those already there.
    pub fn with(self, name: &str, value: Json) -> (r: Fields)
        ensures
            r@ == self@.push(field(name@, value@)),
    {
        let mut members = self.members;
        members.push(Member { name: name.to_owned(), value });
        let r = Fields { members };
        assert(r@ =~= self@.push(field(name@, value@)));
        r
    }

    /// Adds a text member.
    pub fn with_text(self, name: &str, value: &str) -> (r: Fields)
        ensures
            r@ == self@.push(field(name@, JsonView::Text(value@))),
    {
        self.with(name, Json::text(value))
    }

    /// Adds a boolean member.
    pub fn with_bool(self, name: &str, value: bool) -> (r: Fields)
        ensures
            r@ == self@.push(field(name@, JsonView::Bool(value))),
    {
        self.with(name, Json::Bool(value))
    }

    /// Adds a number.
    pub fn with_integer(self, name: &str, value: i128) -> (r: Fields)
        ensures
            r@ == self@.push(field(name@, JsonView::Integer(value as int))),
    {
        self.with(name, Json::Integer(value))
    }

    /// Adds an array that holds one text.
    pub fn with_one_text(self, name: &str, value: &str) -> (r: Fields)
        ensures
            r@ == self@.push(field(name@, one_text(value@))),
    {
        self.with(name, Items::new().with(Json::text(value)).done())
    }

    /// The finished object.
    pub fn done(self) -> (r: Json)
        ensures
            r@ == JsonView::Object(self@),
    {
        Json::object(self.members)
    }
}

/// An array under construction.
pub struct Items {
    items: Vec<Json>,
}

impl View for Items {
    type V = Seq<JsonView>;

    closed spec fn view(&self) -> Seq<JsonView> {
        views(self.items@)
    }
}

impl Items {
    /// An empty array.
    pub fn new() -> (r: Items)
        ensures
            r@ == items(),
    {
        let r = Items { items: Vec::new() };
        assert(r@ =~= items());
        r
    }

    /// Adds a value behind those already there.
    pub fn with(self, value: Json) -> (r: Items)
        ensures
            r@ == self@.push(value@),
    {
        let mut items = self.items;
        items.push(value);
        let r = Items { items };
        assert(r@ =~= self@.push(value@));
        r
    }

    /// The finished array.
    pub fn done(self) -> (r: Json)
        ensures
            r@ == JsonView::Array(self@),
    {
        Json::array(self.items)
    }
}

} // verus!
