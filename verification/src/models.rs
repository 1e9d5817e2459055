//! Request models.

use vstd::prelude::*;
use vstd::string::*;

use crate::json::{Json, JsonView};
use crate::text::{eq_ignore_ascii_case, join3, optional, same_ignoring_case, to_chars};

verus! {

/// A boolean as identity providers send it: a JSON boolean, or its name as a text.
#[derive(Clone, Copy, Debug, PartialEq, Eq, Structural)]
pub struct ScimBool(pub bool);

/// The boolean that a JSON value stands for.
pub open spec fn scim_bool(value: JsonView) -> Option<bool> {
    match value {
        JsonView::Bool(b) => Some(b),
        JsonView::Text(t) => if same_ignoring_case(t, "true"@) {
            Some(true)
        } else if same_ignoring_case(t, "false"@) {
            Some(false)
        } else {
            None
        },
        _ => None,
    }
}

impl ScimBool {
    /// Reads a boolean.
    pub fn from_json(value: &Json) -> (r: Option<ScimBool>)
        ensures
            match r {
                Some(b) => scim_bool(value@) == Some(b.0),
                None => scim_bool(value@) is None,
            },
    {
        match value {
            Json::Bool(b) => Some(ScimBool(*b)),
            Json::Text(t) => if eq_ignore_ascii_case(t.as_str(), "true") {
                Some(ScimBool(true))
            } else if eq_ignore_ascii_case(t.as_str(), "false") {
                Some(ScimBool(false))
            } else {
                None
            },
            _ => None,
        }
    }
}

/// One of the addresses of a User request.
#[derive(Debug)]
pub struct ScimEmail {
    pub value: String,
    pub primary: bool,
}

/// The name of a User request.
#[derive(Debug)]
pub struct ScimName {
    pub formatted: Option<String>,
    pub given_name: Option<String>,
    pub family_name: Option<String>,
}

/// The body of a User POST or PUT.
#[derive(Debug)]
pub struct ScimUserRequest {
    pub user_name: Option<String>,
    pub display_name: Option<String>,
    pub name: Option<ScimName>,
    pub emails: Vec<ScimEmail>,
    pub external_id: Option<String>,
    pub active: Option<ScimBool>,
}

/// The value of the first primary address.
pub open spec fn primary_email(emails: Seq<ScimEmail>) -> Option<Seq<char>>
    decreases emails.len(),
{
    if emails.len() == 0 {
        None
    } else if emails[0].primary {
        Some(emails[0].value@)
    } else {
        primary_email(emails.drop_first())
    }
}

/// The address of a User request: the userName where it is an address, and the
/// primary address otherwise.
pub open spec fn request_email(request: ScimUserRequest) -> Option<Seq<char>> {
    match request.user_name {
        Some(user_name) => if user_name@.contains('@') {
            Some(user_name@)
        } else {
            primary_email(request.emails@)
        },
        None => primary_email(request.emails@),
    }
}

/// A text that is present and not empty.
pub open spec fn given(s: Option<String>) -> Option<Seq<char>> {
    match s {
        Some(text) => if text@.len() > 0 {
            Some(text@)
        } else {
            None
        },
        None => None,
    }
}

/// The full name that a name stands for.
pub open spec fn full_name(name: ScimName) -> Option<Seq<char>> {
    match given(name.formatted) {
        Some(formatted) => Some(formatted),
        None => match (given(name.given_name), given(name.family_name)) {
            (Some(first), Some(last)) => Some(first + " "@ + last),
            (Some(first), None) => Some(first),
            (None, Some(last)) => Some(last),
            (None, None) => None,
        },
    }
}

/// The display name of a User request: displayName, or composed of the name.
pub open spec fn request_display_name(request: ScimUserRequest) -> Option<Seq<char>> {
    match given(request.display_name) {
        Some(name) => Some(name),
        None => match request.name {
            Some(name) => full_name(name),
            None => None,
        },
    }
}

fn given_text(s: &Option<String>) -> (r: Option<String>)
    ensures
        optional(r) == given(*s),
{
    match s {
        Some(text) => if text.as_str().is_empty() {
            None
        } else {
            Some(text.clone())
        },
        None => None,
    }
}

fn contains_at(s: &str) -> (r: bool)
    ensures
        r == s@.contains('@'),
{
    let chars = to_chars(s);
    let mut i: usize = 0;
    while i < chars.len()
        invariant
            i <= chars.len(),
            chars@ == s@,
            forall|j: int| 0 <= j < i ==> s@[j] != '@',
        decreases chars.len() - i,
    {
        if chars[i] == '@' {
            assert(s@[i as int] == '@');
            return true;
        }
        i += 1;
    }
    false
}

impl ScimUserRequest {
    /// The address of the person, where the request has one.
    pub fn email(&self) -> (r: Option<String>)
        ensures
            optional(r) == request_email(*self),
    {
        if let Some(user_name) = &self.user_name {
            if contains_at(user_name.as_str()) {
                return Some(user_name.clone());
            }
        }
        let ghost all = self.emails@;
        let mut i: usize = 0;
        assert(all.skip(0) =~= all);
        while i < self.emails.len()
            invariant
                i <= self.emails.len(),
                all == self.emails@,
                primary_email(all) == primary_email(all.skip(i as int)),
                request_email(*self) == primary_email(all),
            decreases self.emails.len() - i,
        {
            assert(all.skip(i as int)[0] == all[i as int]);
            if self.emails[i].primary {
                return Some(self.emails[i].value.clone());
            }
            assert(all.skip(i as int).drop_first() =~= all.skip(i + 1));
            i += 1;
        }
        None
    }

    /// The display name of the person, where the request has one.
    pub fn display_name(&self) -> (r: Option<String>)
        ensures
            optional(r) == request_display_name(*self),
    {
        if let Some(name) = given_text(&self.display_name) {
            return Some(name);
        }
        let Some(name) = &self.name else {
            return None;
        };
        if let Some(formatted) = given_text(&name.formatted) {
            return Some(formatted);
        }
        match (given_text(&name.given_name), given_text(&name.family_name)) {
            (Some(first), Some(last)) => Some(join3(first.as_str(), " ", last.as_str())),
            (Some(first), None) => Some(first),
            (None, Some(last)) => Some(last),
            (None, None) => None,
        }
    }
}

} // verus!
