//! Accounts and organizations, as far as provisioning reads them.

use vstd::prelude::*;
use vstd::string::*;

use crate::text::{lowered, optional, to_lowercase};

verus! {

/// An account.
#[derive(Debug)]
pub struct User {
    pub uuid: String,
    pub email: String,
    pub name: String,
    /// Empty as long as the person has not registered.
    pub password_hash: Vec<u8>,
}

/// The mathematical counterpart of [`User`].
#[verifier::ext_equal]
pub ghost struct UserView {
    pub uuid: Seq<char>,
    pub email: Seq<char>,
    pub name: Seq<char>,
    pub password_hash: Seq<u8>,
}

impl View for User {
    type V = UserView;

    open spec fn view(&self) -> UserView {
        UserView {
            uuid: self.uuid@,
            email: self.email@,
            name: self.name@,
            password_hash: self.password_hash@,
        }
    }
}

impl UserView {
    /// Whether the person has credentials to log in with.
    pub open spec fn registered(self) -> bool {
        self.password_hash.len() > 0
    }
}

fn copy_bytes(bytes: &Vec<u8>) -> (r: Vec<u8>)
    ensures
        r@ == bytes@,
{
    let mut r: Vec<u8> = Vec::new();
    let mut i: usize = 0;
    while i < bytes.len()
        invariant
            i <= bytes.len(),
            r@ == bytes@.take(i as int),
        decreases bytes.len() - i,
    {
        r.push(bytes[i]);
        assert(bytes@.take(i + 1) =~= bytes@.take(i as int).push(bytes@[i as int]));
        i += 1;
    }
    assert(bytes@.take(i as int) =~= bytes@);
    r
}

/// A new account: the address in lower case, no credentials, and the address for a
/// name where there is none.
pub open spec fn shell_account(uuid: Seq<char>, email: Seq<char>, name: Option<Seq<char>>) -> UserView {
    UserView {
        uuid,
        email,
        name: match name {
            Some(name) => name,
            None => email,
        },
        password_hash: Seq::empty(),
    }
}

impl User {
    /// A new account, with `email` as its address.
    pub fn with_address(uuid: String, email: String, name: Option<String>) -> (r: Self)
        ensures
            r@ == shell_account(uuid@, email@, optional(name)),
    {
        let name = match name {
            Some(name) => name,
            None => email.clone(),
        };
        User { uuid, email, name, password_hash: Vec::new() }
    }

    /// A new account. Addresses are stored in lower case.
    pub fn new(uuid: String, email: &str, name: Option<String>) -> (r: Self)
        ensures
            r@ == shell_account(uuid@, lowered(email@), optional(name)),
    {
        Self::with_address(uuid, to_lowercase(email), name)
    }

    /// The same account once more.
    pub fn copy(&self) -> (r: Self)
        ensures
            r@ == self@,
    {
        User {
            uuid: self.uuid.clone(),
            email: self.email.clone(),
            name: self.name.clone(),
            password_hash: copy_bytes(&self.password_hash),
        }
    }

    /// Whether the person has credentials to log in with.
    pub fn is_registered(&self) -> (r: bool)
        ensures
            r == self@.registered(),
    {
        self.password_hash.len() > 0
    }
}

/// An organization.
#[derive(Debug)]
pub struct Organization {
    pub uuid: String,
    pub name: String,
    pub billing_email: String,
}

/// The mathematical counterpart of [`Organization`].
#[verifier::ext_equal]
pub ghost struct OrganizationView {
    pub uuid: Seq<char>,
    pub name: Seq<char>,
    pub billing_email: Seq<char>,
}

impl View for Organization {
    type V = OrganizationView;

    open spec fn view(&self) -> OrganizationView {
        OrganizationView {
            uuid: self.uuid@,
            name: self.name@,
            billing_email: self.billing_email@,
        }
    }
}

impl Organization {
    /// The same organization once more.
    pub fn copy(&self) -> (r: Self)
        ensures
            r@ == self@,
    {
        Organization {
            uuid: self.uuid.clone(),
            name: self.name.clone(),
            billing_email: self.billing_email.clone(),
        }
    }
}

/// What the event log records.
#[derive(Clone, Copy, Debug, PartialEq, Eq, Structural)]
pub enum EventType {
    OrganizationUserInvited,
    OrganizationUserUpdated,
    OrganizationUserRevoked,
    OrganizationUserRestored,
    OrganizationUpdated,
    GroupCreated,
    GroupUpdated,
    GroupDeleted,
}

} // verus!
