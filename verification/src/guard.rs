//! Authentication of SCIM requests, by the bearer token of the organization.
//!
//! A token reads `scim_v1.<organization>.<secret>`. Whatever is wrong with a request, its
//! answer is the same.

use vstd::prelude::*;
use vstd::string::*;

use crate::crypto::{hashable, secret_hash, sha256_hex};
use crate::error::{ScimError, ScimErrorView};
use crate::scim_api_key::{new_key, ScimApiKey, ScimApiKeyView, Timestamp};
use crate::text::{starts_with, text_eq, to_chars};

verus! {

/// A token for an organization.
pub open spec fn token_text(org: Seq<char>, secret: Seq<char>) -> Seq<char> {
    "scim_v1."@ + org + "."@ + secret
}

/// How many characters stand before the first full stop.
pub open spec fn stop_at(s: Seq<char>) -> nat
    decreases s.len(),
{
    if s.len() == 0 || s[0] == '.' {
        0
    } else {
        1 + stop_at(s.drop_first())
    }
}

/// The organization and the secret of a token in an Authorization header.
pub open spec fn credentials(header: Seq<char>) -> Option<(Seq<char>, Seq<char>)> {
    let prefix = "Bearer scim_v1."@;
    if !prefix.is_prefix_of(header) {
        None
    } else {
        let rest = header.skip(prefix.len() as int);
        let n = stop_at(rest) as int;
        if n < rest.len() {
            Some((rest.take(n), rest.skip(n + 1)))
        } else {
            None
        }
    }
}

proof fn lemma_stop_at_is(s: Seq<char>, n: int)
    requires
        0 <= n <= s.len(),
        forall|j: int| 0 <= j < n ==> s[j] != '.',
        n < s.len() ==> s[n] == '.',
    ensures
        stop_at(s) == n,
    decreases s.len(),
{
    if n > 0 {
        assert(s[0] != '.');
        assert forall|j: int| 0 <= j < n - 1 implies s.drop_first()[j] != '.' by {
            assert(s.drop_first()[j] == s[j + 1]);
        }
        lemma_stop_at_is(s.drop_first(), n - 1);
    }
}

/// Reads the organization and the secret out of an Authorization header.
pub fn parse_bearer<'a>(header: &'a str) -> (r: Option<(&'a str, &'a str)>)
    ensures
        match r {
            Some((org, secret)) => credentials(header@) == Some((org@, secret@)),
            None => credentials(header@) is None,
        },
{
    proof {
        reveal_strlit("Bearer scim_v1.");
    }
    if !starts_with(header, "Bearer scim_v1.") {
        return None;
    }
    let chars = to_chars(header);
    let ghost rest = header@.skip(15);
    let mut i: usize = 15;
    while i < chars.len() && chars[i] != '.'
        invariant
            15 <= i <= chars.len(),
            chars@ == header@,
            rest == header@.skip(15),
            forall|j: int| 0 <= j < i - 15 ==> rest[j] != '.',
        decreases chars.len() - i,
    {
        i += 1;
    }
    proof {
        lemma_stop_at_is(rest, i - 15);
    }
    if i == chars.len() {
        return None;
    }
    let org = header.substring_char(15, i);
    let secret = header.substring_char(i + 1, chars.len());
    assert(org@ =~= rest.take(i - 15));
    assert(secret@ =~= rest.skip(i - 15 + 1));
    Some((org, secret))
}

/// Whether a request for an organization is let in: SCIM is on, the token is one of the
/// organization, and the organization's key is enabled and accepts the secret.
pub open spec fn let_in(
    scim_enabled: bool,
    path_org: Seq<char>,
    header: Option<Seq<char>>,
    key: Option<ScimApiKeyView>,
) -> bool {
    &&& scim_enabled
    &&& header matches Some(header)
    &&& credentials(header) matches Some((org, secret))
    &&& org == path_org
    &&& key matches Some(key)
    &&& key.org_uuid == path_org
    &&& key.enabled
    &&& key.accepts(secret)
}

/// Authenticates a request for an organization. `key` is the organization's key, where it
/// has one.
pub fn authenticate(
    scim_enabled: bool,
    path_org: &str,
    header: Option<&str>,
    key: Option<&ScimApiKey>,
) -> (r: Result<(), ScimError>)
    ensures
        ({
            let admitted = let_in(
                scim_enabled,
                path_org@,
                match header {
                    Some(header) => Some(header@),
                    None => None,
                },
                match key {
                    Some(key) => Some(key@),
                    None => None,
                },
            );
            match r {
                Ok(_) => admitted,
                Err(e) => !admitted && e@ == ScimErrorView::unauthorized(),
            }
        }),
{
    let Some(header) = header else {
        return Err(ScimError::unauthorized());
    };
    let Some((org, secret)) = parse_bearer(header) else {
        return Err(ScimError::unauthorized());
    };
    let Some(key) = key else {
        // The digest is computed all the same, so that this work does not tell whether there
        // is a key.
        let _hash = sha256_hex(secret);
        return Err(ScimError::unauthorized());
    };
    let valid = key.check_valid_secret(secret);
    if scim_enabled && text_eq(org, path_org) && text_eq(key.org_uuid.as_str(), path_org)
        && key.enabled && valid {
        Ok(())
    } else {
        Err(ScimError::unauthorized())
    }
}

proof fn lemma_token_is_read_back(org: Seq<char>, secret: Seq<char>)
    requires
        !org.contains('.'),
    ensures
        credentials("Bearer "@ + token_text(org, secret)) == Some((org, secret)),
{
    reveal_strlit("Bearer scim_v1.");
    reveal_strlit("Bearer ");
    reveal_strlit("scim_v1.");
    reveal_strlit(".");
    let header = "Bearer "@ + token_text(org, secret);
    let prefix = "Bearer scim_v1."@;
    assert(header.subrange(0, prefix.len() as int) =~= prefix);
    let rest = header.skip(prefix.len() as int);
    assert(rest =~= org + seq!['.'] + secret);
    assert forall|j: int| 0 <= j < org.len() implies rest[j] != '.' by {
        assert(rest[j] == org[j]);
    }
    assert(rest[org.len() as int] == '.');
    lemma_stop_at_is(rest, org.len() as int);
    assert(rest.take(org.len() as int) =~= org);
    assert(rest.skip(org.len() as int + 1) =~= secret);
}

/// A token is let in for as long as its key is stored and enabled: what is minted is what is
/// verified.
pub proof fn law_minted_tokens_are_let_in(
    uuid: Seq<char>,
    org: Seq<char>,
    secret: Seq<char>,
    now: Timestamp,
)
    requires
        !org.contains('.'),
        hashable(secret),
    ensures
        let_in(
            true,
            org,
            Some("Bearer "@ + token_text(org, secret)),
            Some(new_key(uuid, org, secret_hash(secret), now)),
        ),
{
    lemma_token_is_read_back(org, secret);
}

/// Rotating a key shuts the former token out at once, unless the two secrets have the same
/// digest.
pub proof fn law_rotation_shuts_the_former_token_out(
    uuid: Seq<char>,
    org: Seq<char>,
    former: Seq<char>,
    secret: Seq<char>,
    now: Timestamp,
)
    requires
        !org.contains('.'),
        secret_hash(former) != secret_hash(secret),
    ensures
        !let_in(
            true,
            org,
            Some("Bearer "@ + token_text(org, former)),
            Some(new_key(uuid, org, secret_hash(secret), now)),
        ),
{
    lemma_token_is_read_back(org, former);
}

/// A token opens its own organization and no other, whatever keys are stored.
pub proof fn law_tokens_do_not_cross_organizations(
    org: Seq<char>,
    other: Seq<char>,
    secret: Seq<char>,
    key: Option<ScimApiKeyView>,
)
    requires
        !org.contains('.'),
        org != other,
    ensures
        !let_in(true, other, Some("Bearer "@ + token_text(org, secret)), key),
{
    lemma_token_is_read_back(org, secret);
}

/// The two kill switches shut everybody out: SCIM as a whole, and the organization's key.
pub proof fn law_kill_switches_shut_everybody_out(
    scim_enabled: bool,
    path_org: Seq<char>,
    header: Option<Seq<char>>,
    key: Option<ScimApiKeyView>,
)
    requires
        !scim_enabled || (key matches Some(key) ==> !key.enabled),
    ensures
        !let_in(scim_enabled, path_org, header, key),
{
}

} // verus!
