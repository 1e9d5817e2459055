//! Management of an organization's SCIM credential, by its owners.
//!
//! A token can revoke an owner, so only an owner may mint one. The token is shown once,
//! when it is minted; only the digest of its secret is stored.

use vstd::prelude::*;
use vstd::string::*;

use crate::crypto::{base64url_nopad, base64url_text, hashable, random_secret, secret_hash, sha256_hex};
use crate::guard::token_text;
use crate::json::{field, fields, optional_text_view, Fields, Json, JsonView};
use crate::scim::base_url;
use crate::scim_api_key::{new_key, utc_now, ScimApiKey, ScimApiKeyId, Timestamp};
use crate::text::{join3, optional, text_eq};

verus! {

pub const BREAK_GLASS: &'static str = "Every confirmed Owner of this organization carries a SCIM externalId, so every one of them was provisioned from the identity provider. Keep at least one Owner that exists only in Vaultwarden, or a compromise of the IdP leaves this organization with no recovery path. Note that a low directoryLinkedOwners count does not by itself prove a break-glass account exists: an admin excluded by an IdP scoping filter is never provisioned and carries no externalId either.";

/// Why a management request was refused.
#[derive(Clone, Copy, Debug)]
pub struct ManageError {
    pub message: &'static str,
}

/// Refuses a request for another organization than the session's.
pub fn check_organization(org_id: &str, session_org: &str) -> (r: Result<(), ManageError>)
    ensures
        match r {
            Ok(_) => org_id@ == session_org@,
            Err(e) => org_id@ != session_org@ && e.message@ == "Organization not found"@,
        },
{
    if text_eq(org_id, session_org) {
        Ok(())
    } else {
        Err(ManageError { message: "Organization not found" })
    }
}

/// Refuses to mint a credential for a feature that is off. Only minting is refused: who has
/// just turned SCIM off still needs to revoke the credential that was live a moment ago.
pub fn check_scim_enabled(scim_enabled: bool) -> (r: Result<(), ManageError>)
    ensures
        match r {
            Ok(_) => scim_enabled,
            Err(e) => !scim_enabled && e.message@ == "SCIM support is disabled"@,
        },
{
    if scim_enabled {
        Ok(())
    } else {
        Err(ManageError { message: "SCIM support is disabled" })
    }
}

/// What a request to mint a token has to pass.
pub fn check_generate(org_id: &str, session_org: &str, scim_enabled: bool) -> (r: Result<
    (),
    ManageError,
>)
    ensures
        match r {
            Ok(_) => org_id@ == session_org@ && scim_enabled,
            Err(e) => if org_id@ != session_org@ {
                e.message@ == "Organization not found"@
            } else {
                !scim_enabled && e.message@ == "SCIM support is disabled"@
            },
        },
{
    if let Err(e) = check_organization(org_id, session_org) {
        return Err(e);
    }
    check_scim_enabled(scim_enabled)
}

proof fn lemma_secret_is_hashable(bytes: Seq<u8>)
    requires
        bytes.len() == 32,
    ensures
        hashable(base64url_text(bytes)),
{
    let secret = base64url_text(bytes);
    assert forall|i: int| 0 <= i < secret.len() implies (#[trigger] secret[i]) as int <= 127 by {
        let bits = crate::crypto::sextet(bytes, i);
        assert(0 <= bits < 64);
    }
    assert(vstd::utf8::is_ascii_chars(secret));
    vstd::utf8::is_ascii_chars_encode_utf8(secret);
}

/// Mints a token from a secret of 256 bits, and the key that stands for it.
pub fn mint_from(
    org_id: &str,
    uuid: ScimApiKeyId,
    secret_bytes: &Vec<u8>,
    now: Timestamp,
) -> (r: (String, ScimApiKey))
    requires
        secret_bytes@.len() == 32,
    ensures
        r.0@ == token_text(org_id@, base64url_text(secret_bytes@)),
        r.1@ == new_key(
            uuid.0@,
            org_id@,
            secret_hash(base64url_text(secret_bytes@)),
            now,
        ),
        hashable(base64url_text(secret_bytes@)),
{
    let secret = base64url_nopad(secret_bytes);
    proof {
        lemma_secret_is_hashable(secret_bytes@);
    }
    let hash = match sha256_hex(secret.as_str()) {
        Some(hash) => hash,
        None => {
            assert(false);
            String::new()
        },
    };
    let mut token = join3("scim_v1.", org_id, ".");
    token.append(secret.as_str());
    (token, ScimApiKey::made_at(uuid, org_id.to_owned(), hash, now))
}

/// Mints a token from the system's randomness, and the key that is to be saved in the place
/// of the organization's former one. Without randomness there is no token.
pub fn mint_scim_token(org_id: &str, uuid: ScimApiKeyId) -> (r: Option<(String, ScimApiKey)>)
    ensures
        r matches Some((token, key)) ==> exists|secret_bytes: Seq<u8>|
            {
                let secret = #[trigger] base64url_text(secret_bytes);
                &&& secret_bytes.len() == 32
                &&& token@ == token_text(org_id@, secret)
                &&& key@ == new_key(uuid.0@, org_id@, secret_hash(secret), key.created_at)
                &&& hashable(secret)
            },
{
    match random_secret() {
        Some(secret_bytes) => Some(mint_from(org_id, uuid, &secret_bytes, utc_now())),
        None => None,
    }
}

/// The answer to a request that minted a token.
pub open spec fn generated_key(
    token: Seq<char>,
    domain: Seq<char>,
    org: Seq<char>,
    revision_date: Seq<char>,
) -> JsonView {
    JsonView::Object(
        fields().push(field("object"@, JsonView::Text("scim-api-key"@))).push(
            field("token"@, JsonView::Text(token)),
        ).push(field("scimBaseUrl"@, JsonView::Text(base_url(domain, org)))).push(
            field("revisionDate"@, JsonView::Text(revision_date)),
        ),
    )
}

/// Builds the answer to a request that minted a token: the one time it is shown.
pub fn generated_key_body(token: &str, domain: &str, org: &str, revision_date: &str) -> (r: Json)
    ensures
        r@ == generated_key(token@, domain@, org@, revision_date@),
{
    let base = join3(domain, "/scim/v2/", org);
    Fields::new().with_text("object", "scim-api-key").with_text("token", token).with_text(
        "scimBaseUrl",
        base.as_str(),
    ).with_text("revisionDate", revision_date).done()
}

/// What a request to enable or disable the key has to pass, apart from authentication.
pub fn check_set_enabled(key_configured: bool) -> (r: Result<(), ManageError>)
    ensures
        match r {
            Ok(_) => key_configured,
            Err(e) => !key_configured && e.message@
                == "No SCIM api key is configured for this organization"@,
        },
{
    if key_configured {
        Ok(())
    } else {
        Err(ManageError { message: "No SCIM api key is configured for this organization" })
    }
}

/// The answer to a request that enabled or disabled the key.
pub open spec fn switched_key(enabled: bool) -> JsonView {
    JsonView::Object(
        fields().push(field("object"@, JsonView::Text("scim-api-key"@))).push(
            field("keyEnabled"@, JsonView::Bool(enabled)),
        ),
    )
}

/// Builds the answer to a request that enabled or disabled the key.
pub fn switched_key_body(enabled: bool) -> (r: Json)
    ensures
        r@ == switched_key(enabled),
{
    Fields::new().with_text("object", "scim-api-key").with_bool("keyEnabled", enabled).done()
}

/// What the status page shows of a key. The dates are as they are shown.
#[derive(Debug)]
pub struct KeyStatus {
    pub enabled: bool,
    pub created_at: String,
    pub revision_date: String,
    pub last_used_at: Option<String>,
}

/// The mathematical counterpart of [`KeyStatus`].
#[verifier::ext_equal]
pub ghost struct KeyStatusView {
    pub enabled: bool,
    pub created_at: Seq<char>,
    pub revision_date: Seq<char>,
    pub last_used_at: Option<Seq<char>>,
}

impl View for KeyStatus {
    type V = KeyStatusView;

    open spec fn view(&self) -> KeyStatusView {
        KeyStatusView {
            enabled: self.enabled,
            created_at: self.created_at@,
            revision_date: self.revision_date@,
            last_used_at: optional(self.last_used_at),
        }
    }
}

/// Whether every confirmed owner is linked to the directory, so that none survives a
/// compromise of the identity provider.
pub open spec fn needs_break_glass(confirmed_owners: int, linked_owners: int) -> bool {
    confirmed_owners > 0 && linked_owners == confirmed_owners
}

/// The status of an organization's SCIM credential. `lastUsedAt` is null for a key that has
/// never been used, which is either not wired up or dead.
pub open spec fn status_view(
    scim_enabled: bool,
    key: Option<KeyStatusView>,
    confirmed_owners: int,
    linked_owners: int,
) -> JsonView {
    JsonView::Object(
        fields().push(field("object"@, JsonView::Text("scim-status"@))).push(
            field("scimEnabled"@, JsonView::Bool(scim_enabled)),
        ).push(field("keyConfigured"@, JsonView::Bool(key is Some))).push(
            field(
                "keyEnabled"@,
                JsonView::Bool(
                    match key {
                        Some(key) => key.enabled,
                        None => false,
                    },
                ),
            ),
        ).push(
            field(
                "createdAt"@,
                optional_text_view(
                    match key {
                        Some(key) => Some(key.created_at),
                        None => None,
                    },
                ),
            ),
        ).push(
            field(
                "revisionDate"@,
                optional_text_view(
                    match key {
                        Some(key) => Some(key.revision_date),
                        None => None,
                    },
                ),
            ),
        ).push(
            field(
                "lastUsedAt"@,
                optional_text_view(
                    match key {
                        Some(key) => key.last_used_at,
                        None => None,
                    },
                ),
            ),
        ).push(field("confirmedOwners"@, JsonView::Integer(confirmed_owners))).push(
            field("directoryLinkedOwners"@, JsonView::Integer(linked_owners)),
        ).push(
            field(
                "breakGlassWarning"@,
                if needs_break_glass(confirmed_owners, linked_owners) {
                    JsonView::Text(BREAK_GLASS@)
                } else {
                    JsonView::Null
                },
            ),
        ),
    )
}

/// Builds the status of an organization's SCIM credential. `linked_owners` are the confirmed
/// owners that carry an externalId.
pub fn scim_status(
    scim_enabled: bool,
    key: Option<KeyStatus>,
    confirmed_owners: i64,
    linked_owners: i64,
) -> (r: Json)
    ensures
        r@ == status_view(
            scim_enabled,
            match key {
                Some(key) => Some(key@),
                None => None,
            },
            confirmed_owners as int,
            linked_owners as int,
        ),
{
    let configured = key.is_some();
    let (enabled, created_at, revision_date, last_used_at) = match key {
        Some(key) => (
            key.enabled,
            Json::text(key.created_at.as_str()),
            Json::text(key.revision_date.as_str()),
            Json::optional_text(&key.last_used_at),
        ),
        None => (false, Json::Null, Json::Null, Json::Null),
    };
    let warning = if confirmed_owners > 0 && linked_owners == confirmed_owners {
        Json::text(BREAK_GLASS)
    } else {
        Json::Null
    };
    Fields::new().with_text("object", "scim-status").with_bool(
        "scimEnabled",
        scim_enabled,
    ).with_bool("keyConfigured", configured).with_bool("keyEnabled", enabled).with(
        "createdAt",
        created_at,
    ).with("revisionDate", revision_date).with("lastUsedAt", last_used_at).with_integer(
        "confirmedOwners",
        confirmed_owners as i128,
    ).with_integer("directoryLinkedOwners", linked_owners as i128).with(
        "breakGlassWarning",
        warning,
    ).done()
}

} // verus!
