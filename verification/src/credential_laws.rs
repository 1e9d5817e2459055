//! What a credential is good for: which requests it lets in, how it is stored, and what its
//! owners are shown of it.

use vstd::prelude::*;
use vstd::utf8::encode_utf8;

use crate::crypto::{hashable, hex_digit, hex_text, secret_hash, sha256_digest};
use crate::guard::{credentials, let_in, stop_at, token_text};
use crate::json::JsonView;
use crate::manage::{
    generated_key, needs_break_glass, status_view, switched_key, KeyStatusView, BREAK_GLASS,
};
use crate::ratelimit::ClientIp;
use crate::representation_laws::{has_members, is_text, lemma_first_named};
use crate::scim_api_key::{
    first_write, new_key, next_write, Backend, KeyCommandView, KeyReply, KeyStepView,
    ScimApiKeyView, Timestamp,
};

verus! {

proof fn lemma_stop_at(s: Seq<char>)
    ensures
        stop_at(s) <= s.len(),
        forall|j: int| 0 <= j < stop_at(s) ==> #[trigger] s[j] != '.',
        stop_at(s) < s.len() ==> s[stop_at(s) as int] == '.',
    decreases s.len(),
{
    if s.len() > 0 && s[0] != '.' {
        let rest = s.drop_first();
        lemma_stop_at(rest);
        assert forall|j: int| 0 <= j < stop_at(s) implies #[trigger] s[j] != '.' by {
            if j > 0 {
                assert(s[j] == rest[j - 1]);
            }
        }
        if stop_at(s) < s.len() {
            assert(s[stop_at(s) as int] == rest[stop_at(rest) as int]);
        }
    }
}

/// The header that carries a token.
pub open spec fn bearer(org: Seq<char>, secret: Seq<char>) -> Seq<char> {
    "Bearer scim_v1."@ + org + "."@ + secret
}

/// A header is read as a token exactly where it is one: the organization is what stands before
/// the first full stop, and the secret is all of the rest.
pub proof fn law_headers_are_tokens(header: Seq<char>, org: Seq<char>, secret: Seq<char>)
    ensures
        credentials(header) == Some((org, secret)) <==> header == bearer(org, secret)
            && !org.contains('.'),
{
    reveal_strlit("Bearer scim_v1.");
    reveal_strlit(".");
    let prefix = "Bearer scim_v1."@;
    if credentials(header) == Some((org, secret)) {
        let rest = header.skip(15);
        lemma_stop_at(rest);
        assert(header =~= prefix + rest) by {
            assert(header.subrange(0, 15) =~= prefix);
            assert forall|i: int| 0 <= i < 15 implies header[i] == prefix[i] by {
                assert(header.subrange(0, 15)[i] == header[i]);
            }
        }
        assert(rest =~= org + seq!['.'] + secret);
        assert(header =~= bearer(org, secret));
        assert forall|i: int| 0 <= i < org.len() implies org[i] != '.' by {
            assert(org[i] == rest[i]);
        }
    }
    if header == bearer(org, secret) && !org.contains('.') {
        assert(header.subrange(0, 15) =~= prefix);
        let rest = header.skip(15);
        assert(rest =~= org + seq!['.'] + secret);
        lemma_stop_at(rest);
        let n = stop_at(rest) as int;
        assert(rest[org.len() as int] == '.');
        if n < org.len() {
            assert(rest[n] == org[n]);
            assert(org.contains(org[n]));
        }
        assert(n == org.len());
        assert(rest.take(n) =~= org);
        assert(rest.skip(n + 1) =~= secret);
    }
}

/// A request is let in exactly where SCIM is on and its header carries a token of the
/// organization it is for, whose secret has the digest that an enabled key of that very
/// organization stores.
pub proof fn law_requests_are_let_in_exactly(
    scim_enabled: bool,
    path_org: Seq<char>,
    header: Option<Seq<char>>,
    key: Option<ScimApiKeyView>,
)
    ensures
        let_in(scim_enabled, path_org, header, key) <==> scim_enabled && !path_org.contains('.') && (
        exists|secret: Seq<char>|
            header == Some(#[trigger] bearer(path_org, secret)) && hashable(secret) && (
            key matches Some(stored) && stored.enabled && stored.org_uuid == path_org
                && stored.key_hash == hex_text(sha256_digest(encode_utf8(secret))))),
{
    if let_in(scim_enabled, path_org, header, key) {
        let (org, secret) = credentials(header->Some_0)->Some_0;
        law_headers_are_tokens(header->Some_0, org, secret);
        assert(header == Some(bearer(path_org, secret)));
    }
    if scim_enabled && !path_org.contains('.') && (exists|secret: Seq<char>|
        header == Some(#[trigger] bearer(path_org, secret)) && hashable(secret) && (
        key matches Some(stored) && stored.enabled && stored.org_uuid == path_org
            && stored.key_hash == hex_text(sha256_digest(encode_utf8(secret))))) {
        let secret = choose|secret: Seq<char>|
            header == Some(#[trigger] bearer(path_org, secret)) && hashable(secret) && (
            key matches Some(stored) && stored.enabled && stored.org_uuid == path_org
                && stored.key_hash == hex_text(sha256_digest(encode_utf8(secret))));
        law_headers_are_tokens(header->Some_0, path_org, secret);
    }
}

/// A token is a header without the word before it.
pub proof fn law_tokens_are_carried_by_their_header(org: Seq<char>, secret: Seq<char>)
    ensures
        bearer(org, secret) == "Bearer "@ + token_text(org, secret),
{
    reveal_strlit("Bearer scim_v1.");
    reveal_strlit("Bearer ");
    reveal_strlit("scim_v1.");
    assert(bearer(org, secret) =~= "Bearer "@ + token_text(org, secret));
}

/// The value of a lower-case hexadecimal digit.
pub open spec fn hex_value(c: char) -> int {
    if '0' <= c <= '9' {
        c as int - '0' as int
    } else {
        c as int - 'a' as int + 10
    }
}

/// Bytes are written in hexadecimal so that they can be read back: two digits each, the higher
/// one first, in lower case.
pub proof fn law_hexadecimal_reads_back(bytes: Seq<u8>, i: int)
    requires
        0 <= i < bytes.len(),
    ensures
        hex_text(bytes).len() == 2 * bytes.len(),
        16 * hex_value(hex_text(bytes)[2 * i]) + hex_value(hex_text(bytes)[2 * i + 1]) == bytes[i],
        forall|j: int|
            0 <= j < hex_text(bytes).len() ==> ('0' <= #[trigger] hex_text(bytes)[j] <= '9' || 'a'
                <= hex_text(bytes)[j] <= 'f'),
{
    assert((2 * i) / 2 == i && (2 * i + 1) / 2 == i);
    assert((2 * i) % 2 == 0 && (2 * i + 1) % 2 == 1);
    let text = hex_text(bytes);
    assert(text[2 * i] == hex_digit(bytes[i] as int / 16));
    assert(text[2 * i + 1] == hex_digit(bytes[i] as int % 16));
    assert forall|j: int| 0 <= j < text.len() implies ('0' <= #[trigger] text[j] <= '9' || 'a'
        <= text[j] <= 'f') by {
        let byte = bytes[j / 2] as int;
        assert(0 <= byte / 16 < 16 && 0 <= byte % 16 < 16);
    }
}

/// A key accepts exactly the secrets that have its digest: two secrets that it accepts have the
/// same one, and it is written in hexadecimal.
pub proof fn law_keys_accept_by_digest(key: ScimApiKeyView, secret: Seq<char>, other: Seq<char>)
    ensures
        key.accepts(secret) <==> hashable(secret) && key.key_hash == hex_text(
            sha256_digest(encode_utf8(secret)),
        ),
        key.accepts(secret) && key.accepts(other) ==> secret_hash(secret) == secret_hash(other),
{
}

/// A new key belongs to its organization, is enabled, stores the digest it was given and the
/// time it was made, and was never used.
pub proof fn law_new_keys(
    uuid: Seq<char>,
    org: Seq<char>,
    hash: Seq<char>,
    now: Timestamp,
)
    ensures
        ({
            let key = new_key(uuid, org, hash, now);
            &&& key.uuid == uuid && key.org_uuid == org && key.key_hash == hash
            &&& key.enabled
            &&& key.created_at == now && key.revision_date == now
            &&& key.last_used_at is None
        }),
{
}

/// A use is recorded where none was recorded yet, or where the last one is an hour old.
pub proof fn law_uses_are_recorded_hourly(key: ScimApiKeyView, now: Timestamp)
    ensures
        key.due(now) <==> (key.last_used_at matches Some(last) ==> (now.seconds - last.seconds)
            * 1_000_000_000 + now.nanos - last.nanos >= 3600 * 1_000_000_000),
{
}

/// Saving a key writes that key, whole: at first in the way of the database, and once more by
/// organization where the old row could not be deleted. It succeeds exactly where a row was
/// written.
pub proof fn law_keys_are_saved_whole(
    backend: Backend,
    key: ScimApiKeyView,
    command: KeyCommandView,
    reply: KeyReply,
)
    ensures
        first_write(backend, key) == (if backend is Replacing {
            KeyCommandView::Replace(key)
        } else {
            KeyCommandView::UpsertByOrg(key)
        }),
        match next_write(command, reply) {
            KeyStepView::Ask(next) => command matches KeyCommandView::Replace(row) && next
                == KeyCommandView::UpdateByOrg(row) && reply is ForeignKeyViolation,
            KeyStepView::Done(Ok(_)) => reply matches KeyReply::Written(rows) && (
            command is UpdateByOrg ==> rows > 0),
            KeyStepView::Done(Err(e)) => if reply is Written {
                e is NotFound && command is UpdateByOrg && reply->Written_0 == 0
            } else {
                e is Database && !(command is Replace && reply is ForeignKeyViolation)
            },
        },
{
}

proof fn lemma_manage_names()
    ensures
        "object"@.len() == 6 && "token"@.len() == 5 && "scimBaseUrl"@.len() == 11,
        "revisionDate"@.len() == 12 && "revisionDate"@[0] == 'r',
        "keyEnabled"@.len() == 10 && "keyEnabled"@[0] == 'k',
        "scimEnabled"@.len() == 11,
        "keyConfigured"@.len() == 13,
        "createdAt"@.len() == 9,
        "lastUsedAt"@.len() == 10 && "lastUsedAt"@[0] == 'l',
        "confirmedOwners"@.len() == 15,
        "directoryLinkedOwners"@.len() == 21,
        "breakGlassWarning"@.len() == 17,
{
    reveal_strlit("object");
    reveal_strlit("token");
    reveal_strlit("scimBaseUrl");
    reveal_strlit("revisionDate");
    reveal_strlit("keyEnabled");
    reveal_strlit("scimEnabled");
    reveal_strlit("keyConfigured");
    reveal_strlit("createdAt");
    reveal_strlit("lastUsedAt");
    reveal_strlit("confirmedOwners");
    reveal_strlit("directoryLinkedOwners");
    reveal_strlit("breakGlassWarning");
}

/// Who mints a token is shown it, with the address to use it at and when it was made; who
/// switches the key is shown what it is switched to.
pub proof fn law_owners_are_shown_the_token(
    token: Seq<char>,
    domain: Seq<char>,
    org: Seq<char>,
    date: Seq<char>,
    enabled: bool,
)
    ensures
        ({
            let body = generated_key(token, domain, org, date);
            &&& has_members(body, 4)
            &&& is_text(body.get("object"@), "scim-api-key"@)
            &&& is_text(body.get("token"@), token)
            &&& is_text(body.get("scimBaseUrl"@), domain + "/scim/v2/"@ + org)
            &&& is_text(body.get("revisionDate"@), date)
        }),
        ({
            let body = switched_key(enabled);
            &&& has_members(body, 2)
            &&& is_text(body.get("object"@), "scim-api-key"@)
            &&& body.get("keyEnabled"@) == Some(JsonView::Bool(enabled))
        }),
{
    lemma_manage_names();
    let made = generated_key(token, domain, org, date)->Object_0;
    lemma_first_named(made, "object"@, 0);
    lemma_first_named(made, "token"@, 1);
    lemma_first_named(made, "scimBaseUrl"@, 2);
    lemma_first_named(made, "revisionDate"@, 3);
    let switched = switched_key(enabled)->Object_0;
    lemma_first_named(switched, "object"@, 0);
    lemma_first_named(switched, "keyEnabled"@, 1);
}

/// A date that is shown, or null where there is none.
pub open spec fn shown_date(date: Option<Seq<char>>) -> JsonView {
    match date {
        Some(text) => JsonView::Text(text),
        None => JsonView::Null,
    }
}

/// The status shows whether SCIM is on, whether there is a key, whether it is enabled, when it
/// was made, changed and last used, and how many owners there are and are linked to the
/// directory. There is a warning exactly where there are owners and every one of them is.
pub proof fn law_owners_are_shown_the_status(
    scim_enabled: bool,
    key: Option<KeyStatusView>,
    confirmed: int,
    linked: int,
)
    ensures
        ({
            let body = status_view(scim_enabled, key, confirmed, linked);
            &&& has_members(body, 10)
            &&& is_text(body.get("object"@), "scim-status"@)
            &&& body.get("scimEnabled"@) == Some(JsonView::Bool(scim_enabled))
            &&& body.get("keyConfigured"@) == Some(JsonView::Bool(key is Some))
            &&& body.get("confirmedOwners"@) == Some(JsonView::Integer(confirmed))
            &&& body.get("directoryLinkedOwners"@) == Some(JsonView::Integer(linked))
        }),
        ({
            let body = status_view(scim_enabled, key, confirmed, linked);
            match key {
                Some(shown) => body.get("keyEnabled"@) == Some(JsonView::Bool(shown.enabled))
                    && is_text(body.get("createdAt"@), shown.created_at) && is_text(
                    body.get("revisionDate"@),
                    shown.revision_date,
                ) && body.get("lastUsedAt"@) == Some(shown_date(shown.last_used_at)),
                None => body.get("keyEnabled"@) == Some(JsonView::Bool(false)) && body.get(
                    "createdAt"@,
                ) == Some(JsonView::Null) && body.get("revisionDate"@) == Some(JsonView::Null)
                    && body.get("lastUsedAt"@) == Some(JsonView::Null),
            }
        }),
        ({
            let warning = status_view(scim_enabled, key, confirmed, linked).get(
                "breakGlassWarning"@,
            );
            if confirmed > 0 && linked == confirmed {
                warning == Some(JsonView::Text(BREAK_GLASS@))
            } else {
                warning == Some(JsonView::Null)
            }
        }),
        needs_break_glass(confirmed, linked) <==> confirmed > 0 && linked == confirmed,
{
    lemma_manage_names();
    let shown = status_view(scim_enabled, key, confirmed, linked)->Object_0;
    lemma_first_named(shown, "object"@, 0);
    lemma_first_named(shown, "scimEnabled"@, 1);
    lemma_first_named(shown, "keyConfigured"@, 2);
    lemma_first_named(shown, "keyEnabled"@, 3);
    lemma_first_named(shown, "createdAt"@, 4);
    lemma_first_named(shown, "revisionDate"@, 5);
    lemma_first_named(shown, "lastUsedAt"@, 6);
    lemma_first_named(shown, "confirmedOwners"@, 7);
    lemma_first_named(shown, "directoryLinkedOwners"@, 8);
    lemma_first_named(shown, "breakGlassWarning"@, 9);
}

/// Clients are told apart by their whole address, and by nothing else: two of them share a
/// bucket exactly where they have the same address of the same family.
pub proof fn law_clients_are_told_apart(a: ClientIp, b: ClientIp)
    ensures
        a.key() == b.key() <==> a.v6 == b.v6 && a.bits == b.bits,
{
}

} // verus!
