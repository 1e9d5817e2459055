use vaultwarden_scim::crypto::{ct_eq, hex, sha256_hex};
use vaultwarden_scim::guard::{authenticate, parse_bearer};
use vaultwarden_scim::json::Json;
use vaultwarden_scim::manage::{
    check_generate, check_set_enabled, generated_key_body, mint_from, mint_scim_token, scim_status, switched_key_body,
    KeyStatus,
};
use vaultwarden_scim::scim_api_key::{
    Backend, KeyCommand, KeyError, KeyReply, KeyStep, ScimApiKey, ScimApiKeyId, Timestamp,
    LAST_USED_RESOLUTION_SECONDS,
};

const NOW: Timestamp = Timestamp { seconds: 1_700_000_000, nanos: 5 };

fn id(name: &str) -> ScimApiKeyId {
    ScimApiKeyId(name.to_owned())
}

fn text<'a>(body: &'a Json, name: &str) -> Option<&'a str> {
    match body.get(name) {
        Some(Json::Text(text)) => Some(text),
        _ => None,
    }
}

fn let_in(path_org: &str, token: &str, key: Option<&ScimApiKey>) -> bool {
    authenticate(true, path_org, Some(&format!("Bearer {token}")), key).is_ok()
}

#[test]
fn digests_are_lowercase_hex_of_sha256() {
    assert_eq!(
        sha256_hex("abc").as_deref(),
        Some("ba7816bf8f01cfea414140de5dae2223b00361a396177a9cb410ff61f20015ad")
    );
    assert_eq!(
        sha256_hex("").as_deref(),
        Some("e3b0c44298fc1c149afbf4c8996fb92427ae41e4649b934ca495991b7852b855")
    );
    assert_eq!(hex(&vec![0x00, 0x0f, 0xa0, 0xff]), "000fa0ff");
}

#[test]
fn comparison_of_digests() {
    assert!(ct_eq("abc", "abc"));
    assert!(ct_eq("", ""));
    assert!(!ct_eq("abc", "abd"));
    assert!(!ct_eq("abc", "ab"));
    assert!(!ct_eq("ab", "abc"));
}

#[test]
fn a_minted_token_is_the_prefix_the_organization_and_the_secret() {
    let (token, key) = mint_from("org", id("k"), &vec![0; 32], NOW);
    assert_eq!(token, format!("scim_v1.org.{}", "A".repeat(43)));
    assert_eq!(Some(key.key_hash.as_str()), sha256_hex(&"A".repeat(43)).as_deref());
    assert!(!key.key_hash.contains('A'), "the secret itself is not stored");
    assert_eq!((key.uuid.0.as_str(), key.org_uuid.as_str(), key.enabled), ("k", "org", true));
    assert_eq!((key.created_at, key.revision_date, key.last_used_at), (NOW, NOW, None));
    let (token, _) = mint_from("org", id("k"), &vec![0xff; 32], NOW);
    assert_eq!(token, format!("scim_v1.org.{}8", "_".repeat(42)));
    let bytes: Vec<u8> = (0..32).map(|i| 251u8.wrapping_sub(i * 7)).collect();
    let (token, _) = mint_from("org", id("k"), &bytes, NOW);
    assert_eq!(token, format!("scim_v1.org.{}", data_encoding::BASE64URL_NOPAD.encode(&bytes)));
}

#[test]
fn minted_tokens_are_random_and_accepted() {
    let (first, key) = mint_scim_token("org", id("k")).expect("randomness");
    let (second, _) = mint_scim_token("org", id("l")).expect("randomness");
    assert_ne!(first, second);
    assert_eq!(first.len(), "scim_v1.org.".len() + 43);
    assert!(let_in("org", &first, Some(&key)));
    assert!(key.created_at.seconds > 1_700_000_000 && key.created_at == key.revision_date);
}

#[test]
fn rotation_shuts_the_former_token_out() {
    let (old, old_key) = mint_from("org", id("k"), &vec![1; 32], NOW);
    let (new, new_key) = mint_from("org", id("l"), &vec![2; 32], NOW);
    assert!(let_in("org", &old, Some(&old_key)) && let_in("org", &new, Some(&new_key)));
    assert!(!let_in("org", &old, Some(&new_key)));
}

#[test]
fn tokens_do_not_cross_organizations() {
    let (token, key) = mint_from("org", id("k"), &vec![1; 32], NOW);
    let (_, other_key) = mint_from("other", id("l"), &vec![1; 32], NOW);
    assert!(!let_in("other", &token, Some(&other_key)));
    assert!(!let_in("other", &token, Some(&key)));
    assert!(!let_in("org", &token, Some(&other_key)));
}

#[test]
fn every_refusal_is_the_same_401() {
    let (token, mut key) = mint_from("org", id("k"), &vec![1; 32], NOW);
    let bearer = format!("Bearer {token}");
    let lower = format!("bearer {token}");
    let longer = format!("{bearer}x");
    let mut refusals = vec![
        authenticate(true, "org", None, Some(&key)),
        authenticate(true, "org", Some(""), Some(&key)),
        authenticate(true, "org", Some(&token), Some(&key)),
        authenticate(true, "org", Some(&lower), Some(&key)),
        authenticate(true, "org", Some(&longer), Some(&key)),
        authenticate(true, "org", Some("Bearer scim_v1.org"), Some(&key)),
        authenticate(true, "org", Some("Bearer scim_v2.org.x"), Some(&key)),
        authenticate(true, "org", Some(&bearer), None),
        authenticate(false, "org", Some(&bearer), Some(&key)),
    ];
    assert!(authenticate(true, "org", Some(&bearer), Some(&key)).is_ok());
    key.set_enabled_at(false, NOW);
    refusals.push(authenticate(true, "org", Some(&bearer), Some(&key)));
    for refusal in refusals {
        let e = refusal.expect_err("must be refused");
        assert_eq!((e.status.code, e.scim_type, e.detail.as_str()), (401, None, "Unauthorized"));
    }
}

#[test]
fn bearer_tokens_are_split_at_the_first_stop_after_the_prefix() {
    assert_eq!(parse_bearer("Bearer scim_v1.org.se.cret"), Some(("org", "se.cret")));
    assert_eq!(parse_bearer("Bearer scim_v1.."), Some(("", "")));
    assert_eq!(parse_bearer("Bearer scim_v1.örg.ß"), Some(("örg", "ß")));
    assert_eq!(parse_bearer("Bearer scim_v1.org"), None);
    assert_eq!(parse_bearer("Basic scim_v1.org.x"), None);
}

#[test]
fn disabling_is_reversible_and_keeps_the_digest() {
    let (token, mut key) = mint_from("org", id("k"), &vec![1; 32], NOW);
    let hash = key.key_hash.clone();
    let later = Timestamp { seconds: NOW.seconds + 10, nanos: 0 };
    key.set_enabled_at(false, later);
    assert!(!let_in("org", &token, Some(&key)));
    assert_eq!((key.created_at, key.revision_date), (NOW, later));
    key.set_enabled(true);
    assert!(let_in("org", &token, Some(&key)));
    assert_eq!(key.key_hash, hash);
    assert!(key.revision_date.seconds > later.seconds);

    assert!(ScimApiKey::find_active_by_org(None).is_none());
    let (_, mut other) = mint_from("org", id("k"), &vec![1; 32], NOW);
    other.set_enabled_at(false, NOW);
    assert!(ScimApiKey::find_active_by_org(Some(other)).is_none());
    assert!(ScimApiKey::find_active_by_org(Some(key)).is_some());
}

#[test]
fn uses_are_recorded_at_most_once_per_resolution() {
    let mut key = ScimApiKey::made_at(id("k"), "org".to_owned(), "hash".to_owned(), NOW);
    let used = key.touch_at(NOW).expect("the first use is recorded");
    assert_eq!((used.org_uuid.as_str(), used.uuid.0.as_str(), used.at), ("org", "k", NOW));
    key.last_used_at = Some(NOW);
    let at = |seconds: i64, nanos: u32| Timestamp { seconds: NOW.seconds + seconds, nanos };
    assert!(key.touch_at(NOW).is_none());
    assert!(key.touch_at(at(LAST_USED_RESOLUTION_SECONDS, 4)).is_none(), "one nanosecond short");
    assert!(key.touch_at(at(LAST_USED_RESOLUTION_SECONDS, 5)).is_some());
    assert!(key.touch_at(at(-10, 0)).is_none(), "a clock that went back records nothing");
    key.last_used_at = None;
    assert!(key.touch_last_used().is_some());
    let fresh = ScimApiKey::new(id("k"), "org".to_owned(), "hash".to_owned());
    assert!(fresh.created_at.seconds > NOW.seconds && fresh.enabled && fresh.last_used_at.is_none());
}

#[test]
fn saving_falls_back_to_an_update_where_the_row_is_referred_to() {
    let mut key = ScimApiKey::made_at(id("k"), "org".to_owned(), "hash".to_owned(), NOW);
    key.enabled = false;
    key.last_used_at = Some(Timestamp { seconds: 7, nanos: 8 });
    // Every write carries the whole key.
    assert_eq!(key.save(Backend::Replacing), KeyCommand::Replace(key.copy()));
    assert_eq!(key.save(Backend::Upserting), KeyCommand::UpsertByOrg(key.copy()));
    let (replace, update, upsert) = (KeyCommand::Replace, KeyCommand::UpdateByOrg, KeyCommand::UpsertByOrg);
    let cases: [(fn(ScimApiKey) -> KeyCommand, KeyReply, KeyStep); 9] = [
        (replace, KeyReply::Written(1), KeyStep::Done(Ok(()))),
        (replace, KeyReply::ForeignKeyViolation, KeyStep::Ask(update(key.copy()))),
        (replace, KeyReply::Failed, KeyStep::Done(Err(KeyError::Database))),
        (update, KeyReply::Written(1), KeyStep::Done(Ok(()))),
        (update, KeyReply::Written(0), KeyStep::Done(Err(KeyError::NotFound))),
        (update, KeyReply::ForeignKeyViolation, KeyStep::Done(Err(KeyError::Database))),
        (upsert, KeyReply::Written(2), KeyStep::Done(Ok(()))),
        (upsert, KeyReply::ForeignKeyViolation, KeyStep::Done(Err(KeyError::Database))),
        (upsert, KeyReply::Failed, KeyStep::Done(Err(KeyError::Database))),
    ];
    for (command, reply, step) in cases {
        assert_eq!(ScimApiKey::save_next(command(key.copy()), reply), step, "{reply:?}");
    }
}

#[test]
fn management_requests_are_checked() {
    assert!(check_generate("org", "org", true).is_ok());
    assert_eq!(check_generate("org", "other", false).expect_err("foreign").message, "Organization not found");
    assert_eq!(check_generate("org", "org", false).expect_err("off").message, "SCIM support is disabled");
    assert!(check_set_enabled(true).is_ok());
    assert_eq!(
        check_set_enabled(false).expect_err("no key").message,
        "No SCIM api key is configured for this organization"
    );
}

#[test]
fn management_answers() {
    let body = generated_key_body("scim_v1.org.x", "https://vault", "org", "today");
    assert_eq!(text(&body, "object"), Some("scim-api-key"));
    assert_eq!(text(&body, "token"), Some("scim_v1.org.x"));
    assert_eq!(text(&body, "scimBaseUrl"), Some("https://vault/scim/v2/org"));
    assert_eq!(text(&body, "revisionDate"), Some("today"));
    assert!(matches!(switched_key_body(true).get("keyEnabled"), Some(Json::Bool(true))));
}

#[test]
fn the_status_warns_where_no_owner_is_outside_the_directory() {
    let key = || {
        Some(KeyStatus {
            enabled: true,
            created_at: "then".to_owned(),
            revision_date: "later".to_owned(),
            last_used_at: None,
        })
    };
    let warned = |confirmed, linked| text(&scim_status(true, key(), confirmed, linked), "breakGlassWarning").is_some();
    assert!(warned(1, 1) && warned(3, 3));
    assert!(!warned(0, 0) && !warned(2, 1) && !warned(1, 0));

    let body = scim_status(true, key(), 2, 1);
    assert_eq!(text(&body, "object"), Some("scim-status"));
    assert_eq!((text(&body, "createdAt"), text(&body, "revisionDate")), (Some("then"), Some("later")));
    assert!(matches!(body.get("lastUsedAt"), Some(Json::Null)), "a key that was never used");
    assert!(matches!(body.get("keyConfigured"), Some(Json::Bool(true))));
    assert!(matches!(body.get("confirmedOwners"), Some(Json::Integer(2))));
    assert!(matches!(body.get("directoryLinkedOwners"), Some(Json::Integer(1))));
    let body = scim_status(false, None, 0, 0);
    assert!(matches!(body.get("scimEnabled"), Some(Json::Bool(false))));
    assert!(matches!(body.get("keyConfigured"), Some(Json::Bool(false))));
    assert!(matches!(body.get("keyEnabled"), Some(Json::Bool(false))));
    assert!(matches!(body.get("createdAt"), Some(Json::Null)));
}
