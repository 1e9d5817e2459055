use vaultwarden_scim::membership::{Membership, MembershipStatus, MembershipType};
use vaultwarden_scim::users::{is_privileged, membership_active, reject_last_owner_revoke, reject_privileged_grant};

fn member_with_status(status: i32) -> Membership {
    let mut member =
        Membership::new("test-member".to_owned(), "test-user".to_owned(), "test-org".to_owned(), None);
    member.status = status;
    member
}

#[test]
fn active_mapping_handles_revocation_offsets() {
    // Stored revoked values are status - 128; Revoked (-1) itself is a
    // sentinel that never hits the database.
    for (status, expected_active) in [(2, true), (1, true), (0, true), (-126, false), (-127, false), (-128, false)] {
        assert_eq!(membership_active(&member_with_status(status)), expected_active, "status {status}");
    }
}

#[test]
fn revoke_restore_arithmetic_round_trips() {
    for initial in [0, 1, 2] {
        let mut member = member_with_status(initial);
        assert!(member.revoke());
        assert_eq!(member.status, initial - 128);
        assert!(!member.revoke(), "revoke must be idempotent");
        assert!(member.restore());
        assert_eq!(member.status, initial);
        assert!(!member.restore(), "restore must be idempotent");
    }
}

#[test]
fn from_i32_still_rejects_revoked_values() {
    assert!(MembershipStatus::from_i32(-126).is_none());
    assert!(MembershipStatus::from_i32(-128).is_none());
    assert!(MembershipStatus::from_i32(-1).is_none());
}

#[test]
fn revocation_keeps_the_key_and_the_role() {
    let mut member = member_with_status(2);
    member.akey = "wrapped".to_owned();
    member.atype = MembershipType::Admin.code();
    member.set_external_id(Some("ext".to_owned()));
    member.revoke();
    assert_eq!((member.akey.as_str(), member.atype), ("wrapped", 1));
    assert_eq!(member.external_id.as_deref(), Some("ext"));
    member.restore();
    assert_eq!((member.akey.as_str(), member.atype, member.status), ("wrapped", 1, 2));
}

#[test]
fn statuses_and_types_have_their_stored_values() {
    for (status, code) in [
        (MembershipStatus::Revoked, -1),
        (MembershipStatus::Invited, 0),
        (MembershipStatus::Accepted, 1),
        (MembershipStatus::Confirmed, 2),
    ] {
        assert_eq!(status.code(), code);
        if code >= 0 {
            assert_eq!(MembershipStatus::from_i32(code), Some(status));
        }
    }
    assert_eq!(MembershipStatus::from_i32(3), None);
    let types = [MembershipType::Owner, MembershipType::Admin, MembershipType::User, MembershipType::Manager];
    assert_eq!(types.map(MembershipType::code), [0, 1, 2, 3]);
}

#[test]
fn an_empty_external_id_is_stored_as_absent() {
    let mut member = member_with_status(1);
    member.set_external_id(Some("x".to_owned()));
    assert_eq!(member.external_id.as_deref(), Some("x"));
    member.set_external_id(Some(String::new()));
    assert_eq!(member.external_id, None);
}

#[test]
fn administrators_can_be_revoked_but_not_reinstated() {
    for (atype, privileged) in [(0, true), (1, true), (2, false), (3, true)] {
        let mut member = member_with_status(2);
        member.atype = atype;
        assert_eq!(is_privileged(&member), privileged);
        match reject_privileged_grant(&member) {
            Ok(()) => assert!(!privileged),
            Err(e) => assert_eq!((e.status.code, e.scim_type), (400, Some("mutability"))),
        }
    }
}

#[test]
fn the_last_owner_stays() {
    let mut member = member_with_status(2);
    member.atype = MembershipType::Owner.code();
    assert!(reject_last_owner_revoke(&member, 2).is_ok());
    for count in [1, 0] {
        let e = reject_last_owner_revoke(&member, count).expect_err("must be refused");
        assert_eq!(
            (e.status.code, e.scim_type, e.detail.as_str()),
            (400, Some("mutability"), "Cannot revoke the last owner of the organization")
        );
    }
    member.atype = MembershipType::Admin.code();
    assert!(reject_last_owner_revoke(&member, 0).is_ok());
}
