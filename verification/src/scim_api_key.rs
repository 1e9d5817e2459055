//! The SCIM credential of an organization. Only the digest of its secret is stored.

use vstd::prelude::*;
use vstd::string::*;

use crate::crypto::{ct_eq, hashable, secret_hash, sha256_hex};

verus! {

/// How stale the last use of a key may get before a request records it again. It is
/// telemetry for a status page: recording it once an hour keeps a sync of thousands of
/// requests from writing thousands of times.
pub const LAST_USED_RESOLUTION_SECONDS: i64 = 3600;

/// A point in time: seconds since the Unix epoch, and nanoseconds within the second.
#[derive(Clone, Copy, Debug, PartialEq, Eq, Structural)]
pub struct Timestamp {
    pub seconds: i64,
    pub nanos: u32,
}

impl Timestamp {
    /// Nanoseconds since the Unix epoch.
    pub open spec fn total_nanos(self) -> int {
        self.seconds * 1_000_000_000 + self.nanos
    }

    fn in_nanos(&self) -> (r: i128)
        ensures
            r == self.total_nanos(),
            -0x1_0000_0000_0000_0000_0000_0000i128 < r < 0x1_0000_0000_0000_0000_0000_0000i128,
    {
        let seconds: i128 = self.seconds as i128;
        seconds * 1_000_000_000 + self.nanos as i128
    }
}

/// `chrono::Utc::now`: the present time. Nothing is said of it.
#[verifier::external_body]
pub(crate) fn utc_now() -> (r: Timestamp) {
    let now = chrono::Utc::now();
    Timestamp { seconds: now.timestamp(), nanos: now.timestamp_subsec_nanos() }
}

/// The id of a key.
#[derive(Clone, Debug, Hash, PartialEq, Eq)]
pub struct ScimApiKeyId(pub String);

/// The credential of an organization.
#[derive(Debug, PartialEq, Eq)]
pub struct ScimApiKey {
    pub uuid: ScimApiKeyId,
    pub org_uuid: String,
    /// The digest of the secret. The secret itself is shown once, and never stored.
    pub key_hash: String,
    /// A reversible kill switch: disabling keeps the digest.
    pub enabled: bool,
    pub created_at: Timestamp,
    pub revision_date: Timestamp,
    /// When the key last authenticated a request, at a coarse resolution. Absent means
    /// that it never has.
    pub last_used_at: Option<Timestamp>,
}

/// The mathematical counterpart of [`ScimApiKey`].
#[verifier::ext_equal]
pub ghost struct ScimApiKeyView {
    pub uuid: Seq<char>,
    pub org_uuid: Seq<char>,
    pub key_hash: Seq<char>,
    pub enabled: bool,
    pub created_at: Timestamp,
    pub revision_date: Timestamp,
    pub last_used_at: Option<Timestamp>,
}

impl View for ScimApiKey {
    type V = ScimApiKeyView;

    open spec fn view(&self) -> ScimApiKeyView {
        ScimApiKeyView {
            uuid: self.uuid.0@,
            org_uuid: self.org_uuid@,
            key_hash: self.key_hash@,
            enabled: self.enabled,
            created_at: self.created_at,
            revision_date: self.revision_date,
            last_used_at: self.last_used_at,
        }
    }
}

/// A key that was made at a point in time: enabled, and never used.
pub open spec fn new_key(
    uuid: Seq<char>,
    org_uuid: Seq<char>,
    key_hash: Seq<char>,
    now: Timestamp,
) -> ScimApiKeyView {
    ScimApiKeyView {
        uuid,
        org_uuid,
        key_hash,
        enabled: true,
        created_at: now,
        revision_date: now,
        last_used_at: None,
    }
}

impl ScimApiKeyView {
    /// Whether a use at a point in time is to be recorded.
    pub open spec fn due(self, now: Timestamp) -> bool {
        match self.last_used_at {
            Some(last) => now.total_nanos() - last.total_nanos() >= LAST_USED_RESOLUTION_SECONDS
                * 1_000_000_000,
            None => true,
        }
    }

    /// Whether a secret is the key's.
    pub open spec fn accepts(self, secret: Seq<char>) -> bool {
        hashable(secret) && self.key_hash == secret_hash(secret)
    }
}

/// A record of a key's use.
///
/// It names the key as well as the organization: where the key was rotated while the
/// request was in flight, the new key must not show a use that it never had.
#[derive(Debug)]
pub struct LastUsed {
    pub org_uuid: String,
    pub uuid: ScimApiKeyId,
    pub at: Timestamp,
}

impl ScimApiKey {
    /// A key that was made at `now`.
    pub fn made_at(uuid: ScimApiKeyId, org_uuid: String, key_hash: String, now: Timestamp) -> (r:
        Self)
        ensures
            r@ == new_key(uuid.0@, org_uuid@, key_hash@, now),
    {
        ScimApiKey {
            uuid,
            org_uuid,
            key_hash,
            enabled: true,
            created_at: now,
            revision_date: now,
            last_used_at: None,
        }
    }

    /// A key that is made now, under a fresh id.
    pub fn new(uuid: ScimApiKeyId, org_uuid: String, key_hash: String) -> (r: Self)
        ensures
            r@ == new_key(uuid.0@, org_uuid@, key_hash@, r.created_at),
    {
        let now = utc_now();
        Self::made_at(uuid, org_uuid, key_hash, now)
    }

    /// A copy of the key.
    pub fn copy(&self) -> (r: Self)
        ensures
            r@ == self@,
    {
        ScimApiKey {
            uuid: ScimApiKeyId(self.uuid.0.clone()),
            org_uuid: self.org_uuid.clone(),
            key_hash: self.key_hash.clone(),
            enabled: self.enabled,
            created_at: self.created_at,
            revision_date: self.revision_date,
            last_used_at: self.last_used_at,
        }
    }

    /// The record of a use at `now`, where it is to be recorded: at most once per
    /// [`LAST_USED_RESOLUTION_SECONDS`].
    pub fn touch_at(&self, now: Timestamp) -> (r: Option<LastUsed>)
        ensures
            match r {
                Some(used) => self@.due(now) && used.org_uuid@ == self@.org_uuid && used.uuid.0@
                    == self@.uuid && used.at == now,
                None => !self@.due(now),
            },
    {
        if let Some(last) = self.last_used_at {
            let elapsed: i128 = now.in_nanos() - last.in_nanos();
            if elapsed < LAST_USED_RESOLUTION_SECONDS as i128 * 1_000_000_000 {
                return None;
            }
        }
        Some(
            LastUsed {
                org_uuid: self.org_uuid.clone(),
                uuid: ScimApiKeyId(self.uuid.0.clone()),
                at: now,
            },
        )
    }

    /// The record of a use of the key now, where it is to be recorded.
    pub fn touch_last_used(&self) -> (r: Option<LastUsed>)
        ensures
            r matches Some(used) ==> self@.due(used.at) && used.org_uuid@ == self@.org_uuid
                && used.uuid.0@ == self@.uuid,
            self@.last_used_at is None ==> r is Some,
    {
        let now = utc_now();
        self.touch_at(now)
    }

    /// Enables or disables the key at `now`, without touching its digest.
    pub fn set_enabled_at(&mut self, enabled: bool, now: Timestamp)
        ensures
            final(self)@ == (ScimApiKeyView { enabled, revision_date: now, ..old(self)@ }),
    {
        self.enabled = enabled;
        self.revision_date = now;
    }

    /// Enables or disables the key now: a reversible kill switch.
    pub fn set_enabled(&mut self, enabled: bool)
        ensures
            final(self)@ == (ScimApiKeyView {
                enabled,
                revision_date: final(self).revision_date,
                ..old(self)@
            }),
    {
        let now = utc_now();
        self.set_enabled_at(enabled, now)
    }

    /// Whether a secret is the key's. Its digest is compared with the stored one by
    /// [`ct_eq`], which does not stop at a difference.
    pub fn check_valid_secret(&self, secret: &str) -> (r: bool)
        ensures
            r == self@.accepts(secret@),
    {
        match sha256_hex(secret) {
            Some(hash) => ct_eq(self.key_hash.as_str(), hash.as_str()),
            None => false,
        }
    }

    /// The key of an organization, where there is one and it is enabled.
    pub fn find_active_by_org(found: Option<ScimApiKey>) -> (r: Option<ScimApiKey>)
        ensures
            match found {
                Some(key) => if key.enabled {
                    r == Some(key)
                } else {
                    r is None
                },
                None => r is None,
            },
    {
        match found {
            Some(key) => if key.enabled {
                Some(key)
            } else {
                None
            },
            None => None,
        }
    }
}

// ---------------------------------------------------------------------------
// Saving a key
// ---------------------------------------------------------------------------

/// How a database replaces a row.
#[derive(Clone, Copy, Debug, PartialEq, Eq, Structural)]
pub enum Backend {
    /// By deleting the old row and inserting the new one.
    Replacing,
    /// By updating the old row where the insertion conflicts.
    Upserting,
}

/// A write of a key. Every column of the key is written, the id included, so that the stored
/// row does not depend on the database.
#[derive(Debug, PartialEq, Eq)]
pub enum KeyCommand {
    /// Replace the row of the key's organization.
    Replace(ScimApiKey),
    /// Update the row of the key's organization. The row is found by the organization and not
    /// by the id, which is a fresh one whenever a key is made.
    UpdateByOrg(ScimApiKey),
    /// Insert the row, or update the row of the key's organization.
    UpsertByOrg(ScimApiKey),
}

/// The mathematical counterpart of [`KeyCommand`].
pub ghost enum KeyCommandView {
    Replace(ScimApiKeyView),
    UpdateByOrg(ScimApiKeyView),
    UpsertByOrg(ScimApiKeyView),
}

impl View for KeyCommand {
    type V = KeyCommandView;

    open spec fn view(&self) -> KeyCommandView {
        match self {
            KeyCommand::Replace(key) => KeyCommandView::Replace(key@),
            KeyCommand::UpdateByOrg(key) => KeyCommandView::UpdateByOrg(key@),
            KeyCommand::UpsertByOrg(key) => KeyCommandView::UpsertByOrg(key@),
        }
    }
}

impl KeyCommandView {
    /// The row that is written.
    pub open spec fn row(self) -> ScimApiKeyView {
        match self {
            KeyCommandView::Replace(key) => key,
            KeyCommandView::UpdateByOrg(key) => key,
            KeyCommandView::UpsertByOrg(key) => key,
        }
    }
}

/// What came of a write.
#[derive(Clone, Copy, Debug, PartialEq, Eq, Structural)]
pub enum KeyReply {
    /// How many rows were written.
    Written(usize),
    /// The old row could not be deleted, because others refer to it.
    ForeignKeyViolation,
    Failed,
}

/// Why a key was not saved.
#[derive(Clone, Copy, Debug, PartialEq, Eq, Structural)]
pub enum KeyError {
    /// No row was written, so that no stored digest could ever match the token.
    NotFound,
    Database,
}

/// Either another write, or the end.
#[derive(Debug, PartialEq, Eq)]
pub enum KeyStep {
    Ask(KeyCommand),
    Done(Result<(), KeyError>),
}

/// The mathematical counterpart of [`KeyStep`].
pub ghost enum KeyStepView {
    Ask(KeyCommandView),
    Done(Result<(), KeyError>),
}

impl View for KeyStep {
    type V = KeyStepView;

    open spec fn view(&self) -> KeyStepView {
        match self {
            KeyStep::Ask(command) => KeyStepView::Ask(command@),
            KeyStep::Done(result) => KeyStepView::Done(*result),
        }
    }
}

/// The first write of saving a key.
pub open spec fn first_write(backend: Backend, key: ScimApiKeyView) -> KeyCommandView {
    match backend {
        Backend::Replacing => KeyCommandView::Replace(key),
        Backend::Upserting => KeyCommandView::UpsertByOrg(key),
    }
}

/// What follows a write: where the old row could not be deleted, it is updated with the same
/// key.
pub open spec fn next_write(command: KeyCommandView, reply: KeyReply) -> KeyStepView {
    match (command, reply) {
        (KeyCommandView::UpdateByOrg(_), KeyReply::Written(rows)) => if rows == 0 {
            KeyStepView::Done(Err(KeyError::NotFound))
        } else {
            KeyStepView::Done(Ok(()))
        },
        (_, KeyReply::Written(_)) => KeyStepView::Done(Ok(())),
        (KeyCommandView::Replace(key), KeyReply::ForeignKeyViolation) => KeyStepView::Ask(
            KeyCommandView::UpdateByOrg(key),
        ),
        _ => KeyStepView::Done(Err(KeyError::Database)),
    }
}

impl ScimApiKey {
    /// Starts saving the key, in the place of the organization's former one.
    pub fn save(&self, backend: Backend) -> (r: KeyCommand)
        ensures
            r@ == first_write(backend, self@),
            r@.row() == self@,
    {
        match backend {
            Backend::Replacing => KeyCommand::Replace(self.copy()),
            Backend::Upserting => KeyCommand::UpsertByOrg(self.copy()),
        }
    }

    /// Goes on after a write.
    pub fn save_next(command: KeyCommand, reply: KeyReply) -> (r: KeyStep)
        ensures
            r@ == next_write(command@, reply),
            r@ matches KeyStepView::Ask(next) ==> next.row() == command@.row(),
    {
        match (command, reply) {
            (KeyCommand::UpdateByOrg(_), KeyReply::Written(rows)) => if rows == 0 {
                KeyStep::Done(Err(KeyError::NotFound))
            } else {
                KeyStep::Done(Ok(()))
            },
            (_, KeyReply::Written(_)) => KeyStep::Done(Ok(())),
            (KeyCommand::Replace(key), KeyReply::ForeignKeyViolation) => KeyStep::Ask(
                KeyCommand::UpdateByOrg(key),
            ),
            _ => KeyStep::Done(Err(KeyError::Database)),
        }
    }
}

/// The keys of all organizations: at most one each.
pub type KeyTable = Map<Seq<char>, ScimApiKeyView>;

/// What a database does with a write of a key.
pub open spec fn executed(
    before: KeyTable,
    command: KeyCommandView,
    reply: KeyReply,
    after: KeyTable,
) -> bool {
    let row = command.row();
    match reply {
        KeyReply::Written(rows) => if command is UpdateByOrg && !before.contains_key(row.org_uuid) {
            rows == 0 && after == before
        } else {
            rows > 0 && after == before.insert(row.org_uuid, row)
        },
        _ => after == before,
    }
}

/// Saving a key puts it in the place of the organization's former key, whole, or leaves the
/// former key as it was: there is never a success without the new key, nor a failure
/// without the old one.
pub proof fn law_saving_replaces_or_keeps_the_key(
    backend: Backend,
    key: ScimApiKeyView,
    first: KeyReply,
    second: KeyReply,
    before: KeyTable,
    between: KeyTable,
    after: KeyTable,
)
    requires
        executed(before, first_write(backend, key), first, between),
    ensures
        match next_write(first_write(backend, key), first) {
            KeyStepView::Done(Ok(_)) => between == before.insert(key.org_uuid, key),
            KeyStepView::Done(Err(_)) => between == before,
            KeyStepView::Ask(command) => executed(between, command, second, after) ==> (
            match next_write(command, second) {
                KeyStepView::Done(Ok(_)) => after == before.insert(key.org_uuid, key),
                KeyStepView::Done(Err(_)) => after == before,
                KeyStepView::Ask(_) => false,
            }),
        },
{
}

/// A use is recorded at most once per resolution: right after a recorded use, and until the
/// resolution has passed, nothing is due.
pub proof fn law_uses_are_recorded_sparsely(key: ScimApiKeyView, used: Timestamp, now: Timestamp)
    requires
        key.last_used_at == Some(used),
    ensures
        key.due(now) <==> now.total_nanos() >= used.total_nanos() + LAST_USED_RESOLUTION_SECONDS
            * 1_000_000_000,
{
}

/// Disabling a key is reversible: enabling it again gives back a key that accepts the same
/// secrets.
pub proof fn law_disabling_is_reversible(
    key: ScimApiKeyView,
    secret: Seq<char>,
    then: Timestamp,
    now: Timestamp,
)
    ensures
        ({
            let disabled = ScimApiKeyView { enabled: false, revision_date: then, ..key };
            let enabled = ScimApiKeyView { enabled: true, revision_date: now, ..disabled };
            enabled.accepts(secret) == key.accepts(secret)
        }),
{
}

} // verus!
