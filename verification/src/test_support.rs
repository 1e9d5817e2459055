//! The environment that the server's own test suite runs in.
//!
//! Every setting that matters is pinned, so that a developer's shell cannot change what the
//! suite means. The variables are put in place by the caller.

use vstd::prelude::*;
use vstd::string::*;

use crate::text::{decimal, decimal_text, join2, text_eq, texts};

verus! {

/// An environment variable.
#[derive(Debug)]
pub struct EnvVar {
    pub name: String,
    pub value: String,
}

/// The mathematical counterpart of [`EnvVar`].
#[verifier::ext_equal]
pub ghost struct EnvVarView {
    pub name: Seq<char>,
    pub value: Seq<char>,
}

impl View for EnvVar {
    type V = EnvVarView;

    open spec fn view(&self) -> EnvVarView {
        EnvVarView { name: self.name@, value: self.value@ }
    }
}

/// The views of a list of variables.
pub open spec fn var_views(vars: Seq<EnvVar>) -> Seq<EnvVarView> {
    vars.map_values(|var: EnvVar| var@)
}

/// A variable with a value.
pub open spec fn var(name: Seq<char>, value: Seq<char>) -> EnvVarView {
    EnvVarView { name, value }
}

/// The variables of the suite.
pub open spec fn suite_vars(env_file: Seq<char>, data_folder: Seq<char>) -> Seq<EnvVarView> {
    Seq::empty().push(var("ENV_FILE"@, env_file)).push(var("DATA_FOLDER"@, data_folder)).push(
        var("DOMAIN"@, "http://localhost:8000"@),
    ).push(var("WEB_VAULT_ENABLED"@, "false"@)).push(var("SIGNUPS_ALLOWED"@, "true"@)).push(
        var("INVITATIONS_ALLOWED"@, "true"@),
    ).push(var("ORG_GROUPS_ENABLED"@, "true"@)).push(var("ORG_EVENTS_ENABLED"@, "true"@)).push(
        var("SCIM_ENABLED"@, "true"@),
    ).push(var("IP_HEADER_TRUSTED_PROXIES"@, "all"@)).push(
        var("SCIM_RATELIMIT_SECONDS"@, "1"@),
    ).push(var("SCIM_RATELIMIT_MAX_BURST"@, "10000"@)).push(
        var("LOGIN_RATELIMIT_MAX_BURST"@, "10000"@),
    ).push(var("LOGIN_RATELIMIT_SECONDS"@, "1"@)).push(var("SSO_ENABLED"@, "true"@)).push(
        var("SSO_AUTHORITY"@, "http://sso.invalid/realms/test"@),
    ).push(var("SSO_CLIENT_ID"@, "vaultwarden-test"@)).push(
        var("SSO_CLIENT_SECRET"@, "not-a-real-secret"@),
    ).push(var("SSO_SIGNUPS_MATCH_EMAIL"@, "false"@)).push(var("SSO_ONLY"@, "false"@))
}

/// The mail settings of the suite. The host is never contacted: it only makes mail count as
/// configured.
pub open spec fn mail_vars() -> Seq<EnvVarView> {
    Seq::empty().push(var("SMTP_HOST"@, "smtp.invalid"@)).push(
        var("SMTP_FROM"@, "vaultwarden-test@example.com"@),
    ).push(var("SMTP_FROM_NAME"@, "Vaultwarden Test"@)).push(var("SMTP_PORT"@, "25"@)).push(
        var("SMTP_SECURITY"@, "off"@),
    )
}

/// Whether the caller's value of a variable stands: it lets a second pass over the same
/// binary take the other branch.
pub open spec fn caller_may_override(name: Seq<char>) -> bool {
    name == "SSO_ONLY"@
}

/// The variables that are set, given those that the caller already has.
pub open spec fn pinned(vars: Seq<EnvVarView>, present: Seq<Seq<char>>) -> Seq<EnvVarView>
    decreases vars.len(),
{
    if vars.len() == 0 {
        Seq::empty()
    } else {
        let earlier = pinned(vars.drop_last(), present);
        if caller_may_override(vars.last().name) && present.contains(vars.last().name) {
            earlier
        } else {
            earlier.push(vars.last())
        }
    }
}

/// The variables to set, and those to remove.
#[derive(Debug)]
pub struct HermeticEnv {
    pub set: Vec<EnvVar>,
    pub unset: Vec<String>,
}

fn push_var(vars: &mut Vec<EnvVar>, name: &str, value: &str)
    ensures
        var_views(final(vars)@) == var_views(old(vars)@).push(var(name@, value@)),
{
    let ghost before = var_views(vars@);
    vars.push(EnvVar { name: name.to_owned(), value: value.to_owned() });
    assert(var_views(vars@) =~= before.push(var(name@, value@)));
}

fn pinned_vars(vars: Vec<EnvVar>, present: &Vec<String>) -> (r: Vec<EnvVar>)
    ensures
        var_views(r@) == pinned(var_views(vars@), texts(present@)),
{
    let ghost all = var_views(vars@);
    let mut r: Vec<EnvVar> = Vec::new();
    let mut i: usize = 0;
    assert(var_views(r@) =~= pinned(all.take(0), texts(present@)));
    while i < vars.len()
        invariant
            i <= vars.len(),
            all == var_views(vars@),
            var_views(r@) == pinned(all.take(i as int), texts(present@)),
        decreases vars.len() - i,
    {
        proof {
            assert(all.take(i + 1).drop_last() =~= all.take(i as int));
            assert(all.take(i + 1).last() == all[i as int]);
        }
        let overridden = text_eq(vars[i].name.as_str(), "SSO_ONLY") && crate::group::is_listed(
            present,
            &vars[i].name,
        );
        if !overridden {
            push_var(&mut r, vars[i].name.as_str(), vars[i].value.as_str());
        }
        i += 1;
    }
    assert(all.take(i as int) =~= all);
    r
}

/// What the suite's environment consists of. `present` are the names of the variables that
/// the caller already has.
///
/// The database URL is left alone: it is derived from the data folder.
pub fn init_hermetic_env(env_file: &str, data_folder: &str, present: &Vec<String>) -> (r:
    HermeticEnv)
    ensures
        var_views(r.set@) == pinned(suite_vars(env_file@, data_folder@), texts(present@))
            + mail_vars(),
        texts(r.unset@) == seq!["USE_SENDMAIL"@, "SENDMAIL_COMMAND"@],
{
    let mut vars: Vec<EnvVar> = Vec::new();
    assert(var_views(vars@) =~= Seq::empty());
    push_var(&mut vars, "ENV_FILE", env_file);
    push_var(&mut vars, "DATA_FOLDER", data_folder);
    push_var(&mut vars, "DOMAIN", "http://localhost:8000");
    push_var(&mut vars, "WEB_VAULT_ENABLED", "false");
    push_var(&mut vars, "SIGNUPS_ALLOWED", "true");
    push_var(&mut vars, "INVITATIONS_ALLOWED", "true");
    push_var(&mut vars, "ORG_GROUPS_ENABLED", "true");
    // Without events every audit-log call would be dead code in the suite.
    push_var(&mut vars, "ORG_EVENTS_ENABLED", "true");
    push_var(&mut vars, "SCIM_ENABLED", "true");
    // A local client presents no remote address, so its header has to be trusted for the
    // per-address tests to see different addresses.
    push_var(&mut vars, "IP_HEADER_TRUSTED_PROXIES", "all");
    push_var(&mut vars, "SCIM_RATELIMIT_SECONDS", "1");
    // High bursts, so that the shared limiters never trip ordinary tests.
    push_var(&mut vars, "SCIM_RATELIMIT_MAX_BURST", "10000");
    push_var(&mut vars, "LOGIN_RATELIMIT_MAX_BURST", "10000");
    push_var(&mut vars, "LOGIN_RATELIMIT_SECONDS", "1");
    // The authority is never contacted: it only has to satisfy validation.
    push_var(&mut vars, "SSO_ENABLED", "true");
    push_var(&mut vars, "SSO_AUTHORITY", "http://sso.invalid/realms/test");
    push_var(&mut vars, "SSO_CLIENT_ID", "vaultwarden-test");
    push_var(&mut vars, "SSO_CLIENT_SECRET", "not-a-real-secret");
    push_var(&mut vars, "SSO_SIGNUPS_MATCH_EMAIL", "false");
    push_var(&mut vars, "SSO_ONLY", "false");
    let mut set = pinned_vars(vars, present);
    let ghost kept = var_views(set@);
    push_var(&mut set, "SMTP_HOST", "smtp.invalid");
    push_var(&mut set, "SMTP_FROM", "vaultwarden-test@example.com");
    push_var(&mut set, "SMTP_FROM_NAME", "Vaultwarden Test");
    push_var(&mut set, "SMTP_PORT", "25");
    push_var(&mut set, "SMTP_SECURITY", "off");
    assert(var_views(set@) =~= kept + mail_vars());
    // A developer's real sendmail command must not win.
    let mut unset: Vec<String> = Vec::new();
    unset.push("USE_SENDMAIL".to_owned());
    unset.push("SENDMAIL_COMMAND".to_owned());
    assert(texts(unset@) =~= seq!["USE_SENDMAIL"@, "SENDMAIL_COMMAND"@]);
    HermeticEnv { set, unset }
}

/// The name of the directory that a process of the suite works in.
pub fn hermetic_dir(process_id: u32) -> (r: String)
    ensures
        r@ == "vaultwarden-test-"@ + decimal_text(process_id as nat),
{
    join2("vaultwarden-test-", decimal(process_id as u64).as_str())
}

/// A variable is left to the caller only where it is one that the caller may override, and
/// has: every other variable is pinned.
pub proof fn law_everything_else_is_pinned(
    vars: Seq<EnvVarView>,
    present: Seq<Seq<char>>,
    i: int,
)
    requires
        0 <= i < vars.len(),
    ensures
        caller_may_override(vars[i].name) && present.contains(vars[i].name) || pinned(
            vars,
            present,
        ).contains(vars[i]),
    decreases vars.len(),
{
    let rest = vars.drop_last();
    let earlier = pinned(rest, present);
    let whole = pinned(vars, present);
    if i < rest.len() {
        law_everything_else_is_pinned(rest, present, i);
        assert(rest[i] == vars[i]);
        if earlier.contains(vars[i]) {
            let j = choose|j: int| 0 <= j < earlier.len() && earlier[j] == vars[i];
            assert(whole[j] == vars[i]);
        }
    } else if whole != earlier {
        assert(whole[whole.len() - 1] == vars[i]);
    }
}

/// What is set is every variable in its order, but for those that are left to the caller:
/// the one switch of the second pass, where the caller has it.
pub proof fn law_what_is_pinned(vars: Seq<EnvVarView>, present: Seq<Seq<char>>)
    ensures
        pinned(vars, present) == vars.filter(
            |v: EnvVarView| !(v.name == "SSO_ONLY"@ && present.contains("SSO_ONLY"@)),
        ),
    decreases vars.len(),
{
    reveal(Seq::filter);
    if vars.len() > 0 {
        law_what_is_pinned(vars.drop_last(), present);
    }
}

/// The suite's variables point to the file and the folder they are given, and are otherwise
/// the same for every file and folder.
pub proof fn law_the_suite_is_the_same_everywhere(
    env_file: Seq<char>,
    data_folder: Seq<char>,
    other_file: Seq<char>,
    other_folder: Seq<char>,
)
    ensures
        suite_vars(env_file, data_folder)[0] == var("ENV_FILE"@, env_file),
        suite_vars(env_file, data_folder)[1] == var("DATA_FOLDER"@, data_folder),
        suite_vars(env_file, data_folder).skip(2) == suite_vars(other_file, other_folder).skip(2),
{
    assert(suite_vars(env_file, data_folder).skip(2) =~= suite_vars(
        other_file,
        other_folder,
    ).skip(2));
}

/// The suite runs with everything on that it tests, with limits that ordinary tests do not
/// reach, with an authority and a mail host that do not exist, and with nothing else set.
pub proof fn law_suite_settings(env_file: Seq<char>, data_folder: Seq<char>)
    ensures
        suite_vars(env_file, data_folder).len() == 20,
        mail_vars().len() == 5,
        suite_vars(env_file, data_folder).contains(var("DOMAIN"@, "http://localhost:8000"@)),
        suite_vars(env_file, data_folder).contains(var("WEB_VAULT_ENABLED"@, "false"@)),
        suite_vars(env_file, data_folder).contains(var("SIGNUPS_ALLOWED"@, "true"@)),
        suite_vars(env_file, data_folder).contains(var("INVITATIONS_ALLOWED"@, "true"@)),
        suite_vars(env_file, data_folder).contains(var("ORG_GROUPS_ENABLED"@, "true"@)),
        suite_vars(env_file, data_folder).contains(var("ORG_EVENTS_ENABLED"@, "true"@)),
        suite_vars(env_file, data_folder).contains(var("SCIM_ENABLED"@, "true"@)),
        suite_vars(env_file, data_folder).contains(var("IP_HEADER_TRUSTED_PROXIES"@, "all"@)),
        suite_vars(env_file, data_folder).contains(var("SCIM_RATELIMIT_SECONDS"@, "1"@)),
        suite_vars(env_file, data_folder).contains(var("SCIM_RATELIMIT_MAX_BURST"@, "10000"@)),
        suite_vars(env_file, data_folder).contains(var("LOGIN_RATELIMIT_MAX_BURST"@, "10000"@)),
        suite_vars(env_file, data_folder).contains(var("LOGIN_RATELIMIT_SECONDS"@, "1"@)),
        suite_vars(env_file, data_folder).contains(var("SSO_ENABLED"@, "true"@)),
        suite_vars(env_file, data_folder).contains(var("SSO_AUTHORITY"@, "http://sso.invalid/realms/test"@)),
        suite_vars(env_file, data_folder).contains(var("SSO_CLIENT_ID"@, "vaultwarden-test"@)),
        suite_vars(env_file, data_folder).contains(var("SSO_CLIENT_SECRET"@, "not-a-real-secret"@)),
        suite_vars(env_file, data_folder).contains(var("SSO_SIGNUPS_MATCH_EMAIL"@, "false"@)),
        suite_vars(env_file, data_folder).contains(var("SSO_ONLY"@, "false"@)),
        mail_vars().contains(var("SMTP_HOST"@, "smtp.invalid"@)),
        mail_vars().contains(var("SMTP_FROM"@, "vaultwarden-test@example.com"@)),
        mail_vars().contains(var("SMTP_FROM_NAME"@, "Vaultwarden Test"@)),
        mail_vars().contains(var("SMTP_PORT"@, "25"@)),
        mail_vars().contains(var("SMTP_SECURITY"@, "off"@)),
{
    let all = suite_vars(env_file, data_folder);
    assert(all[2] == var("DOMAIN"@, "http://localhost:8000"@));
    assert(all[3] == var("WEB_VAULT_ENABLED"@, "false"@));
    assert(all[4] == var("SIGNUPS_ALLOWED"@, "true"@));
    assert(all[5] == var("INVITATIONS_ALLOWED"@, "true"@));
    assert(all[6] == var("ORG_GROUPS_ENABLED"@, "true"@));
    assert(all[7] == var("ORG_EVENTS_ENABLED"@, "true"@));
    assert(all[8] == var("SCIM_ENABLED"@, "true"@));
    assert(all[9] == var("IP_HEADER_TRUSTED_PROXIES"@, "all"@));
    assert(all[10] == var("SCIM_RATELIMIT_SECONDS"@, "1"@));
    assert(all[11] == var("SCIM_RATELIMIT_MAX_BURST"@, "10000"@));
    assert(all[12] == var("LOGIN_RATELIMIT_MAX_BURST"@, "10000"@));
    assert(all[13] == var("LOGIN_RATELIMIT_SECONDS"@, "1"@));
    assert(all[14] == var("SSO_ENABLED"@, "true"@));
    assert(all[15] == var("SSO_AUTHORITY"@, "http://sso.invalid/realms/test"@));
    assert(all[16] == var("SSO_CLIENT_ID"@, "vaultwarden-test"@));
    assert(all[17] == var("SSO_CLIENT_SECRET"@, "not-a-real-secret"@));
    assert(all[18] == var("SSO_SIGNUPS_MATCH_EMAIL"@, "false"@));
    assert(all[19] == var("SSO_ONLY"@, "false"@));
    assert(mail_vars()[0] == var("SMTP_HOST"@, "smtp.invalid"@));
    assert(mail_vars()[1] == var("SMTP_FROM"@, "vaultwarden-test@example.com"@));
    assert(mail_vars()[2] == var("SMTP_FROM_NAME"@, "Vaultwarden Test"@));
    assert(mail_vars()[3] == var("SMTP_PORT"@, "25"@));
    assert(mail_vars()[4] == var("SMTP_SECURITY"@, "off"@));
}

} // verus!
