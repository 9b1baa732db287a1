//! Which accounts the program starts with.

use vstd::prelude::*;

use crate::signaling::config::{
    account_of, load_config, load_config_from_env, overridden, raw_nothing, AccountView, EnvVars,
    RawConfig, SipAccountConfig,
};
use crate::text::{blank, copy_text, is_blank, trimmed};

verus! {

/// An account with a name: one without is called "Default".
pub open spec fn named(account: AccountView) -> AccountView {
    if is_blank(account.name) {
        AccountView { name: "Default"@, ..account }
    } else {
        account
    }
}

/// The account of a program that knew only one: from the environment, or from
/// the file that it was kept in, if that can be read.
pub open spec fn single_account(file: Option<RawConfig>, env: EnvVars) -> Option<AccountView> {
    match account_of(overridden(raw_nothing(), env)) {
        Ok(account) => Some(named(account)),
        Err(_) => match file {
            Some(raw) => match account_of(overridden(raw@, env)) {
                Ok(account) => Some(named(account)),
                Err(_) => None,
            },
            None => None,
        },
    }
}

/// The accounts to start with, and whether they have to be saved.
#[derive(Debug)]
pub struct Startup {
    pub accounts: Vec<SipAccountConfig>,
    /// Whether the account was taken over from a program that knew only one.
    pub migrated: bool,
}

/// The accounts to start with: those that were saved, or, where none were ever
/// saved, the one of a program that knew only one. A file without accounts that
/// can be read counts as saved, and as empty.
pub fn load_accounts(
    saved: Option<Vec<SipAccountConfig>>,
    file: Option<RawConfig>,
    env: &EnvVars,
) -> (r: Startup)
    ensures
        match saved {
            Some(accounts) => r.accounts == accounts && !r.migrated,
            None => match single_account(file, *env) {
                Some(account) => r.migrated && r.accounts@.len() == 1 && r.accounts@[0]@ == account,
                None => !r.migrated && r.accounts@.len() == 0,
            },
        },
{
    match saved {
        Some(accounts) => {
            return Startup { accounts, migrated: false };
        },
        None => {},
    }
    let found: Option<SipAccountConfig> = match load_config_from_env(env) {
        Ok(config) => Some(config),
        Err(_) => match file {
            Some(raw) => match load_config(raw, env) {
                Ok(config) => Some(config),
                Err(_) => None,
            },
            None => None,
        },
    };
    let mut accounts: Vec<SipAccountConfig> = Vec::new();
    match found {
        Some(mut config) => {
            if blank(config.name.as_str()) {
                config.name = copy_text("Default");
            }
            accounts.push(config);
            Startup { accounts, migrated: true }
        },
        None => Startup { accounts, migrated: false },
    }
}

/// The account of a program that knew only one is taken from the environment if
/// that names all it needs, and from its file, with the environment winning over
/// it, otherwise. It keeps its name, and is called "Default" without one. There is
/// none where neither names all that is needed.
pub proof fn environment_comes_before_the_file(
    raw: RawConfig,
    file: Option<RawConfig>,
    env: EnvVars,
    account: AccountView,
)
    ensures
        account_of(overridden(raw_nothing(), env)) == Ok::<AccountView, Seq<char>>(account)
            ==> single_account(file, env) == Some(
            AccountView {
                name: if trimmed(account.name).len() == 0 {
                    seq!['D', 'e', 'f', 'a', 'u', 'l', 't']
                } else {
                    account.name
                },
                ..account
            },
        ),
        account_of(overridden(raw_nothing(), env)) is Err && account_of(overridden(raw@, env))
            == Ok::<AccountView, Seq<char>>(account) ==> single_account(Some(raw), env) == Some(
            AccountView {
                name: if trimmed(account.name).len() == 0 {
                    seq!['D', 'e', 'f', 'a', 'u', 'l', 't']
                } else {
                    account.name
                },
                ..account
            },
        ),
        account_of(overridden(raw_nothing(), env)) is Err ==> single_account(None, env) is None,
        account_of(overridden(raw_nothing(), env)) is Err && account_of(overridden(raw@, env)) is Err
            ==> single_account(Some(raw), env) is None,
        raw_nothing().sip_server_host is None && raw_nothing().username is None
            && raw_nothing().password is None && raw_nothing().sip_server_port is None
            && raw_nothing().transport is None && raw_nothing().register_expires is None,
{
    reveal_strlit("Default");
    assert("Default"@ =~= seq!['D', 'e', 'f', 'a', 'u', 'l', 't']);
    crate::text::blank_iff_trimmed_empty(account.name);
}

} // verus!
