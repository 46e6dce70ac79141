//! `au configure`: storing and deleting provider credentials.

use vstd::prelude::*;

verus! {

/// The arguments of `au configure`.
#[derive(Debug, Clone)]
pub struct ConfigureArgs {
    /// Provider to configure.
    pub provider: Option<String>,
    /// Credential to store, given on the command line.
    pub key: Option<String>,
    /// Delete the provider's stored credential.
    pub delete: bool,
}

/// What `au configure` does.
#[derive(Debug, Clone)]
pub enum ConfigureAction {
    /// Store `key` for the provider.
    Store { provider_id: String, key: String },
    /// Delete the provider's credential.
    Delete { provider_id: String },
    /// Let the user pick a provider, then prompt for its credential.
    Interactive,
    /// Prompt for the provider's credential.
    Prompt { provider_id: String },
}

/// Arguments that `au configure` refuses.
#[derive(Debug, Clone, Copy, PartialEq, Eq, Structural)]
pub enum ConfigureError {
    InvalidArguments,
}

impl ConfigureError {
    /// The message that reports the refused arguments.
    pub open spec fn spec_message(self) -> Seq<char> {
        "invalid arguments: use --provider and --key together, or --provider and --delete"@
    }

    pub fn message(&self) -> (r: &'static str)
        ensures
            r@ == self.spec_message(),
    {
        "invalid arguments: use --provider and --key together, or --provider and --delete"
    }
}

/// The action for a set of arguments: `--provider` with `--key` stores,
/// `--provider` with `--delete` deletes, `--provider` alone prompts, nothing
/// at all runs the interactive wizard; anything else is refused.
pub fn configure_action(args: ConfigureArgs) -> (r: Result<ConfigureAction, ConfigureError>)
    ensures
        match (args.provider, args.key, args.delete) {
            (Some(p), Some(k), false) => r matches Ok(ConfigureAction::Store { provider_id, key })
                && provider_id@ == p@ && key@ == k@,
            (Some(p), None, true) => r matches Ok(ConfigureAction::Delete { provider_id })
                && provider_id@ == p@,
            (None, None, false) => r matches Ok(ConfigureAction::Interactive),
            (Some(p), None, false) => r matches Ok(ConfigureAction::Prompt { provider_id })
                && provider_id@ == p@,
            _ => r == Err::<ConfigureAction, ConfigureError>(ConfigureError::InvalidArguments),
        },
{
    match (args.provider, args.key, args.delete) {
        (Some(provider_id), Some(key), false) => Ok(ConfigureAction::Store { provider_id, key }),
        (Some(provider_id), None, true) => Ok(ConfigureAction::Delete { provider_id }),
        (None, None, false) => Ok(ConfigureAction::Interactive),
        (Some(provider_id), None, false) => Ok(ConfigureAction::Prompt { provider_id }),
        _ => Err(ConfigureError::InvalidArguments),
    }
}

/// The prompt for a provider's credential; where one is stored already, a
/// blank answer keeps it.
pub open spec fn spec_credential_prompt(provider_id: Seq<char>, existing: bool) -> Seq<char> {
    if existing {
        "New credential for '"@ + provider_id + "' (leave blank to keep existing)"@
    } else {
        "Credential for '"@ + provider_id + "'"@
    }
}

/// The prompt for a provider's credential (see `spec_credential_prompt`).
pub fn credential_prompt(provider_id: &str, existing: bool) -> (r: String)
    ensures
        r@ == spec_credential_prompt(provider_id@, existing),
{
    if existing {
        let mut r = String::from_str("New credential for '");
        r.append(provider_id);
        r.append("' (leave blank to keep existing)");
        r
    } else {
        let mut r = String::from_str("Credential for '");
        r.append(provider_id);
        r.append("'");
        r
    }
}

/// A provider's entry in the wizard's menu: its name, marked where a credential
/// is stored.
pub open spec fn spec_menu_label(name: Seq<char>, configured: bool) -> Seq<char> {
    if configured {
        name + " ✓"@
    } else {
        name
    }
}

/// A provider's entry in the wizard's menu (see `spec_menu_label`).
pub fn provider_menu_label(name: &str, configured: bool) -> (r: String)
    ensures
        r@ == spec_menu_label(name@, configured),
{
    let mut r = String::from_str(name);
    if configured {
        r.append(" ✓");
    }
    r
}

} // verus!
