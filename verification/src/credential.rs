//! Provider credentials kept in the OS keyring, under the service
//! "agentusage" and the provider's id as account (the host API's keychain reads
//! the same entries).
//!
//! The keyring itself is reached by the program around this library; these
//! functions decide what each keyring answer means.

use vstd::prelude::*;

verus! {

/// The keyring service under which credentials are kept.
pub fn keyring_service() -> (r: &'static str)
    ensures
        r@ == "agentusage"@,
{
    "agentusage"
}

/// What a keyring call came back with.
#[derive(Debug, Clone)]
pub enum KeyringOutcome<T> {
    /// The call succeeded.
    Done(T),
    /// The keyring holds no such entry.
    NoEntry,
    /// Any other failure, with its text.
    Failed(String),
}

/// Which credential operation failed.
#[derive(Debug, Clone, Copy, PartialEq, Eq, Structural)]
pub enum CredentialOp {
    OpenEntry,
    Store,
    Read,
    Delete,
}

/// A failed credential operation, for one provider, with the keyring's text.
#[derive(Debug, Clone)]
pub struct CredentialError {
    pub op: CredentialOp,
    pub provider_id: String,
    pub detail: String,
}

fn credential_error(op: CredentialOp, provider_id: &str, detail: String) -> (r: CredentialError)
    ensures
        r.op == op,
        r.provider_id@ == provider_id@,
        r.detail@ == detail@,
{
    CredentialError { op, provider_id: String::from_str(provider_id), detail }
}

/// The result of storing a credential: any failure is an error.
pub fn store_result(provider_id: &str, outcome: KeyringOutcome<()>) -> (r: Result<(), CredentialError>)
    ensures
        match outcome {
            KeyringOutcome::Done(_) => r is Ok,
            KeyringOutcome::NoEntry => r matches Err(e) && e.op == CredentialOp::Store
                && e.provider_id@ == provider_id@ && e.detail@ == "no entry"@,
            KeyringOutcome::Failed(d) => r matches Err(e) && e.op == CredentialOp::Store
                && e.provider_id@ == provider_id@ && e.detail@ == d@,
        },
{
    match outcome {
        KeyringOutcome::Done(_) => Ok(()),
        KeyringOutcome::NoEntry => Err(
            credential_error(CredentialOp::Store, provider_id, String::from_str("no entry")),
        ),
        KeyringOutcome::Failed(d) => Err(credential_error(CredentialOp::Store, provider_id, d)),
    }
}

/// The result of reading a credential: the password, `None` where the keyring
/// holds no entry, an error otherwise.
pub fn read_result(provider_id: &str, outcome: KeyringOutcome<String>) -> (r: Result<
    Option<String>,
    CredentialError,
>)
    ensures
        match outcome {
            KeyringOutcome::Done(p) => r matches Ok(Some(q)) && q@ == p@,
            KeyringOutcome::NoEntry => r matches Ok(None),
            KeyringOutcome::Failed(d) => r matches Err(e) && e.op == CredentialOp::Read
                && e.provider_id@ == provider_id@ && e.detail@ == d@,
        },
{
    match outcome {
        KeyringOutcome::Done(p) => Ok(Some(p)),
        KeyringOutcome::NoEntry => Ok(None),
        KeyringOutcome::Failed(d) => Err(credential_error(CredentialOp::Read, provider_id, d)),
    }
}

/// The result of deleting a credential: a missing entry is already gone.
pub fn delete_result(provider_id: &str, outcome: KeyringOutcome<()>) -> (r: Result<(), CredentialError>)
    ensures
        match outcome {
            KeyringOutcome::Failed(d) => r matches Err(e) && e.op == CredentialOp::Delete
                && e.provider_id@ == provider_id@ && e.detail@ == d@,
            _ => r is Ok,
        },
{
    match outcome {
        KeyringOutcome::Failed(d) => Err(credential_error(CredentialOp::Delete, provider_id, d)),
        _ => Ok(()),
    }
}

/// A credential exists where reading it gave a password.
pub fn credential_exists(read: &Result<Option<String>, CredentialError>) -> (r: bool)
    ensures
        r == (read matches Ok(Some(_))),
{
    match read {
        Ok(Some(_)) => true,
        _ => false,
    }
}

} // verus!
