//! The failures a vault operation can report.
use vstd::prelude::*;
use vstd::string::*;

verus! {

/// Why a vault operation did not succeed.
#[derive(Clone, Copy, Debug, PartialEq, Eq, Structural)]
pub enum VaultError {
    /// No configuration record exists yet.
    NotInitialized,
    /// A configuration record exists already.
    AlreadyInitialized,
    /// The operation needs the session key and none is loaded.
    Locked,
    /// The key check or the seal of a backup did not verify.
    BadMasterPassword,
    /// A ciphertext is malformed, does not verify, or does not decode.
    Crypto,
    /// No entry has the requested id.
    NotFound,
    /// The entry table cannot take the change.
    Storage,
}

impl VaultError {
    /// The text of the message for each failure.
    pub open spec fn message_text(self) -> Seq<char> {
        match self {
            VaultError::NotInitialized => "vault not initialized with a master password"@,
            VaultError::AlreadyInitialized => "vault already initialized"@,
            VaultError::Locked => "vault is locked"@,
            VaultError::BadMasterPassword => "invalid master password"@,
            VaultError::Crypto => "crypto error"@,
            VaultError::NotFound => "entry not found"@,
            VaultError::Storage => "storage error"@,
        }
    }

    /// A human-readable message for this failure.
    pub fn message(&self) -> (text: String)
        ensures
            text@ == self.message_text(),
    {
        match self {
            VaultError::NotInitialized => String::from_str(
                "vault not initialized with a master password",
            ),
            VaultError::AlreadyInitialized => String::from_str("vault already initialized"),
            VaultError::Locked => String::from_str("vault is locked"),
            VaultError::BadMasterPassword => String::from_str("invalid master password"),
            VaultError::Crypto => String::from_str("crypto error"),
            VaultError::NotFound => String::from_str("entry not found"),
            VaultError::Storage => String::from_str("storage error"),
        }
    }
}

/// The text that the user interface shows for each failure.
pub open spec fn ui_text(e: VaultError) -> Seq<char> {
    match e {
        VaultError::Locked => "Хранилище заблокировано — разблокируй мастер-паролем"@,
        VaultError::BadMasterPassword => "Неверный мастер-пароль или чужой бэкап"@,
        VaultError::NotInitialized => "Хранилище не инициализировано"@,
        other => other.message_text(),
    }
}

/// The message that the user interface shows for a failure. A locked vault,
/// a wrong master password and a vault that is not initialized call for
/// different actions of the user, so each has a text of its own; every other
/// failure shows its plain message.
pub fn err_ui(e: VaultError) -> (text: String)
    ensures
        text@ == ui_text(e),
{
    match e {
        VaultError::Locked => String::from_str(
            "Хранилище заблокировано — разблокируй мастер-паролем",
        ),
        VaultError::BadMasterPassword => String::from_str("Неверный мастер-пароль или чужой бэкап"),
        VaultError::NotInitialized => String::from_str("Хранилище не инициализировано"),
        other => other.message(),
    }
}

} // verus!
