//! Secrets in the OS keychain.
//!
//! Two services keep concerns apart: `vaelorium-sync`/`backup` holds the
//! app-global backup passphrase; `vaelorium-cloud` holds the cloud session
//! (device token, account key, KDF salt, email, tier). When the platform
//! has no usable keychain, cloud entries go to an in-memory fallback for
//! the life of the process instead.

use vstd::prelude::*;

use crate::fields::{names, value_view, FieldMap};
use crate::text::{chars_of, concat, owned, string_of};

verus! {

pub const SERVICE: &'static str = "vaelorium-sync";

pub const BACKUP_KEY: &'static str = "backup";

pub const CLOUD_SERVICE: &'static str = "vaelorium-cloud";

pub const CLOUD_KEY_DEVICE_TOKEN: &'static str = "device-token";

pub const CLOUD_KEY_ACCOUNT_KEY: &'static str = "account-key";

pub const CLOUD_KEY_KDF_SALT: &'static str = "kdf-salt";

pub const CLOUD_KEY_EMAIL: &'static str = "email";

pub const CLOUD_KEY_TIER: &'static str = "tier";

/// The cached usage snapshot of the cloud account.
pub const CLOUD_KEY_USAGE: &'static str = "usage";

/// Why a keychain operation failed.
#[derive(Debug)]
pub enum KeychainError {
    Unavailable(String),
    NotFound,
}

impl KeychainError {
    /// The error as text.
    pub fn describe(&self) -> (r: String)
        ensures
            r@ == match self {
                KeychainError::Unavailable(m) => "keychain unavailable: "@ + m@,
                KeychainError::NotFound => "keychain entry not found"@,
            },
    {
        match self {
            KeychainError::Unavailable(m) => string_of(&concat(&chars_of("keychain unavailable: "), &chars_of(m.as_str()))),
            KeychainError::NotFound => owned("keychain entry not found"),
        }
    }
}

/// How a platform keychain call failed: no such entry, or anything else
/// with its text.
pub enum KeyringFailure {
    NoEntry,
    Other(String),
}

/// `keyring::Entry::new(service, user)` then `set_password(secret)`. What
/// the platform store does is outside this library; nothing is promised.
#[verifier::external_body]
pub(crate) fn os_secret_set(service: &str, user: &str, secret: &str) -> (r: Result<(), KeyringFailure>) {
    let entry = keyring::Entry::new(service, user).map_err(|e| KeyringFailure::Other(e.to_string()))?;
    entry.set_password(secret).map_err(|e| KeyringFailure::Other(e.to_string()))
}

/// `keyring::Entry::new(service, user)` then `get_password()`, with the
/// crate's `NoEntry` kept apart. Nothing is promised of the outcome.
#[verifier::external_body]
fn os_secret_get(service: &str, user: &str) -> (r: Result<String, KeyringFailure>) {
    let entry = keyring::Entry::new(service, user).map_err(|e| KeyringFailure::Other(e.to_string()))?;
    match entry.get_password() {
        Ok(p) => Ok(p),
        Err(keyring::Error::NoEntry) => Err(KeyringFailure::NoEntry),
        Err(e) => Err(KeyringFailure::Other(e.to_string())),
    }
}

/// `keyring::Entry::new(service, user)` then `delete_credential()`, with
/// the crate's `NoEntry` kept apart. Nothing is promised of the outcome.
#[verifier::external_body]
fn os_secret_delete(service: &str, user: &str) -> (r: Result<(), KeyringFailure>) {
    let entry = keyring::Entry::new(service, user).map_err(|e| KeyringFailure::Other(e.to_string()))?;
    match entry.delete_credential() {
        Ok(()) => Ok(()),
        Err(keyring::Error::NoEntry) => Err(KeyringFailure::NoEntry),
        Err(e) => Err(KeyringFailure::Other(e.to_string())),
    }
}

/// The text of a keychain failure: what `keyring` displays for a missing
/// entry, or the failure's own text.
fn failure_text(f: KeyringFailure) -> (r: String)
    ensures
        r@ == match f {
            KeyringFailure::NoEntry => "No matching entry found in secure storage"@,
            KeyringFailure::Other(m) => m@,
        },
{
    match f {
        KeyringFailure::NoEntry => owned("No matching entry found in secure storage"),
        KeyringFailure::Other(m) => m,
    }
}

// ---------------------------------------------------------------------------
// Backup passphrase
// ---------------------------------------------------------------------------

/// Persist the backup passphrase, replacing any stored one. A failure is
/// reported as the keychain being unavailable.
pub fn store(passphrase: &str) -> (r: Result<(), KeychainError>)
    ensures
        r matches Err(e) ==> e is Unavailable,
{
    match os_secret_set(SERVICE, BACKUP_KEY, passphrase) {
        Ok(()) => Ok(()),
        Err(f) => Err(KeychainError::Unavailable(failure_text(f))),
    }
}

/// What a keychain read of the backup passphrase gives: the passphrase; no
/// entry is `Ok(None)`; any other failure is the keychain being
/// unavailable, with its text.
pub fn passphrase_of(o: Result<String, KeyringFailure>) -> (r: Result<Option<String>, KeychainError>)
    ensures
        match o {
            Ok(p) => r matches Ok(Some(q)) && q@ == p@,
            Err(KeyringFailure::NoEntry) => r matches Ok(None),
            Err(KeyringFailure::Other(m)) => r matches Err(KeychainError::Unavailable(x)) && x@ == m@,
        },
{
    match o {
        Ok(p) => Ok(Some(p)),
        Err(KeyringFailure::NoEntry) => Ok(None),
        Err(KeyringFailure::Other(m)) => Err(KeychainError::Unavailable(m)),
    }
}

/// The stored backup passphrase; `Ok(None)` when there is none. What the
/// platform store holds is outside this library: the keychain's answer is
/// read by `passphrase_of`.
pub fn retrieve() -> (r: Result<Option<String>, KeychainError>)
    ensures
        r matches Err(e) ==> e is Unavailable,
{
    passphrase_of(os_secret_get(SERVICE, BACKUP_KEY))
}

/// What a keychain removal gives: success, also when there was no entry;
/// any other failure is the keychain being unavailable, with its text.
pub fn deletion_of(o: Result<(), KeyringFailure>) -> (r: Result<(), KeychainError>)
    ensures
        match o {
            Ok(()) => r is Ok,
            Err(KeyringFailure::NoEntry) => r is Ok,
            Err(KeyringFailure::Other(m)) => r matches Err(KeychainError::Unavailable(x)) && x@ == m@,
        },
{
    match o {
        Ok(()) => Ok(()),
        Err(KeyringFailure::NoEntry) => Ok(()),
        Err(KeyringFailure::Other(m)) => Err(KeychainError::Unavailable(m)),
    }
}

/// Remove the stored backup passphrase; a missing entry is success (see
/// `deletion_of`).
pub fn delete() -> (r: Result<(), KeychainError>)
    ensures
        r matches Err(e) ==> e is Unavailable,
{
    deletion_of(os_secret_delete(SERVICE, BACKUP_KEY))
}

// ---------------------------------------------------------------------------
// Cloud session
// ---------------------------------------------------------------------------

/// The in-memory store of cloud entries used while the platform keychain
/// is unavailable.
pub struct CloudFallback {
    entries: FieldMap,
}

impl CloudFallback {
    pub closed spec fn wf(&self) -> bool {
        &&& self.entries.wf()
        &&& forall|k: Seq<char>| #[trigger] self.entries@.dom().contains(k) ==> self.entries@[k] is Some
    }

    /// The entries, key to value.
    pub closed spec fn view(&self) -> Map<Seq<char>, Seq<char>> {
        self.entries@.map_values(|v: Option<Seq<char>>| v.unwrap())
    }

    pub fn new() -> (r: CloudFallback)
        ensures
            r.wf(),
            r.view() == Map::<Seq<char>, Seq<char>>::empty(),
    {
        let r = CloudFallback { entries: FieldMap::new() };
        assert(r.view() =~= Map::<Seq<char>, Seq<char>>::empty());
        r
    }

    /// The value held for `key`.
    pub fn get(&self, key: &str) -> (r: Option<String>)
        requires
            self.wf(),
        ensures
            r is None <==> !self.view().dom().contains(key@),
            r matches Some(v) ==> v@ == self.view()[key@],
    {
        match self.entries.get(key) {
            Some(Some(v)) => Some(v),
            Some(None) => {
                assert(self.entries@[key@] is Some);
                None
            },
            None => None,
        }
    }

    /// Hold `value` for `key`.
    pub fn set(&mut self, key: &str, value: &str)
        requires
            old(self).wf(),
        ensures
            final(self).wf(),
            final(self).view() == old(self).view().insert(key@, value@),
    {
        let ghost pre = self.entries@;
        self.entries.insert(owned(key), Some(owned(value)));
        proof {
            assert(self.entries@ == pre.insert(key@, Some(value@)));
            assert forall|k: Seq<char>| #[trigger] self.entries@.dom().contains(k) implies self.entries@[k] is Some by {
                if k != key@ {
                    assert(pre.dom().contains(k));
                }
            }
            assert(self.view() =~= old(self).view().insert(key@, value@));
        }
    }

    /// Forget `key`.
    pub fn remove(&mut self, key: &str)
        requires
            old(self).wf(),
        ensures
            final(self).wf(),
            final(self).view() == old(self).view().remove(key@),
    {
        let ghost pre = self.entries@;
        let mut gone: Vec<String> = Vec::new();
        gone.push(owned(key));
        let next = self.entries.without(&gone);
        proof {
            assert(names(gone@) =~= set![key@]) by {
                assert forall|k: Seq<char>| names(gone@).contains(k) <==> k == key@ by {
                    if k == key@ {
                        assert(gone@[0]@ == k);
                    }
                }
            }
            assert(next@ == pre.remove_keys(set![key@]));
            assert forall|k: Seq<char>| #[trigger] next@.dom().contains(k) implies next@[k] is Some by {
                assert(pre.dom().contains(k));
            }
        }
        self.entries = next;
        proof {
            assert(self.view() =~= old(self).view().remove(key@));
        }
    }
}

/// The fallback after storing a cloud-session value: a value the OS
/// keychain took (`stored`) leaves no fallback copy; otherwise the fallback
/// holds it.
pub open spec fn settled(m: Map<Seq<char>, Seq<char>>, stored: bool, key: Seq<char>, value: Seq<char>) -> Map<Seq<char>, Seq<char>> {
    if stored {
        m.remove(key)
    } else {
        m.insert(key, value)
    }
}

/// Settle the fallback once the OS keychain has (`stored`) or has not
/// taken a cloud-session value.
pub fn settle_cloud_store(fallback: &mut CloudFallback, key: &str, value: &str, stored: bool)
    requires
        old(fallback).wf(),
    ensures
        final(fallback).wf(),
        final(fallback).view() == settled(old(fallback).view(), stored, key@, value@),
{
    if stored {
        fallback.remove(key);
    } else {
        fallback.set(key, value);
    }
}

/// A cloud-session value that the OS keychain refused is read back from
/// the fallback: storing `value` under `key` and then reading `key` while
/// the keychain still fails gives `value`, and no other key changes.
pub proof fn lemma_cloud_fallback_round_trip(m: Map<Seq<char>, Seq<char>>, key: Seq<char>, value: Seq<char>, other: Seq<char>)
    ensures
        settled(m, false, key, value).dom().contains(key),
        settled(m, false, key, value)[key] == value,
        other != key ==> settled(m, false, key, value).dom().contains(other) == m.dom().contains(other)
            && settled(m, false, key, value).remove(key) == m.remove(key),
{
    assert(settled(m, false, key, value).remove(key) =~= m.remove(key));
}

/// Store a cloud-session value: in the OS keychain when it works (and then
/// drop any fallback copy), otherwise in the fallback. Always succeeds;
/// which of the two happened depends on the platform, and the fallback is
/// settled by `settle_cloud_store`.
pub fn store_cloud(fallback: &mut CloudFallback, key: &str, value: &str) -> (r: Result<(), KeychainError>)
    requires
        old(fallback).wf(),
    ensures
        r is Ok,
        final(fallback).wf(),
        final(fallback).view() == settled(old(fallback).view(), true, key@, value@)
            || final(fallback).view() == settled(old(fallback).view(), false, key@, value@),
{
    let stored = match os_secret_set(CLOUD_SERVICE, key, value) {
        Ok(()) => true,
        Err(_) => false,
    };
    settle_cloud_store(fallback, key, value, stored);
    Ok(())
}

/// What a cloud-session read gives: the OS keychain's value when it has
/// one, otherwise (no entry, or a failure) the fallback's.
pub fn cloud_value_of(o: Result<String, KeyringFailure>, fallback: &CloudFallback, key: &str) -> (r: Option<String>)
    requires
        fallback.wf(),
    ensures
        crate::text::string_opt(r) == match o {
            Ok(p) => Some(p@),
            Err(_) => if fallback.view().dom().contains(key@) {
                Some(fallback.view()[key@])
            } else {
                None
            },
        },
{
    match o {
        Ok(p) => Some(p),
        Err(_) => fallback.get(key),
    }
}

/// A cloud-session value: from the OS keychain when it has one, otherwise
/// from the fallback (see `cloud_value_of`). Never fails.
pub fn retrieve_cloud(fallback: &CloudFallback, key: &str) -> (r: Result<Option<String>, KeychainError>)
    requires
        fallback.wf(),
    ensures
        r is Ok,
        r matches Ok(None) ==> !fallback.view().dom().contains(key@),
{
    Ok(cloud_value_of(os_secret_get(CLOUD_SERVICE, key), fallback, key))
}

/// Remove a cloud-session value from both stores. Always succeeds.
pub fn delete_cloud(fallback: &mut CloudFallback, key: &str) -> (r: Result<(), KeychainError>)
    requires
        old(fallback).wf(),
    ensures
        r is Ok,
        final(fallback).wf(),
        final(fallback).view() == old(fallback).view().remove(key@),
{
    fallback.remove(key);
    let _ = os_secret_delete(CLOUD_SERVICE, key);
    Ok(())
}

/// The names of all cloud-session entries.
pub open spec fn cloud_keys() -> Set<Seq<char>> {
    set![
        CLOUD_KEY_DEVICE_TOKEN@,
        CLOUD_KEY_ACCOUNT_KEY@,
        CLOUD_KEY_KDF_SALT@,
        CLOUD_KEY_EMAIL@,
        CLOUD_KEY_TIER@,
    ]
}

/// Remove every cloud-session entry (sign-out).
pub fn clear_all_cloud(fallback: &mut CloudFallback)
    requires
        old(fallback).wf(),
    ensures
        final(fallback).wf(),
        final(fallback).view() == old(fallback).view().remove_keys(cloud_keys()),
{
    let _ = delete_cloud(fallback, CLOUD_KEY_DEVICE_TOKEN);
    let _ = delete_cloud(fallback, CLOUD_KEY_ACCOUNT_KEY);
    let _ = delete_cloud(fallback, CLOUD_KEY_KDF_SALT);
    let _ = delete_cloud(fallback, CLOUD_KEY_EMAIL);
    let _ = delete_cloud(fallback, CLOUD_KEY_TIER);
    proof {
        assert(fallback.view() =~= old(fallback).view().remove_keys(cloud_keys()));
    }
}

} // verus!
