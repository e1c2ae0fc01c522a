//! The Gemini API key in the operating system's credential store. What the
//! store holds is the machine's business, so nothing is promised of what a
//! read returns; what is promised is what gets stored (the trimmed key, never
//! an empty one) and which message each failure carries.

use vstd::prelude::*;
use crate::text::{extend_str, spec_trim, str_trim, string_from_chars, string_from_str};

verus! {

pub const SERVICE_NAME: &'static str = "trading-help";

pub const GEMINI_KEY_USERNAME: &'static str = "gemini_api_key";

#[verifier::external_type_specification]
#[verifier::external_body]
pub struct ExEntry(keyring::Entry);

/// An entry of the credential store, with what this library did with it: the
/// service and user it was opened for, and the value it last handed to the
/// store (whether or not the store accepted it). The last two are ghost
/// records of the library's own calls, not of what the store holds.
pub struct KeyEntry {
    entry: keyring::Entry,
    service: Ghost<Seq<char>>,
    user: Ghost<Seq<char>>,
    handed: Ghost<Option<Seq<char>>>,
}

impl KeyEntry {
    pub closed spec fn service(&self) -> Seq<char> {
        self.service@
    }

    pub closed spec fn user(&self) -> Seq<char> {
        self.user@
    }

    /// The value last handed to the store through this entry, if any.
    pub closed spec fn handed(&self) -> Option<Seq<char>> {
        self.handed@
    }
}

/// Calls `keyring::Entry::new(service, user)`; a failure comes back as the
/// error's display text. Claimed: an entry that opens is recorded as opened
/// for `service` and `user`, with nothing handed to it yet. Whether it opens
/// depends on the platform's credential store and is not claimed. (The crate
/// documents a panic only for a poisoned internal lock.)
#[verifier::external_body]
fn open_entry(service: &str, user: &str) -> (r: Result<KeyEntry, String>)
    ensures
        r matches Ok(e) ==> e.service() == service@ && e.user() == user@ && e.handed() is None,
{
    match keyring::Entry::new(service, user) {
        Ok(entry) => Ok(
            KeyEntry { entry, service: Ghost(service@), user: Ghost(user@), handed: Ghost(None) },
        ),
        Err(e) => Err(e.to_string()),
    }
}

/// Calls `keyring::Entry::set_password` with `password`; a failure comes back
/// as the error's display text. Claimed: `password` is recorded as the value
/// handed to the store, and the entry is otherwise the same. Whether the store
/// accepts it is not claimed.
#[verifier::external_body]
fn entry_set_password(entry: &mut KeyEntry, password: &str) -> (r: Result<(), String>)
    ensures
        final(entry).handed() == Some(password@),
        final(entry).service() == old(entry).service(),
        final(entry).user() == old(entry).user(),
{
    entry.entry.set_password(password).map_err(|e| e.to_string())
}

/// Calls `keyring::Entry::get_password`; a failure (including "no entry")
/// comes back as the error's display text. Nothing is claimed of the outcome.
#[verifier::external_body]
fn entry_get_password(entry: &KeyEntry) -> (r: Result<String, String>) {
    entry.entry.get_password().map_err(|e| e.to_string())
}

/// Calls `keyring::Entry::delete_credential`; a failure comes back as the
/// error's display text. Nothing is claimed of the outcome.
#[verifier::external_body]
fn entry_delete_credential(entry: &KeyEntry) -> (r: Result<(), String>) {
    entry.entry.delete_credential().map_err(|e| e.to_string())
}

pub open spec fn open_failed_text(detail: Seq<char>) -> Seq<char> {
    "Nie udało się otworzyć magazynu kluczy systemu: "@ + detail
}

pub open spec fn save_failed_text(detail: Seq<char>) -> Seq<char> {
    "Nie udało się zapisać klucza API: "@ + detail
}

pub open spec fn read_failed_text(detail: Seq<char>) -> Seq<char> {
    "Nie udało się odczytać klucza API: "@ + detail
}

pub open spec fn delete_failed_text(detail: Seq<char>) -> Seq<char> {
    "Nie udało się usunąć klucza API: "@ + detail
}

pub open spec fn empty_key_text() -> Seq<char> {
    "Klucz API nie może być pusty."@
}

fn prefixed(prefix: &str, detail: &String) -> (r: String)
    ensures
        r@ == prefix@ + detail@,
{
    let mut out: Vec<char> = Vec::new();
    extend_str(&mut out, prefix);
    extend_str(&mut out, detail.as_str());
    string_from_chars(&out)
}

/// The store's entry for the Gemini key: service "trading-help", user
/// "gemini_api_key", with nothing handed to it yet.
pub fn gemini_key_entry() -> (r: Result<KeyEntry, String>)
    ensures
        r matches Ok(e) ==> e.service() == SERVICE_NAME@ && e.user() == GEMINI_KEY_USERNAME@
            && e.handed() is None,
        r matches Err(m) ==> exists|d: Seq<char>| m@ == open_failed_text(d),
{
    match open_entry(SERVICE_NAME, GEMINI_KEY_USERNAME) {
        Ok(e) => Ok(e),
        Err(d) => {
            let m = prefixed("Nie udało się otworzyć magazynu kluczy systemu: ", &d);
            assert(m@ == open_failed_text(d@));
            Err(m)
        },
    }
}

/// The text that is stored for a key the user entered: the key trimmed, or
/// the error for a key that is empty once trimmed.
pub fn key_to_store(key: &str) -> (r: Result<&str, String>)
    ensures
        spec_trim(key@).len() == 0 ==> (r matches Err(m) && m@ == empty_key_text()),
        spec_trim(key@).len() > 0 ==> (r matches Ok(t) && t@ == spec_trim(key@)),
{
    let trimmed = str_trim(key);
    if trimmed.is_empty() {
        return Err(string_from_str("Klucz API nie może być pusty."));
    }
    Ok(trimmed)
}

/// Hands the trimmed key to `entry`. An empty key is refused and nothing is
/// handed.
pub fn store_key(entry: &mut KeyEntry, key: &str) -> (r: Result<(), String>)
    ensures
        final(entry).service() == old(entry).service(),
        final(entry).user() == old(entry).user(),
        spec_trim(key@).len() == 0 ==> (r matches Err(m) && m@ == empty_key_text()) && final(entry).handed()
            == old(entry).handed(),
        spec_trim(key@).len() > 0 ==> final(entry).handed() == Some(spec_trim(key@)) && (r is Ok || (
        r matches Err(m) && exists|d: Seq<char>| m@ == save_failed_text(d))),
{
    let value = match key_to_store(key) {
        Ok(v) => v,
        Err(m) => {
            return Err(m);
        },
    };
    match entry_set_password(entry, value) {
        Ok(()) => Ok(()),
        Err(d) => {
            let m = prefixed("Nie udało się zapisać klucza API: ", &d);
            assert(m@ == save_failed_text(d@));
            Err(m)
        },
    }
}

/// Stores the trimmed key in the OS credential store, through
/// `gemini_key_entry` and `store_key`. An empty key is refused before the
/// store is touched.
pub fn save_gemini_api_key(key: &str) -> (r: Result<(), String>)
    ensures
        spec_trim(key@).len() == 0 ==> (r matches Err(m) && m@ == empty_key_text()),
        spec_trim(key@).len() > 0 ==> (r is Ok || (r matches Err(m) && exists|d: Seq<char>|
            m@ == open_failed_text(d) || m@ == save_failed_text(d))),
{
    if let Err(m) = key_to_store(key) {
        return Err(m);
    }
    let mut entry = match gemini_key_entry() {
        Ok(e) => e,
        Err(m) => {
            return Err(m);
        },
    };
    store_key(&mut entry, key)
}

/// The stored key; an error when none is stored or the store fails.
pub fn get_gemini_api_key() -> (r: Result<String, String>)
    ensures
        r matches Err(m) ==> exists|d: Seq<char>| m@ == open_failed_text(d) || m@ == read_failed_text(d),
{
    let entry = match gemini_key_entry() {
        Ok(e) => e,
        Err(m) => {
            return Err(m);
        },
    };
    match entry_get_password(&entry) {
        Ok(k) => Ok(k),
        Err(d) => {
            let m = prefixed("Nie udało się odczytać klucza API: ", &d);
            assert(m@ == read_failed_text(d@));
            Err(m)
        },
    }
}

/// Whether a key can be read; decides whether onboarding is shown.
pub fn has_gemini_api_key() -> bool {
    get_gemini_api_key().is_ok()
}

/// Removes the stored key.
pub fn delete_gemini_api_key() -> (r: Result<(), String>)
    ensures
        r matches Err(m) ==> exists|d: Seq<char>| m@ == open_failed_text(d) || m@ == delete_failed_text(d),
{
    let entry = match gemini_key_entry() {
        Ok(e) => e,
        Err(m) => {
            return Err(m);
        },
    };
    match entry_delete_credential(&entry) {
        Ok(()) => Ok(()),
        Err(d) => {
            let m = prefixed("Nie udało się usunąć klucza API: ", &d);
            assert(m@ == delete_failed_text(d@));
            Err(m)
        },
    }
}

} // verus!
