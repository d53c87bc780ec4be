//! The mathematical value of a vault, and what each operation does to it.
//!
//! Every operation of [`crate::vault::DataBase`] is proved against one
//! function or relation of this module. Where an operation draws random
//! bytes or reads the clock, its relation holds whatever was drawn or read.
use crate::crypto::{
    argon2id, chacha20poly1305_seal, is_sealing, kdf_accepts, unseal_spec, KdfParams, SealFault,
};
use crate::error::VaultError;
use crate::listing::{is_listing, item_views};
use crate::records::{
    kept_notes, open_row_spec, seals_notes, seals_text, BackupItem, BackupItemView, ConfigView,
    Entry, EntryListItem, EntryView, ListItemView, RowView, VaultConfig,
};
use vstd::prelude::*;
use vstd::string::*;
use vstd::utf8::*;

verus! {

/// The mathematical value of a vault.
pub struct VaultView {
    /// The configuration record, once the vault is initialized.
    pub config: Option<ConfigView>,
    /// The stored rows by id.
    pub entries: Map<i64, RowView>,
    /// The id that the next new entry gets.
    pub next_id: i64,
    /// The session key, while the vault is unlocked.
    pub key: Option<Seq<u8>>,
}

/// What holds of the entries of every vault: ids start at 1, each row is
/// stored under its own id, and no id at or above the counter is in use.
pub open spec fn valid(v: VaultView) -> bool {
    &&& 1 <= v.next_id
    &&& forall|id: i64| #[trigger]
        v.entries.contains_key(id) ==> 1 <= id < v.next_id && v.entries[id].id == id
}

/// The fixed plaintext that the key check seals.
pub open spec fn key_check_plaintext() -> Seq<u8> {
    encode_utf8("vault-key-check"@)
}

/// The key that a master password gives with the salt and the parameters of
/// `config`.
pub open spec fn master_key(config: ConfigView, master: Seq<char>) -> Seq<u8> {
    argon2id(
        encode_utf8(master),
        config.kdf_salt,
        config.kdf_params.mem_cost_kib,
        config.kdf_params.iterations,
        config.kdf_params.parallelism,
    )
}

/// `config` was made for `master`: the key derivation takes the password,
/// and the key check seals the fixed plaintext under the key it gives.
pub open spec fn made_for(config: ConfigView, master: Seq<char>) -> bool {
    &&& kdf_accepts(encode_utf8(master).len(), config.kdf_salt.len(), config.kdf_params)
    &&& is_sealing(master_key(config, master), key_check_plaintext(), config.key_check)
}

/// The key that unlocking with `master` loads, or why it loads none.
///
/// A password that the key derivation does not take, and a key check too
/// short to hold a nonce or too long for one nonce to cover, are a
/// [`VaultError::Crypto`]. A key check that
/// does not verify under the derived key, or that opens to another
/// plaintext, is a [`VaultError::BadMasterPassword`].
pub open spec fn checked_key(config: ConfigView, master: Seq<char>) -> Result<Seq<u8>, VaultError> {
    if !kdf_accepts(encode_utf8(master).len(), config.kdf_salt.len(), config.kdf_params) {
        Err(VaultError::Crypto)
    } else {
        match unseal_spec(master_key(config, master), config.key_check) {
            Ok(plaintext) => if plaintext == key_check_plaintext() {
                Ok(master_key(config, master))
            } else {
                Err(VaultError::BadMasterPassword)
            },
            Err(SealFault::TooShort) => Err(VaultError::Crypto),
            Err(SealFault::TooLong) => Err(VaultError::Crypto),
            Err(SealFault::NotAuthentic) => Err(VaultError::BadMasterPassword),
        }
    }
}

/// The configuration record and the key that a master password gives at the
/// time `now` with a drawn salt and a drawn nonce for the key check: the
/// standard parameters, the key derived with them, and the fixed plaintext
/// sealed under that key. A password that the key derivation does not take
/// is a [`VaultError::Crypto`].
pub open spec fn new_config_spec(
    now: i64,
    master: Seq<char>,
    salt: Seq<u8>,
    nonce: Seq<u8>,
) -> Result<(ConfigView, Seq<u8>), VaultError> {
    let params = KdfParams::standard();
    let password = encode_utf8(master);
    if !kdf_accepts(password.len(), salt.len(), params) {
        Err(VaultError::Crypto)
    } else {
        let key = argon2id(
            password,
            salt,
            params.mem_cost_kib,
            params.iterations,
            params.parallelism,
        );
        Ok(
            (
                ConfigView {
                    kdf_salt: salt,
                    kdf_params: params,
                    key_check: nonce + chacha20poly1305_seal(key, nonce, key_check_plaintext()),
                    created_at: now,
                },
                key,
            ),
        )
    }
}

/// The fixed plaintext is 15 bytes long.
pub proof fn lemma_key_check_len()
    ensures
        key_check_plaintext().len() == 15,
{
    reveal_strlit("vault-key-check");
    let text = "vault-key-check"@;
    assert(is_ascii_chars(text)) by {
        assert forall|i: int| 0 <= i < text.len() implies 0 <= #[trigger] (text[i] as nat)
            < 128 by {
            assert(text.len() == 15);
            assert(text[0] == 'v' && text[1] == 'a' && text[2] == 'u' && text[3] == 'l');
            assert(text[4] == 't' && text[5] == '-' && text[6] == 'k' && text[7] == 'e');
            assert(text[8] == 'y' && text[9] == '-' && text[10] == 'c' && text[11] == 'h');
            assert(text[12] == 'e' && text[13] == 'c' && text[14] == 'k');
        }
    }
    is_ascii_chars_encode_utf8(text);
}

/// What initializing a vault does. A vault that has a configuration record
/// refuses. Otherwise, on success, the record is made for `master` with a
/// 16-byte salt and the standard parameters, and the vault is unlocked with
/// the derived key; on failure nothing changes.
pub open spec fn init_post(
    before: VaultView,
    after: VaultView,
    now: i64,
    master: Seq<char>,
    r: Result<(), VaultError>,
) -> bool {
    if before.config is Some {
        r == Err::<(), VaultError>(VaultError::AlreadyInitialized) && after == before
    } else {
        match r {
            Ok(_) => {
                &&& after.config matches Some(config)
                &&& config.kdf_salt.len() == 16
                &&& config.kdf_params == KdfParams::standard()
                &&& config.created_at == now
                &&& made_for(config, master)
                &&& after.key == Some(master_key(config, master))
                &&& after.entries == before.entries
                &&& after.next_id == before.next_id
            },
            Err(e) => e == VaultError::Crypto && after == before,
        }
    }
}

/// What unlocking does: with no configuration record it refuses; with a
/// key that checks, that key is loaded in place of any other; else nothing
/// changes.
pub open spec fn unlock_spec(v: VaultView, master: Seq<char>) -> (
    VaultView,
    Result<(), VaultError>,
) {
    match v.config {
        None => (v, Err(VaultError::NotInitialized)),
        Some(config) => match checked_key(config, master) {
            Ok(key) => (VaultView { key: Some(key), ..v }, Ok(())),
            Err(e) => (v, Err(e)),
        },
    }
}

/// The vault after locking: the same, without the key.
pub open spec fn lock_spec(v: VaultView) -> VaultView {
    VaultView { key: None, ..v }
}

/// `row` stores an entry with these fields under `key`.
pub open spec fn stores(
    key: Seq<u8>,
    row: RowView,
    id: i64,
    site: Seq<char>,
    username: Seq<char>,
    password: Seq<char>,
    notes: Option<Seq<char>>,
    created_at: i64,
    updated_at: i64,
) -> bool {
    &&& row.id == id
    &&& row.site == site
    &&& row.username == username
    &&& seals_text(key, password, row.password_enc)
    &&& seals_notes(key, notes, row.notes_enc)
    &&& row.created_at == created_at
    &&& row.updated_at == updated_at
}

/// What adding an entry does. A locked vault refuses. Otherwise, on
/// success, the entry is stored under the next id, which no stored row has,
/// with its password sealed, its notes sealed where there are notes to
/// keep, and both time stamps at `now`; on failure nothing changes. The
/// table refuses only where no id is left.
pub open spec fn add_post(
    before: VaultView,
    after: VaultView,
    now: i64,
    site: Seq<char>,
    username: Seq<char>,
    password: Seq<char>,
    notes: Option<Seq<char>>,
    r: Result<i64, VaultError>,
) -> bool {
    match before.key {
        None => r == Err::<i64, VaultError>(VaultError::Locked) && after == before,
        Some(key) => match r {
            Ok(id) => {
                &&& id == before.next_id
                &&& id < i64::MAX
                &&& !before.entries.contains_key(id)
                &&& after.next_id == id + 1
                &&& after.config == before.config
                &&& after.key == before.key
                &&& after.entries.contains_key(id)
                &&& after.entries == before.entries.insert(id, after.entries[id])
                &&& stores(
                    key,
                    after.entries[id],
                    id,
                    site,
                    username,
                    password,
                    kept_notes(notes),
                    now,
                    now,
                )
            },
            Err(e) => {
                &&& after == before
                &&& e == VaultError::Crypto || (e == VaultError::Storage && before.next_id
                    == i64::MAX)
            },
        },
    }
}

/// The entry with this id in the clear: a locked vault refuses, an id that
/// no row has is [`VaultError::NotFound`], and a row that does not open is
/// [`VaultError::Crypto`].
pub open spec fn get_spec(v: VaultView, id: i64) -> Result<EntryView, VaultError> {
    match v.key {
        None => Err(VaultError::Locked),
        Some(key) => if v.entries.contains_key(id) {
            open_row_spec(key, v.entries[id])
        } else {
            Err(VaultError::NotFound)
        },
    }
}

/// The password of the entry with this id.
pub open spec fn get_password_spec(v: VaultView, id: i64) -> Result<Seq<char>, VaultError> {
    match get_spec(v, id) {
        Ok(entry) => Ok(entry.password),
        Err(e) => Err(e),
    }
}

/// What updating an entry does. A locked vault refuses, and so does one
/// without a row of this id. Otherwise, on success, the site and the user
/// name are overwritten; a password that is given is sealed anew, one that
/// is left out keeps its stored ciphertext; notes that are given are sealed
/// anew, or cleared where they are empty, and notes that are left out keep
/// their stored ciphertext; the time of the change is `now`. On failure
/// nothing changes, and an update that has nothing to seal does not fail.
pub open spec fn update_post(
    before: VaultView,
    after: VaultView,
    now: i64,
    id: i64,
    site: Seq<char>,
    username: Seq<char>,
    password: Option<Seq<char>>,
    notes: Option<Seq<char>>,
    r: Result<(), VaultError>,
) -> bool {
    match before.key {
        None => r == Err::<(), VaultError>(VaultError::Locked) && after == before,
        Some(key) => if !before.entries.contains_key(id) {
            r == Err::<(), VaultError>(VaultError::NotFound) && after == before
        } else {
            match r {
                Ok(_) => {
                    let was = before.entries[id];
                    let now_is = after.entries[id];
                    &&& after.config == before.config
                    &&& after.key == before.key
                    &&& after.next_id == before.next_id
                    &&& after.entries == before.entries.insert(id, now_is)
                    &&& now_is.id == id
                    &&& now_is.site == site
                    &&& now_is.username == username
                    &&& now_is.created_at == was.created_at
                    &&& now_is.updated_at == now
                    &&& match password {
                        Some(text) => seals_text(key, text, now_is.password_enc),
                        None => now_is.password_enc == was.password_enc,
                    }
                    &&& match notes {
                        Some(text) => seals_notes(key, kept_notes(Some(text)), now_is.notes_enc),
                        None => now_is.notes_enc == was.notes_enc,
                    }
                },
                Err(e) => {
                    &&& e == VaultError::Crypto
                    &&& after == before
                    &&& password is Some || kept_notes(notes) is Some
                },
            }
        },
    }
}

/// What deleting does: a locked vault refuses; otherwise the row with this
/// id is gone, whether or not there was one.
pub open spec fn delete_spec(v: VaultView, id: i64) -> (VaultView, Result<(), VaultError>) {
    match v.key {
        None => (v, Err(VaultError::Locked)),
        Some(_) => (VaultView { entries: v.entries.remove(id), ..v }, Ok(())),
    }
}

/// What listing does: a locked vault refuses; otherwise the result is the
/// listing of the entries for the search.
pub open spec fn list_post(
    v: VaultView,
    search: Option<Seq<char>>,
    r: Result<Seq<ListItemView>, VaultError>,
) -> bool {
    match v.key {
        None => r == Err::<Seq<ListItemView>, VaultError>(VaultError::Locked),
        Some(_) => r matches Ok(items) && is_listing(v.entries, search, items),
    }
}

/// `out` holds every entry of `entries` in the clear, once, in the order of
/// the ids.
pub open spec fn is_export(key: Seq<u8>, entries: Map<i64, RowView>, out: Seq<EntryView>) -> bool {
    &&& forall|a: int, b: int| 0 <= a < b < out.len() ==> out[a].id < out[b].id
    &&& forall|a: int|
        0 <= a < out.len() ==> entries.contains_key(#[trigger] out[a].id) && open_row_spec(
            key,
            entries[out[a].id],
        ) == Ok::<EntryView, VaultError>(out[a])
    &&& forall|id: i64| #[trigger]
        entries.contains_key(id) ==> exists|a: int| 0 <= a < out.len() && #[trigger] out[a].id == id
}

/// What exporting does: a locked vault refuses; a vault with a row that
/// does not open fails with [`VaultError::Crypto`]; otherwise the result
/// holds every entry in the clear.
pub open spec fn export_post(v: VaultView, r: Result<Seq<EntryView>, VaultError>) -> bool {
    match v.key {
        None => r == Err::<Seq<EntryView>, VaultError>(VaultError::Locked),
        Some(key) => match r {
            Ok(out) => is_export(key, v.entries, out),
            Err(e) => {
                &&& e == VaultError::Crypto
                &&& exists|id: i64| #[trigger]
                    v.entries.contains_key(id) && open_row_spec(key, v.entries[id]) is Err
            },
        },
    }
}

/// What opening a sealed backup yields: a locked vault refuses; a blob too
/// short to hold a nonce, or too long for one nonce to cover, is a
/// [`VaultError::Crypto`]; a blob that does not verify under the session key
/// is a [`VaultError::BadMasterPassword`].
pub open spec fn open_backup_spec(v: VaultView, data: Seq<u8>) -> Result<Seq<u8>, VaultError> {
    match v.key {
        None => Err(VaultError::Locked),
        Some(key) => match unseal_spec(key, data) {
            Ok(plaintext) => Ok(plaintext),
            Err(SealFault::TooShort) => Err(VaultError::Crypto),
            Err(SealFault::TooLong) => Err(VaultError::Crypto),
            Err(SealFault::NotAuthentic) => Err(VaultError::BadMasterPassword),
        },
    }
}

/// What sealing a backup does: a locked vault refuses; otherwise, on
/// success, the blob seals the serialized entries under the session key and
/// opens to them again.
pub open spec fn seal_backup_post(
    v: VaultView,
    serialized: Seq<u8>,
    r: Result<Seq<u8>, VaultError>,
) -> bool {
    match v.key {
        None => r == Err::<Seq<u8>, VaultError>(VaultError::Locked),
        Some(key) => match r {
            Ok(blob) => {
                &&& is_sealing(key, serialized, blob)
                &&& open_backup_spec(v, blob) == Ok::<Seq<u8>, VaultError>(serialized)
            },
            Err(e) => e == VaultError::Crypto,
        },
    }
}

/// The first `count` of `items` are stored in `after` under the ids from
/// `before.next_id` on, which no row of `before` has, stamped `now`, and
/// nothing else differs from `before`.
pub open spec fn imported(
    before: VaultView,
    after: VaultView,
    key: Seq<u8>,
    now: i64,
    items: Seq<BackupItemView>,
    count: int,
) -> bool {
    &&& 0 <= count <= items.len()
    &&& after.config == before.config
    &&& after.key == before.key
    &&& after.next_id == before.next_id + count
    &&& forall|id: i64| #[trigger]
        after.entries.contains_key(id) <==> (before.entries.contains_key(id) || before.next_id
            <= id < after.next_id)
    &&& forall|id: i64| #[trigger]
        before.entries.contains_key(id) ==> after.entries[id] == before.entries[id]
    &&& forall|id: i64|
        before.next_id <= id < after.next_id ==> !#[trigger] before.entries.contains_key(id)
    &&& forall|id: i64|
        before.next_id <= id < after.next_id ==> {
            let item = items[id - before.next_id];
            stores(
                key,
                #[trigger] after.entries[id],
                id,
                item.site,
                item.username,
                item.password,
                kept_notes(item.notes),
                now,
                now,
            )
        }
}

/// What importing does. A locked vault refuses. Otherwise the items are
/// added one by one, in order, each under a fresh id and stamped `now`;
/// the result is their number. Where adding an item fails, the items before
/// it stay stored and the rest are not added.
pub open spec fn import_post(
    before: VaultView,
    after: VaultView,
    now: i64,
    items: Seq<BackupItemView>,
    r: Result<usize, VaultError>,
) -> bool {
    match before.key {
        None => r == Err::<usize, VaultError>(VaultError::Locked) && after == before,
        Some(key) => match r {
            Ok(count) => count == items.len() && imported(
                before,
                after,
                key,
                now,
                items,
                count as int,
            ),
            Err(e) => {
                &&& e == VaultError::Crypto || (e == VaultError::Storage && after.next_id
                    == i64::MAX)
                &&& after.next_id - before.next_id < items.len()
                &&& imported(before, after, key, now, items, after.next_id - before.next_id)
            },
        },
    }
}

/// The values of a vector of entries, in order.
pub open spec fn entry_views(entries: Seq<Entry>) -> Seq<EntryView> {
    entries.map_values(|entry: Entry| entry@)
}

/// The values of a vector of backup items, in order.
pub open spec fn backup_views(items: Seq<BackupItem>) -> Seq<BackupItemView> {
    items.map_values(|item: BackupItem| item@)
}

/// The value of the outcome of a listing.
pub open spec fn listing_outcome(r: Result<Vec<EntryListItem>, VaultError>) -> Result<
    Seq<ListItemView>,
    VaultError,
> {
    match r {
        Ok(items) => Ok(item_views(items@)),
        Err(e) => Err(e),
    }
}

/// The value of the outcome of an export.
pub open spec fn export_outcome(r: Result<Vec<Entry>, VaultError>) -> Result<
    Seq<EntryView>,
    VaultError,
> {
    match r {
        Ok(entries) => Ok(entry_views(entries@)),
        Err(e) => Err(e),
    }
}

/// The value of the outcome of an operation on bytes.
pub open spec fn bytes_outcome(r: Result<Vec<u8>, VaultError>) -> Result<Seq<u8>, VaultError> {
    match r {
        Ok(bytes) => Ok(bytes@),
        Err(e) => Err(e),
    }
}

/// The value of an optional configuration record.
pub open spec fn opt_config(config: Option<VaultConfig>) -> Option<ConfigView> {
    match config {
        Some(c) => Some(c@),
        None => None,
    }
}

/// The value of the outcome of reading an entry.
pub open spec fn entry_outcome(r: Result<Entry, VaultError>) -> Result<EntryView, VaultError> {
    match r {
        Ok(entry) => Ok(entry@),
        Err(e) => Err(e),
    }
}

/// The value of the outcome of reading a text.
pub open spec fn text_outcome(r: Result<String, VaultError>) -> Result<Seq<char>, VaultError> {
    match r {
        Ok(text) => Ok(text@),
        Err(e) => Err(e),
    }
}

} // verus!
