//! What holds of the vault across operations.
//!
//! Each law is stated over the functions and relations that the operations
//! of [`crate::vault::DataBase`] are proved against, so it holds of every
//! run of those operations.
use crate::crypto::{
    argon2id, blob_body, blob_nonce, chacha20poly1305_open, decrypt_spec, is_sealing, kdf_accepts,
    lemma_round_trip, KdfParams, MAX_BLOB_LEN,
};
use crate::error::VaultError;
use crate::listing::{is_listing, lists_before, lists_id, shows_selected};
use crate::model::{
    add_post, checked_key, delete_spec, export_post, get_password_spec, get_spec, import_post,
    init_post, is_export, key_check_plaintext, list_post, lock_spec, made_for, master_key,
    open_backup_spec, seal_backup_post, unlock_spec, update_post, valid, VaultView,
};
use crate::records::{
    backup_item_of, kept_notes, lemma_sealed_row_opens, lemma_sealed_text_opens, BackupItemView,
    ConfigView, EntryView, ListItemView, RowView,
};
use crate::text::{lemma_trimmed, trimmed, white_space};
use vstd::prelude::*;
use vstd::utf8::*;

verus! {

/// Round trip. A blob that `encrypt` made for a plaintext under a key
/// decrypts to that plaintext under the same key, and under any key derived
/// again from the same password, salt and parameters.
pub proof fn law_round_trip(
    password: Seq<u8>,
    salt: Seq<u8>,
    params: KdfParams,
    key: Seq<u8>,
    again: Seq<u8>,
    plaintext: Seq<u8>,
    blob: Seq<u8>,
)
    requires
        key == argon2id(password, salt, params.mem_cost_kib, params.iterations, params.parallelism),
        again == argon2id(
            password,
            salt,
            params.mem_cost_kib,
            params.iterations,
            params.parallelism,
        ),
        is_sealing(key, plaintext, blob),
    ensures
        decrypt_spec(key, blob) == Ok::<Seq<u8>, VaultError>(plaintext),
        decrypt_spec(again, blob) == Ok::<Seq<u8>, VaultError>(plaintext),
{
    lemma_round_trip(key, plaintext, blob);
}

/// Decrypting hands out a plaintext only where the cipher verified the tag of
/// this very blob under this key, and the plaintext is the one it opened;
/// where it did not, the failure is [`VaultError::Crypto`] and nothing is
/// handed out. Whether the tag of a changed blob verifies is the cipher's to
/// answer.
pub proof fn law_decrypt_hands_out_what_verified(key: Seq<u8>, blob: Seq<u8>)
    ensures
        match decrypt_spec(key, blob) {
            Ok(plaintext) => chacha20poly1305_open(key, blob_nonce(blob), blob_body(blob)) == Some(
                plaintext,
            ),
            Err(e) => e == VaultError::Crypto,
        },
{
}

/// A configuration record made for a master password checks that password.
pub proof fn law_made_for_checks(config: ConfigView, master: Seq<char>)
    requires
        made_for(config, master),
    ensures
        checked_key(config, master) == Ok::<Seq<u8>, VaultError>(master_key(config, master)),
{
    lemma_round_trip(master_key(config, master), key_check_plaintext(), config.key_check);
}

/// Unlocking with the password that a vault was initialized with succeeds,
/// in whatever state the session and the entries are by then, and loads the
/// key that initializing loaded.
pub proof fn law_unlock_after_initialize(
    before: VaultView,
    initialized: VaultView,
    now: i64,
    master: Seq<char>,
    later: VaultView,
)
    requires
        init_post(before, initialized, now, master, Ok(())),
        later.config == initialized.config,
    ensures
        unlock_spec(later, master) == (VaultView { key: initialized.key, ..later }, Ok::<
            (),
            VaultError,
        >(())),
{
    law_made_for_checks(initialized.config->Some_0, master);
}

/// An unlock that fails leaves the vault as it was: a locked session stays
/// locked. Where the key derivation takes the password and the key check
/// has a length that a blob can have, the failure is
/// [`VaultError::BadMasterPassword`].
pub proof fn law_failed_unlock(v: VaultView, master: Seq<char>)
    requires
        unlock_spec(v, master).1 is Err,
    ensures
        unlock_spec(v, master).0 == v,
        (v.config matches Some(config) && kdf_accepts(
            encode_utf8(master).len(),
            config.kdf_salt.len(),
            config.kdf_params,
        ) && 12 <= config.key_check.len() <= MAX_BLOB_LEN) ==> unlock_spec(v, master).1 == Err::<
            (),
            VaultError,
        >(
            VaultError::BadMasterPassword,
        ),
{
}

/// After locking, no key is loaded.
pub proof fn law_lock_locks(v: VaultView)
    ensures
        lock_spec(v).key is None,
        lock_spec(lock_spec(v)) == lock_spec(v),
{
}

/// A locked vault refuses every operation on entries and backups with
/// [`VaultError::Locked`], and none of them changes it.
pub proof fn law_locked_refuses(
    v: VaultView,
    after: VaultView,
    now: i64,
    id: i64,
    site: Seq<char>,
    username: Seq<char>,
    password: Seq<char>,
    new_password: Option<Seq<char>>,
    notes: Option<Seq<char>>,
    search: Option<Seq<char>>,
    data: Seq<u8>,
    items: Seq<BackupItemView>,
)
    requires
        v.key is None,
    ensures
        get_spec(v, id) == Err::<EntryView, VaultError>(VaultError::Locked),
        get_password_spec(v, id) == Err::<Seq<char>, VaultError>(VaultError::Locked),
        delete_spec(v, id) == (v, Err::<(), VaultError>(VaultError::Locked)),
        open_backup_spec(v, data) == Err::<Seq<u8>, VaultError>(VaultError::Locked),
        forall|r: Result<i64, VaultError>|
            add_post(v, after, now, site, username, password, notes, r) ==> r == Err::<
                i64,
                VaultError,
            >(VaultError::Locked) && after == v,
        forall|r: Result<(), VaultError>|
            update_post(v, after, now, id, site, username, new_password, notes, r) ==> r == Err::<
                (),
                VaultError,
            >(VaultError::Locked) && after == v,
        forall|r: Result<Seq<ListItemView>, VaultError>|
            list_post(v, search, r) ==> r == Err::<Seq<ListItemView>, VaultError>(
                VaultError::Locked,
            ),
        forall|r: Result<Seq<EntryView>, VaultError>|
            export_post(v, r) ==> r == Err::<Seq<EntryView>, VaultError>(VaultError::Locked),
        forall|r: Result<Seq<u8>, VaultError>|
            seal_backup_post(v, data, r) ==> r == Err::<Seq<u8>, VaultError>(VaultError::Locked),
        forall|r: Result<usize, VaultError>|
            import_post(v, after, now, items, r) ==> r == Err::<usize, VaultError>(
                VaultError::Locked,
            ) && after == v,
{
}

/// A successful unlock ends the refusal: the vault is unlocked afterwards.
pub proof fn law_unlock_unlocks(v: VaultView, master: Seq<char>)
    requires
        unlock_spec(v, master).1 is Ok,
    ensures
        unlock_spec(v, master).0.key is Some,
{
}

/// Reading an entry that was just added gives back its site, user name and
/// password, and its notes as they are kept: unchanged, except that empty
/// notes are kept as none.
pub proof fn law_add_then_get(
    before: VaultView,
    after: VaultView,
    now: i64,
    site: Seq<char>,
    username: Seq<char>,
    password: Seq<char>,
    notes: Option<Seq<char>>,
    id: i64,
)
    requires
        add_post(before, after, now, site, username, password, notes, Ok(id)),
    ensures
        get_spec(after, id) == Ok::<EntryView, VaultError>(
            EntryView {
                id,
                site,
                username,
                password,
                notes: kept_notes(notes),
                created_at: now,
                updated_at: now,
            },
        ),
        get_password_spec(after, id) == Ok::<Seq<char>, VaultError>(password),
{
    lemma_sealed_row_opens(before.key->Some_0, after.entries[id], password, kept_notes(notes));
}

/// An update that leaves the password out keeps it: an entry that could be
/// read before the update reads with the same password after it. The site,
/// the user name and the time of the change are the new ones; notes that
/// are left out are kept too, and notes that are given are the new ones as
/// they are kept.
pub proof fn law_update_keeps_password(
    before: VaultView,
    after: VaultView,
    now: i64,
    id: i64,
    site: Seq<char>,
    username: Seq<char>,
    notes: Option<Seq<char>>,
    was: EntryView,
)
    requires
        get_spec(before, id) == Ok::<EntryView, VaultError>(was),
        update_post(before, after, now, id, site, username, None, notes, Ok(())),
    ensures
        get_spec(after, id) == Ok::<EntryView, VaultError>(
            EntryView {
                id,
                site,
                username,
                password: was.password,
                notes: match notes {
                    Some(text) => kept_notes(Some(text)),
                    None => was.notes,
                },
                created_at: was.created_at,
                updated_at: now,
            },
        ),
{
    let key = before.key->Some_0;
    let row = after.entries[id];
    match notes {
        Some(text) => {
            match kept_notes(Some(text)) {
                Some(kept) => {
                    lemma_sealed_text_opens(key, kept, row.notes_enc->Some_0);
                },
                None => {},
            }
        },
        None => {},
    }
}

/// An update that gives a password replaces it: the entry reads with the
/// new password afterwards.
pub proof fn law_update_replaces_password(
    before: VaultView,
    after: VaultView,
    now: i64,
    id: i64,
    site: Seq<char>,
    username: Seq<char>,
    password: Seq<char>,
    notes: Option<Seq<char>>,
    was: EntryView,
)
    requires
        get_spec(before, id) == Ok::<EntryView, VaultError>(was),
        update_post(before, after, now, id, site, username, Some(password), notes, Ok(())),
    ensures
        get_spec(after, id) == Ok::<EntryView, VaultError>(
            EntryView {
                id,
                site,
                username,
                password,
                notes: match notes {
                    Some(text) => kept_notes(Some(text)),
                    None => was.notes,
                },
                created_at: was.created_at,
                updated_at: now,
            },
        ),
{
    let key = before.key->Some_0;
    let row = after.entries[id];
    lemma_sealed_text_opens(key, password, row.password_enc);
    match notes {
        Some(text) => {
            match kept_notes(Some(text)) {
                Some(kept) => {
                    lemma_sealed_text_opens(key, kept, row.notes_enc->Some_0);
                },
                None => {},
            }
        },
        None => {},
    }
}

/// Reading an entry that an import added gives back the site, the user
/// name and the password of its item, and its notes as they are kept. The
/// `i`-th item is read under the `i`-th id from the counter on.
pub proof fn law_import_then_get(
    before: VaultView,
    after: VaultView,
    now: i64,
    items: Seq<BackupItemView>,
    count: usize,
    i: int,
)
    requires
        import_post(before, after, now, items, Ok(count)),
        0 <= i < count,
    ensures
        before.next_id + i <= i64::MAX,
        get_spec(after, (before.next_id + i) as i64) == Ok::<EntryView, VaultError>(
            EntryView {
                id: (before.next_id + i) as i64,
                site: items[i].site,
                username: items[i].username,
                password: items[i].password,
                notes: kept_notes(items[i].notes),
                created_at: now,
                updated_at: now,
            },
        ),
{
    let id = (before.next_id + i) as i64;
    assert(before.next_id <= id < after.next_id);
    assert(after.entries.contains_key(id));
    lemma_sealed_row_opens(
        before.key->Some_0,
        after.entries[id],
        items[i].password,
        kept_notes(items[i].notes),
    );
}

/// Importing what was exported brings every entry back: the import adds as
/// many entries as the export held, and the `i`-th of them reads with the
/// site, the user name and the password of the `i`-th exported entry, and
/// with its notes as they are kept; absent notes stay absent. Ids and time
/// stamps are assigned anew. Into a vault without entries, the import leaves
/// these entries and no others.
pub proof fn law_export_then_import(
    source: VaultView,
    exported: Seq<EntryView>,
    target: VaultView,
    after: VaultView,
    now: i64,
    count: usize,
    i: int,
)
    requires
        export_post(source, Ok(exported)),
        import_post(
            target,
            after,
            now,
            exported.map_values(|entry: EntryView| backup_item_of(entry)),
            Ok(count),
        ),
        0 <= i < exported.len(),
    ensures
        count == exported.len(),
        get_spec(after, (target.next_id + i) as i64) == Ok::<EntryView, VaultError>(
            EntryView {
                id: (target.next_id + i) as i64,
                site: exported[i].site,
                username: exported[i].username,
                password: exported[i].password,
                notes: kept_notes(exported[i].notes),
                created_at: now,
                updated_at: now,
            },
        ),
        target.entries =~= Map::<i64, RowView>::empty() ==> forall|id: i64|
            after.entries.contains_key(id) <==> target.next_id <= id < target.next_id + count,
{
    let items = exported.map_values(|entry: EntryView| backup_item_of(entry));
    law_import_then_get(target, after, now, items, count, i);
}

/// Deleting succeeds on an unlocked vault whether or not the id is in use,
/// and changes nothing where it is not; reading the id afterwards fails
/// with [`VaultError::NotFound`].
pub proof fn law_delete_then_get(v: VaultView, id: i64)
    requires
        v.key is Some,
    ensures
        delete_spec(v, id).1 == Ok::<(), VaultError>(()),
        !v.entries.contains_key(id) ==> delete_spec(v, id).0 == v,
        get_spec(delete_spec(v, id).0, id) == Err::<EntryView, VaultError>(VaultError::NotFound),
{
    if !v.entries.contains_key(id) {
        assert(v.entries.remove(id) =~= v.entries);
    }
}

/// The configuration record, once created, is never changed: no operation
/// replaces or removes it.
pub proof fn law_config_is_kept(
    before: VaultView,
    after: VaultView,
    now: i64,
    id: i64,
    master: Seq<char>,
    site: Seq<char>,
    username: Seq<char>,
    password: Seq<char>,
    new_password: Option<Seq<char>>,
    notes: Option<Seq<char>>,
    items: Seq<BackupItemView>,
)
    requires
        before.config is Some,
    ensures
        lock_spec(before).config == before.config,
        unlock_spec(before, master).0.config == before.config,
        delete_spec(before, id).0.config == before.config,
        forall|r: Result<(), VaultError>|
            init_post(before, after, now, master, r) ==> after.config == before.config && r
                == Err::<(), VaultError>(VaultError::AlreadyInitialized),
        forall|r: Result<i64, VaultError>|
            add_post(before, after, now, site, username, password, notes, r) ==> after.config
                == before.config,
        forall|r: Result<(), VaultError>|
            update_post(before, after, now, id, site, username, new_password, notes, r)
                ==> after.config == before.config,
        forall|r: Result<usize, VaultError>|
            import_post(before, after, now, items, r) ==> after.config == before.config,
{
}

/// Operations keep the entries of a vault valid.
pub proof fn law_validity_is_kept(
    before: VaultView,
    after: VaultView,
    now: i64,
    id: i64,
    master: Seq<char>,
    site: Seq<char>,
    username: Seq<char>,
    password: Seq<char>,
    new_password: Option<Seq<char>>,
    notes: Option<Seq<char>>,
    items: Seq<BackupItemView>,
)
    requires
        valid(before),
    ensures
        valid(lock_spec(before)),
        valid(unlock_spec(before, master).0),
        valid(delete_spec(before, id).0),
        forall|r: Result<(), VaultError>|
            init_post(before, after, now, master, r) ==> valid(after),
        forall|r: Result<i64, VaultError>|
            add_post(before, after, now, site, username, password, notes, r) ==> valid(after),
        forall|r: Result<(), VaultError>|
            update_post(before, after, now, id, site, username, new_password, notes, r) ==> valid(
                after,
            ),
        forall|r: Result<usize, VaultError>|
            import_post(before, after, now, items, r) ==> valid(after),
{
    assert forall|r: Result<i64, VaultError>|
        add_post(before, after, now, site, username, password, notes, r) implies valid(after) by {
        if let Ok(new_id) = r {
            if before.key is Some {
                assert forall|other: i64| #[trigger] after.entries.contains_key(other) implies 1
                    <= other < after.next_id && after.entries[other].id == other by {
                    if other != new_id {
                        assert(before.entries.contains_key(other));
                    }
                }
            }
        }
    }
    assert forall|r: Result<(), VaultError>|
        update_post(
            before,
            after,
            now,
            id,
            site,
            username,
            new_password,
            notes,
            r,
        ) implies valid(after) by {
        if r is Ok && before.key is Some && before.entries.contains_key(id) {
            assert forall|other: i64| #[trigger] after.entries.contains_key(other) implies 1
                <= other < after.next_id && after.entries[other].id == other by {
                if other != id {
                    assert(before.entries.contains_key(other));
                }
            }
        }
    }
    assert forall|r: Result<usize, VaultError>|
        import_post(before, after, now, items, r) implies valid(after) by {
        if before.key is Some {
            assert forall|other: i64| #[trigger] after.entries.contains_key(other) implies 1
                <= other < after.next_id && after.entries[other].id == other by {
                if before.entries.contains_key(other) {
                    assert(after.entries[other] == before.entries[other]);
                } else {
                    assert(before.next_id <= other < after.next_id);
                    let row = after.entries[other];
                    assert(row.id == other);
                }
            }
        }
    }
}

/// A search term without whitespace at either end is searched as it is:
/// trimming leaves it unchanged.
pub proof fn law_trimmed_text_is_kept(s: Seq<char>)
    requires
        s.len() > 0 ==> !white_space(s[0]) && !white_space(s[s.len() - 1]),
    ensures
        trimmed(s) == s,
{
    lemma_trimmed(s, 0, s.len() as int);
    assert(s.subrange(0, s.len() as int) =~= s);
}

/// The order of a listing leaves no choice: two listings of the same rows
/// for the same search are the same listing.
pub proof fn law_listing_is_unique(
    entries: Map<i64, RowView>,
    term: Option<Seq<char>>,
    a: Seq<ListItemView>,
    b: Seq<ListItemView>,
)
    requires
        is_listing(entries, term, a),
        is_listing(entries, term, b),
    ensures
        a == b,
{
    lemma_listing_prefix(entries, term, a, b, a.len() as int);
    lemma_listing_prefix(entries, term, b, a, b.len() as int);
    assert(a =~= b);
}

/// Two listings of the same rows agree on their first `n` items, as far as
/// the first of them goes.
proof fn lemma_listing_prefix(
    entries: Map<i64, RowView>,
    term: Option<Seq<char>>,
    a: Seq<ListItemView>,
    b: Seq<ListItemView>,
    n: int,
)
    requires
        is_listing(entries, term, a),
        is_listing(entries, term, b),
        0 <= n <= a.len(),
    ensures
        n <= b.len(),
        forall|k: int| 0 <= k < n ==> a[k] == b[k],
    decreases n,
{
    if n > 0 {
        lemma_listing_prefix(entries, term, a, b, n - 1);
        let k = n - 1;
        // The item a[k] is listed in b, at some place p.
        assert(shows_selected(entries, term, a, k));
        let id = a[k].id;
        assert(lists_id(b, id));
        let p = choose|p: int| 0 <= p < b.len() && #[trigger] b[p].id == id;
        assert(shows_selected(entries, term, b, p));
        assert(b[p] == a[k]);
        if p < k {
            // Then b[p] == a[p], which stands before a[k] in a.
            assert(a[p] == b[p]);
            assert(lists_before(a[p], a[k]));
        }
        if p > k {
            // Then b[k] stands before b[p] == a[k]; it is listed in a at a
            // place q, which cannot lie before k nor after it.
            assert(shows_selected(entries, term, b, k));
            let other = b[k].id;
            assert(lists_id(a, other));
            let q = choose|q: int| 0 <= q < a.len() && #[trigger] a[q].id == other;
            assert(shows_selected(entries, term, a, q));
            assert(a[q] == b[k]);
            assert(lists_before(b[k], b[p]));
            if q < k {
                assert(a[q] == b[q]);
                assert(lists_before(b[q], b[k]));
            }
            if q > k {
                assert(lists_before(a[k], a[q]));
            }
        }
    }
}

/// The order of an export leaves no choice: two exports of the same entries
/// under the same key are the same export.
pub proof fn law_export_is_unique(
    key: Seq<u8>,
    entries: Map<i64, RowView>,
    a: Seq<EntryView>,
    b: Seq<EntryView>,
)
    requires
        is_export(key, entries, a),
        is_export(key, entries, b),
    ensures
        a == b,
{
    lemma_export_prefix(key, entries, a, b, a.len() as int);
    lemma_export_prefix(key, entries, b, a, b.len() as int);
    assert(a =~= b);
}

/// Two exports of the same entries agree on their first `n` entries, as far
/// as the first of them goes.
proof fn lemma_export_prefix(
    key: Seq<u8>,
    entries: Map<i64, RowView>,
    a: Seq<EntryView>,
    b: Seq<EntryView>,
    n: int,
)
    requires
        is_export(key, entries, a),
        is_export(key, entries, b),
        0 <= n <= a.len(),
    ensures
        n <= b.len(),
        forall|k: int| 0 <= k < n ==> a[k] == b[k],
    decreases n,
{
    if n > 0 {
        lemma_export_prefix(key, entries, a, b, n - 1);
        let k = n - 1;
        // The entry a[k] is exported in b, at some place p.
        let id = a[k].id;
        assert(entries.contains_key(id));
        let p = choose|p: int| 0 <= p < b.len() && #[trigger] b[p].id == id;
        assert(b[p] == a[k]);
        if p < k {
            assert(a[p] == b[p]);
            assert(a[p].id < a[k].id);
        }
        if p > k {
            // Then b[k] has a smaller id than a[k]; it is exported in a at a
            // place q, which cannot lie before k nor after it.
            let other = b[k].id;
            assert(entries.contains_key(other));
            let q = choose|q: int| 0 <= q < a.len() && #[trigger] a[q].id == other;
            assert(a[q] == b[k]);
            assert(b[k].id < b[p].id);
            if q < k {
                assert(a[q] == b[q]);
                assert(b[q].id < b[k].id);
            }
            if q > k {
                assert(a[k].id < a[q].id);
            }
        }
    }
}

} // verus!
