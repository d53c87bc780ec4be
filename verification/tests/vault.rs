use secret_vault::crypto::{derive_key, encrypt, KdfParams};
use secret_vault::error::VaultError;
use secret_vault::records::{backup_item, BackupItem, Entry, EntryRow, VaultConfig};
use secret_vault::vault::{new_config, DataBase};

/// A vault initialized for `master` with cheap parameters, locked.
fn light_vault(master: &str) -> DataBase {
    let params = KdfParams { mem_cost_kib: 64, iterations: 1, parallelism: 1 };
    let salt = vec![3u8; 16];
    let key = derive_key(master.as_bytes(), &salt, &params).unwrap();
    let key_check = encrypt(&key, b"vault-key-check").unwrap();
    let config = VaultConfig { kdf_salt: salt, kdf_params: params, key_check, created_at: 1 };
    DataBase::restore(Some(config), Vec::new(), 1).unwrap()
}

/// The same, unlocked.
fn unlocked_vault(master: &str) -> DataBase {
    let mut db = light_vault(master);
    db.unlock(master).unwrap();
    db
}

fn fields(e: &Entry) -> (String, String, String, Option<String>) {
    (e.site.clone(), e.username.clone(), e.password.clone(), e.notes.clone())
}

#[test]
fn a_new_vault_is_empty_and_locked() {
    let db = DataBase::open();
    assert!(!db.is_unlocked());
    assert!(db.config().is_none());
    assert!(db.stored_rows().is_empty());
    assert_eq!(db.next_id(), 1);
}

#[test]
fn initialize_creates_the_record_and_unlocks() {
    let mut db = DataBase::open();
    assert_eq!(db.init_master_at(1_700_000_000, "master123"), Ok(()));
    assert!(db.is_unlocked());
    let config = db.config().unwrap();
    assert_eq!(config.kdf_salt.len(), 16);
    assert_eq!(config.kdf_params, KdfParams::default());
    assert_eq!(config.key_check.len(), 12 + 15 + 16);
    assert_eq!(config.created_at, 1_700_000_000);
    // The key check is sealed under the key that the password gives.
    let key = derive_key(b"master123", &config.kdf_salt, &config.kdf_params).unwrap();
    assert_eq!(
        secret_vault::crypto::decrypt(&key, &config.key_check).unwrap(),
        b"vault-key-check"
    );
}

#[test]
fn new_config_is_made_of_the_draws() {
    let salt = [1u8; 16];
    let nonce = [2u8; 12];
    let (config, key) = new_config(5, "master123", &salt, &nonce).unwrap();
    assert_eq!(config.kdf_salt, salt.to_vec());
    assert_eq!(config.kdf_params, KdfParams { mem_cost_kib: 19_456, iterations: 2, parallelism: 1 });
    assert_eq!(config.created_at, 5);
    assert_eq!(key, derive_key(b"master123", &salt, &KdfParams::default()).unwrap());
    assert_eq!(
        config.key_check,
        secret_vault::crypto::encrypt_with_nonce(&key, &nonce, b"vault-key-check").unwrap()
    );
    assert_eq!(&config.key_check[..12], &nonce[..]);
    // A vault over this record unlocks with the password, and with no other.
    let mut db = DataBase::restore(Some(config), Vec::new(), 1).unwrap();
    assert_eq!(db.unlock("master124"), Err(VaultError::BadMasterPassword));
    assert_eq!(db.unlock("master123"), Ok(()));
}

#[test]
fn initialize_twice_is_refused() {
    let mut db = light_vault("master123");
    let before = db.config().unwrap().clone();
    assert_eq!(db.init_master("master123"), Err(VaultError::AlreadyInitialized));
    assert_eq!(db.init_master("other"), Err(VaultError::AlreadyInitialized));
    assert_eq!(db.config().unwrap(), &before);
    assert!(!db.is_unlocked());
}

#[test]
fn initialize_draws_a_fresh_salt() {
    let mut a = DataBase::open();
    let mut b = DataBase::open();
    a.init_master("master123").unwrap();
    b.init_master("master123").unwrap();
    assert_ne!(a.config().unwrap().kdf_salt, b.config().unwrap().kdf_salt);
    assert!(a.config().unwrap().created_at > 1_600_000_000);
}

#[test]
fn unlock_before_initialize_is_refused() {
    let mut db = DataBase::open();
    assert_eq!(db.unlock("master123"), Err(VaultError::NotInitialized));
    assert!(!db.is_unlocked());
}

#[test]
fn unlock_with_the_right_password_after_initialize() {
    let mut db = DataBase::open();
    db.init_master("master123").unwrap();
    db.lock();
    assert!(!db.is_unlocked());
    assert_eq!(db.unlock("master123"), Ok(()));
    assert!(db.is_unlocked());
}

#[test]
fn unlock_with_another_password_fails_and_stays_locked() {
    let mut db = light_vault("master123");
    for wrong in ["master124", "", "Master123", "master123 ", "master12"] {
        assert_eq!(db.unlock(wrong), Err(VaultError::BadMasterPassword));
        assert!(!db.is_unlocked());
        assert_eq!(db.get_entry(1), Err(VaultError::Locked));
    }
    assert_eq!(db.unlock("master123"), Ok(()));
    assert!(db.is_unlocked());
}

#[test]
fn a_failed_unlock_keeps_a_loaded_key() {
    let mut db = unlocked_vault("master123");
    let id = db.add_entry("example.com", "alice", "p@ss", None).unwrap();
    assert_eq!(db.unlock("wrong"), Err(VaultError::BadMasterPassword));
    assert!(db.is_unlocked());
    assert_eq!(db.get_password(id).unwrap(), "p@ss");
}

#[test]
fn unlock_reports_a_damaged_configuration() {
    let mut db = light_vault("master123");
    let mut config = db.config().unwrap().clone();
    // A key check too short to hold a nonce.
    config.key_check.truncate(11);
    let mut short = DataBase::restore(Some(config.clone()), Vec::new(), 1).unwrap();
    assert_eq!(short.unlock("master123"), Err(VaultError::Crypto));
    // A key check that seals another plaintext under the right key.
    let key = derive_key(b"master123", &config.kdf_salt, &config.kdf_params).unwrap();
    config.key_check = encrypt(&key, b"vault-key-chec").unwrap();
    let mut other = DataBase::restore(Some(config.clone()), Vec::new(), 1).unwrap();
    assert_eq!(other.unlock("master123"), Err(VaultError::BadMasterPassword));
    // Parameters that the key derivation does not take.
    config.kdf_params = KdfParams { mem_cost_kib: 1, iterations: 1, parallelism: 1 };
    let mut bad = DataBase::restore(Some(config.clone()), Vec::new(), 1).unwrap();
    assert_eq!(bad.unlock("master123"), Err(VaultError::Crypto));
    // A salt that the key derivation does not take.
    config.kdf_params = KdfParams { mem_cost_kib: 64, iterations: 1, parallelism: 1 };
    config.kdf_salt = vec![1u8; 4];
    let mut salty = DataBase::restore(Some(config), Vec::new(), 1).unwrap();
    assert_eq!(salty.unlock("master123"), Err(VaultError::Crypto));
    assert_eq!(db.unlock("master123"), Ok(()));
}

#[test]
fn lock_is_idempotent() {
    let mut db = unlocked_vault("master123");
    db.lock();
    assert!(!db.is_unlocked());
    db.lock();
    assert!(!db.is_unlocked());
    let mut fresh = DataBase::open();
    fresh.lock();
    assert!(!fresh.is_unlocked());
}

#[test]
fn a_locked_vault_refuses_every_operation() {
    let mut db = unlocked_vault("master123");
    let id = db.add_entry("example.com", "alice", "p@ss", Some("note")).unwrap();
    let blob = db.seal_backup(b"[]").unwrap();
    db.lock();
    assert!(!db.is_unlocked());
    assert_eq!(db.add_entry("a", "b", "c", None), Err(VaultError::Locked));
    assert_eq!(db.get_entry(id), Err(VaultError::Locked));
    assert_eq!(db.get_password(id), Err(VaultError::Locked));
    assert_eq!(db.list_entries(None), Err(VaultError::Locked));
    assert_eq!(db.list_entries(Some("example")), Err(VaultError::Locked));
    assert_eq!(db.update_entry(id, "a", "b", None, None), Err(VaultError::Locked));
    assert_eq!(db.delete_entry(id), Err(VaultError::Locked));
    assert_eq!(db.export_entries(), Err(VaultError::Locked));
    assert_eq!(db.seal_backup(b"[]"), Err(VaultError::Locked));
    assert_eq!(db.open_backup(&blob), Err(VaultError::Locked));
    assert_eq!(db.import_entries(&Vec::new()), Err(VaultError::Locked));
    // Nothing was changed meanwhile.
    assert_eq!(db.stored_rows().len(), 1);
    assert_eq!(db.next_id(), id + 1);
    db.unlock("master123").unwrap();
    assert_eq!(db.get_password(id).unwrap(), "p@ss");
    assert_eq!(db.list_entries(None).unwrap().len(), 1);
}

#[test]
fn add_then_get_returns_the_same_fields() {
    let mut db = unlocked_vault("master123");
    let id = db.add_entry_at(50, "example.com", "alice", "p@ss", Some("note")).unwrap();
    assert_eq!(id, 1);
    let e = db.get_entry(id).unwrap();
    assert_eq!(
        e,
        Entry {
            id: 1,
            site: "example.com".to_string(),
            username: "alice".to_string(),
            password: "p@ss".to_string(),
            notes: Some("note".to_string()),
            created_at: 50,
            updated_at: 50,
        }
    );
    assert_eq!(db.get_password(id).unwrap(), "p@ss");
}

#[test]
fn add_keeps_unicode_and_empty_fields() {
    let mut db = unlocked_vault("master123");
    let id = db.add_entry_at(1, "", "", "", None).unwrap();
    let e = db.get_entry(id).unwrap();
    assert_eq!(fields(&e), (String::new(), String::new(), String::new(), None));
    let id = db.add_entry_at(1, "пример.рф", "алиса", "pässwörd ✓", Some("заметка")).unwrap();
    let e = db.get_entry(id).unwrap();
    assert_eq!(e.site, "пример.рф");
    assert_eq!(e.username, "алиса");
    assert_eq!(e.password, "pässwörd ✓");
    assert_eq!(e.notes.as_deref(), Some("заметка"));
}

#[test]
fn empty_notes_are_stored_as_no_notes() {
    let mut db = unlocked_vault("master123");
    let a = db.add_entry("example.com", "alice", "p@ss", Some("")).unwrap();
    let b = db.add_entry("example.com", "bob", "p@ss", None).unwrap();
    assert_eq!(db.get_entry(a).unwrap().notes, None);
    assert_eq!(db.get_entry(b).unwrap().notes, None);
    assert_eq!(db.stored_row(a).unwrap().notes_enc, None);
    assert_eq!(db.stored_row(b).unwrap().notes_enc, None);
    // Whitespace is no empty text.
    let c = db.add_entry("example.com", "carol", "p@ss", Some(" ")).unwrap();
    assert_eq!(db.get_entry(c).unwrap().notes.as_deref(), Some(" "));
}

#[test]
fn stored_rows_hold_no_plaintext() {
    let mut db = unlocked_vault("master123");
    let id = db.add_entry("example.com", "alice", "hunter2hunter2", Some("my secret notes")).unwrap();
    let row = db.stored_row(id).unwrap();
    assert_eq!(row.site, "example.com");
    assert_eq!(row.username, "alice");
    assert_eq!(row.password_enc.len(), 12 + 14 + 16);
    let notes = row.notes_enc.unwrap();
    assert_eq!(notes.len(), 12 + 15 + 16);
    let has = |hay: &[u8], needle: &[u8]| hay.windows(needle.len()).any(|w| w == needle);
    assert!(!has(&row.password_enc, b"hunter2"));
    assert!(!has(&notes, b"secret"));
}

#[test]
fn ids_are_assigned_in_order_and_never_again() {
    let mut db = unlocked_vault("master123");
    assert_eq!(db.add_entry("a", "u", "p", None), Ok(1));
    assert_eq!(db.add_entry("b", "u", "p", None), Ok(2));
    assert_eq!(db.add_entry("c", "u", "p", None), Ok(3));
    db.delete_entry(3).unwrap();
    assert_eq!(db.add_entry("d", "u", "p", None), Ok(4));
    db.delete_entry(1).unwrap();
    assert_eq!(db.add_entry("e", "u", "p", None), Ok(5));
    let ids: Vec<i64> = db.stored_rows().iter().map(|r| r.id).collect();
    assert_eq!(ids, vec![2, 4, 5]);
    assert_eq!(db.next_id(), 6);
}

#[test]
fn get_of_an_unknown_id_is_not_found() {
    let mut db = unlocked_vault("master123");
    assert_eq!(db.get_entry(1), Err(VaultError::NotFound));
    let id = db.add_entry("a", "u", "p", None).unwrap();
    assert_eq!(db.get_entry(id + 1), Err(VaultError::NotFound));
    assert_eq!(db.get_entry(0), Err(VaultError::NotFound));
    assert_eq!(db.get_entry(-1), Err(VaultError::NotFound));
    assert_eq!(db.get_password(id + 1), Err(VaultError::NotFound));
}

#[test]
fn get_of_a_damaged_row_is_a_crypto_error() {
    let mut db = unlocked_vault("master123");
    let id = db.add_entry("example.com", "alice", "p@ss", Some("note")).unwrap();
    let config = db.config().unwrap().clone();
    let good = db.stored_row(id).unwrap();
    let reopen = |row: EntryRow| {
        let mut db = DataBase::restore(Some(config.clone()), vec![row], 2).unwrap();
        db.unlock("master123").unwrap();
        db
    };
    // A flipped bit in the password.
    let mut row = good.clone();
    row.password_enc[20] ^= 1;
    assert_eq!(reopen(row).get_entry(id), Err(VaultError::Crypto));
    // A flipped bit in the notes.
    let mut row = good.clone();
    row.notes_enc.as_mut().unwrap()[0] ^= 0x80;
    assert_eq!(reopen(row).get_entry(id), Err(VaultError::Crypto));
    // A password too short to hold a nonce.
    let mut row = good.clone();
    row.password_enc.truncate(5);
    assert_eq!(reopen(row).get_entry(id), Err(VaultError::Crypto));
    // A password that is no text.
    let key = derive_key(b"master123", &config.kdf_salt, &config.kdf_params).unwrap();
    let mut row = good.clone();
    row.password_enc = encrypt(&key, &[0xff, 0xfe]).unwrap();
    assert_eq!(reopen(row).get_entry(id), Err(VaultError::Crypto));
    // Notes that are no text.
    let mut row = good.clone();
    row.notes_enc = Some(encrypt(&key, &[0xc0, 0x80]).unwrap());
    let db2 = reopen(row);
    assert_eq!(db2.get_entry(id), Err(VaultError::Crypto));
    assert_eq!(db2.export_entries(), Err(VaultError::Crypto));
    // The intact row still opens.
    assert_eq!(reopen(good).get_password(id).unwrap(), "p@ss");
}

#[test]
fn rows_sealed_under_another_key_do_not_open() {
    let mut a = unlocked_vault("master123");
    let id = a.add_entry("example.com", "alice", "p@ss", None).unwrap();
    let rows = a.stored_rows();
    let other = light_vault("another");
    let mut b = DataBase::restore(other.config().cloned(), rows, 2).unwrap();
    b.unlock("another").unwrap();
    assert_eq!(b.get_entry(id), Err(VaultError::Crypto));
}

#[test]
fn end_to_end() {
    let mut db = DataBase::open();

    db.init_master("master123").unwrap();
    assert!(db.is_unlocked());

    let id = db.add_entry("example.com", "alice", "p@ss", Some("note")).unwrap();
    let e = db.get_entry(id).unwrap();
    assert_eq!(e.username, "alice");
    assert_eq!(e.password, "p@ss");
    assert_eq!(e.notes.as_deref(), Some("note"));

    db.update_entry(id, "example.org", "alice", Some("new"), None).unwrap();
    let e2 = db.get_entry(id).unwrap();
    assert_eq!(e2.site, "example.org");
    assert_eq!(e2.password, "new");
    // Notes that an update leaves out are kept.
    assert_eq!(e2.notes.as_deref(), Some("note"));

    let all = db.list_entries(None).unwrap();
    assert_eq!(all.len(), 1);
    let found = db.list_entries(Some("example")).unwrap();
    assert_eq!(found.len(), 1);

    let exported = db.export_entries().unwrap();
    let backup = db.seal_backup(b"sealed as one blob").unwrap();
    assert_eq!(db.open_backup(&backup).unwrap(), b"sealed as one blob");
    let items: Vec<BackupItem> = exported.iter().map(backup_item).collect();
    let imported = db.import_entries(&items).unwrap();
    assert!(imported >= 1);

    db.lock();
    assert!(!db.is_unlocked());
    assert!(matches!(db.get_entry(id), Err(VaultError::Locked)));
    db.unlock("master123").unwrap();
    let _ = db.get_entry(id).unwrap();
}

#[test]
fn scenario_add_update_get() {
    let mut db = DataBase::open();
    db.init_master("master123").unwrap();
    assert!(db.is_unlocked());
    let id = db.add_entry("example.com", "alice", "p@ss", Some("note")).unwrap();
    let e = db.get_entry(id).unwrap();
    assert_eq!(e.site, "example.com");
    assert_eq!(e.username, "alice");
    assert_eq!(e.password, "p@ss");
    assert_eq!(e.notes.as_deref(), Some("note"));

    db.update_entry(id, "example.org", "alice", Some("new"), None).unwrap();
    let e2 = db.get_entry(id).unwrap();
    assert_eq!(e2.site, "example.org");
    assert_eq!(e2.username, "alice");
    assert_eq!(e2.password, "new");
    assert_eq!(e2.notes.as_deref(), Some("note"));

    db.update_entry(id, "example.org", "alice", None, Some("")).unwrap();
    let e3 = db.get_entry(id).unwrap();
    assert_eq!(e3.site, "example.org");
    assert_eq!(e3.password, "new");
    assert!(e3.notes.is_none());

    let all = db.list_entries(None).unwrap();
    assert_eq!(all.len(), 1);
    let found = db.list_entries(Some("example")).unwrap();
    assert_eq!(found.len(), 1);

    db.lock();
    assert!(!db.is_unlocked());
    assert!(matches!(db.get_entry(id), Err(VaultError::Locked)));
    db.unlock("master123").unwrap();
    let _ = db.get_entry(id).unwrap();
}

#[test]
fn update_without_password_keeps_the_password() {
    let mut db = unlocked_vault("master123");
    let id = db.add_entry_at(10, "example.com", "alice", "p@ss", Some("note")).unwrap();
    let before = db.stored_row(id).unwrap();
    db.update_entry_at(20, id, "example.org", "bob", None, None).unwrap();
    let after = db.stored_row(id).unwrap();
    // The stored ciphertexts are the same bytes, not a new sealing.
    assert_eq!(after.password_enc, before.password_enc);
    assert_eq!(after.notes_enc, before.notes_enc);
    let e = db.get_entry(id).unwrap();
    assert_eq!(
        e,
        Entry {
            id,
            site: "example.org".to_string(),
            username: "bob".to_string(),
            password: "p@ss".to_string(),
            notes: Some("note".to_string()),
            created_at: 10,
            updated_at: 20,
        }
    );
}

#[test]
fn update_replaces_what_is_given() {
    let mut db = unlocked_vault("master123");
    let id = db.add_entry_at(10, "example.com", "alice", "p@ss", None).unwrap();
    let before = db.stored_row(id).unwrap();
    db.update_entry_at(30, id, "example.com", "alice", Some("p@ss"), Some("fresh")).unwrap();
    let after = db.stored_row(id).unwrap();
    // Even the same password is sealed anew.
    assert_ne!(after.password_enc, before.password_enc);
    let e = db.get_entry(id).unwrap();
    assert_eq!(e.password, "p@ss");
    assert_eq!(e.notes.as_deref(), Some("fresh"));
    assert_eq!(e.created_at, 10);
    assert_eq!(e.updated_at, 30);
    db.update_entry_at(40, id, "s", "u", Some(""), Some("other")).unwrap();
    let e = db.get_entry(id).unwrap();
    assert_eq!(fields(&e), ("s".to_string(), "u".to_string(), String::new(), Some("other".to_string())));
    assert_eq!(e.updated_at, 40);
}

#[test]
fn update_of_an_unknown_id_is_not_found() {
    let mut db = unlocked_vault("master123");
    assert_eq!(db.update_entry(1, "a", "b", Some("c"), None), Err(VaultError::NotFound));
    let id = db.add_entry("a", "u", "p", None).unwrap();
    assert_eq!(db.update_entry(id + 1, "a", "b", None, None), Err(VaultError::NotFound));
    assert_eq!(db.stored_rows().len(), 1);
    assert_eq!(db.get_entry(id).unwrap().site, "a");
}

#[test]
fn update_refreshes_the_time_of_change() {
    let mut db = unlocked_vault("master123");
    let id = db.add_entry_at(10, "a", "u", "p", None).unwrap();
    db.update_entry(id, "a", "u", None, None).unwrap();
    let e = db.get_entry(id).unwrap();
    assert_eq!(e.created_at, 10);
    assert!(e.updated_at > 1_600_000_000);
}

#[test]
fn delete_removes_the_entry() {
    let mut db = unlocked_vault("master123");
    let a = db.add_entry("a", "u", "p", None).unwrap();
    let b = db.add_entry("b", "u", "p", None).unwrap();
    assert_eq!(db.delete_entry(a), Ok(()));
    assert_eq!(db.get_entry(a), Err(VaultError::NotFound));
    assert_eq!(db.get_entry(b).unwrap().site, "b");
    assert_eq!(db.list_entries(None).unwrap().len(), 1);
}

#[test]
fn delete_of_an_unknown_id_succeeds() {
    let mut db = unlocked_vault("master123");
    let a = db.add_entry("a", "u", "p", None).unwrap();
    assert_eq!(db.delete_entry(99), Ok(()));
    assert_eq!(db.get_entry(99), Err(VaultError::NotFound));
    assert_eq!(db.delete_entry(99), Ok(()));
    assert_eq!(db.delete_entry(0), Ok(()));
    assert_eq!(db.delete_entry(i64::MIN), Ok(()));
    assert_eq!(db.stored_rows().len(), 1);
    assert_eq!(db.get_entry(a).unwrap().site, "a");
    assert_eq!(db.delete_entry(a), Ok(()));
    assert_eq!(db.delete_entry(a), Ok(()));
    assert_eq!(db.get_entry(a), Err(VaultError::NotFound));
}

#[test]
fn list_is_ordered_by_time_of_change_then_id() {
    let mut db = unlocked_vault("master123");
    let a = db.add_entry_at(100, "a.example", "u", "p", None).unwrap();
    let b = db.add_entry_at(300, "b.example", "u", "p", None).unwrap();
    let c = db.add_entry_at(200, "c.example", "u", "p", None).unwrap();
    let d = db.add_entry_at(300, "d.example", "u", "p", None).unwrap();
    let ids: Vec<i64> = db.list_entries(None).unwrap().iter().map(|i| i.id).collect();
    assert_eq!(ids, vec![d, b, c, a]);
    // A change moves an entry to the front.
    db.update_entry_at(400, a, "a.example", "u", None, None).unwrap();
    let items = db.list_entries(None).unwrap();
    let ids: Vec<i64> = items.iter().map(|i| i.id).collect();
    assert_eq!(ids, vec![a, d, b, c]);
    assert_eq!(items[0].site, "a.example");
    assert_eq!(items[0].username, "u");
    assert_eq!(items[0].created_at, 100);
    assert_eq!(items[0].updated_at, 400);
    assert!(items.windows(2).all(|w| w[0].updated_at >= w[1].updated_at));
}

#[test]
fn list_with_a_search_term() {
    let mut db = unlocked_vault("master123");
    let a = db.add_entry_at(1, "example.com", "alice", "p", None).unwrap();
    let b = db.add_entry_at(2, "other.org", "bob@example.net", "p", None).unwrap();
    let c = db.add_entry_at(3, "other.org", "carol", "example", Some("example")).unwrap();
    let d = db.add_entry_at(4, "my-example", "dave", "p", None).unwrap();
    let ids = |items: Vec<secret_vault::records::EntryListItem>| -> Vec<i64> {
        items.iter().map(|i| i.id).collect()
    };
    assert_eq!(ids(db.list_entries(Some("example")).unwrap()), vec![d, b, a]);
    assert_eq!(ids(db.list_entries(None).unwrap()), vec![d, c, b, a]);
    // The term is trimmed.
    assert_eq!(ids(db.list_entries(Some("  example\t\n")).unwrap()), vec![d, b, a]);
    // The whole field, its start, its end.
    assert_eq!(ids(db.list_entries(Some("example.com")).unwrap()), vec![a]);
    assert_eq!(ids(db.list_entries(Some("my-")).unwrap()), vec![d]);
    assert_eq!(ids(db.list_entries(Some(".net")).unwrap()), vec![b]);
    // The user name alone.
    assert_eq!(ids(db.list_entries(Some("carol")).unwrap()), vec![c]);
    // Case counts.
    assert_eq!(ids(db.list_entries(Some("Example")).unwrap()), Vec::<i64>::new());
    // Nothing matches across the two fields.
    assert_eq!(ids(db.list_entries(Some("orgcarol")).unwrap()), Vec::<i64>::new());
    // The empty term, and one of whitespace alone, select everything.
    assert_eq!(ids(db.list_entries(Some("")).unwrap()), vec![d, c, b, a]);
    assert_eq!(ids(db.list_entries(Some("   ")).unwrap()), vec![d, c, b, a]);
    // Inner whitespace stays.
    assert_eq!(ids(db.list_entries(Some("exa mple")).unwrap()), Vec::<i64>::new());
}

#[test]
fn list_of_an_empty_vault_is_empty() {
    let db = unlocked_vault("master123");
    assert_eq!(db.list_entries(None).unwrap(), Vec::new());
    assert_eq!(db.list_entries(Some("x")).unwrap(), Vec::new());
    assert_eq!(db.export_entries().unwrap(), Vec::new());
}

#[test]
fn export_holds_every_entry_in_the_clear() {
    let mut db = unlocked_vault("master123");
    db.add_entry_at(5, "b.example", "bob", "pw-b", Some("n")).unwrap();
    db.add_entry_at(3, "a.example", "alice", "pw-a", None).unwrap();
    let out = db.export_entries().unwrap();
    assert_eq!(
        out,
        vec![
            Entry {
                id: 1,
                site: "b.example".to_string(),
                username: "bob".to_string(),
                password: "pw-b".to_string(),
                notes: Some("n".to_string()),
                created_at: 5,
                updated_at: 5,
            },
            Entry {
                id: 2,
                site: "a.example".to_string(),
                username: "alice".to_string(),
                password: "pw-a".to_string(),
                notes: None,
                created_at: 3,
                updated_at: 3,
            },
        ]
    );
}

#[test]
fn backup_seal_and_open() {
    let db = unlocked_vault("master123");
    let blob = db.seal_backup(b"[{\"site\":\"a\"}]").unwrap();
    assert_eq!(blob.len(), 12 + 14 + 16);
    assert_eq!(db.open_backup(&blob).unwrap(), b"[{\"site\":\"a\"}]");
    // A blob too short to hold a nonce.
    assert_eq!(db.open_backup(&blob[..11]), Err(VaultError::Crypto));
    assert_eq!(db.open_backup(b""), Err(VaultError::Crypto));
    // A tampered blob.
    let mut tampered = blob.clone();
    tampered[15] ^= 4;
    assert_eq!(db.open_backup(&tampered), Err(VaultError::BadMasterPassword));
    assert_eq!(db.open_backup(&blob[..blob.len() - 1]), Err(VaultError::BadMasterPassword));
    // A backup of another vault.
    let other = unlocked_vault("another");
    assert_eq!(other.open_backup(&blob), Err(VaultError::BadMasterPassword));
}

#[test]
fn a_backup_opens_with_the_key_derived_again() {
    let mut db = unlocked_vault("master123");
    let blob = db.seal_backup(b"payload").unwrap();
    db.lock();
    db.unlock("master123").unwrap();
    assert_eq!(db.open_backup(&blob).unwrap(), b"payload");
}

#[test]
fn import_adds_each_item_under_a_fresh_id() {
    let mut db = unlocked_vault("master123");
    db.add_entry_at(1, "old", "u", "p", None).unwrap();
    let items = vec![
        BackupItem {
            site: "a".to_string(),
            username: "alice".to_string(),
            password: "pa".to_string(),
            notes: Some("na".to_string()),
        },
        BackupItem {
            site: "b".to_string(),
            username: "bob".to_string(),
            password: "pb".to_string(),
            notes: Some(String::new()),
        },
        BackupItem {
            site: "c".to_string(),
            username: "carol".to_string(),
            password: "pc".to_string(),
            notes: None,
        },
    ];
    assert_eq!(db.import_entries_at(77, &items), Ok(3));
    assert_eq!(db.next_id(), 5);
    let out = db.export_entries().unwrap();
    assert_eq!(out.len(), 4);
    assert_eq!(out[0].site, "old");
    for (i, item) in items.iter().enumerate() {
        let e = &out[i + 1];
        assert_eq!(e.id, i as i64 + 2);
        assert_eq!(e.site, item.site);
        assert_eq!(e.username, item.username);
        assert_eq!(e.password, item.password);
        assert_eq!(e.created_at, 77);
        assert_eq!(e.updated_at, 77);
    }
    assert_eq!(out[1].notes.as_deref(), Some("na"));
    assert_eq!(out[2].notes, None);
    assert_eq!(out[3].notes, None);
    assert_eq!(db.import_entries(&Vec::new()), Ok(0));
    assert_eq!(db.next_id(), 5);
}

#[test]
fn import_stops_where_no_id_is_left_and_keeps_what_it_added() {
    let source = unlocked_vault("master123");
    let config = source.config().cloned();
    let mut db = DataBase::restore(config, Vec::new(), i64::MAX - 2).unwrap();
    db.unlock("master123").unwrap();
    let item = |site: &str| BackupItem {
        site: site.to_string(),
        username: "u".to_string(),
        password: "p".to_string(),
        notes: None,
    };
    let items = vec![item("a"), item("b"), item("c"), item("d")];
    assert_eq!(db.import_entries(&items), Err(VaultError::Storage));
    let out = db.export_entries().unwrap();
    assert_eq!(out.len(), 2);
    assert_eq!((out[0].id, out[0].site.as_str()), (i64::MAX - 2, "a"));
    assert_eq!((out[1].id, out[1].site.as_str()), (i64::MAX - 1, "b"));
    assert_eq!(db.next_id(), i64::MAX);
    assert_eq!(db.add_entry("e", "u", "p", None), Err(VaultError::Storage));
    assert_eq!(db.stored_rows().len(), 2);
}

#[test]
fn scenario_export_then_import() {
    let mut db = unlocked_vault("master123");
    db.add_entry("example.com", "alice", "p@ss", Some("note")).unwrap();
    db.add_entry("example.org", "bob", "hunter2", None).unwrap();
    db.add_entry("пример.рф", "carol", "pässwörd \"quoted\" \\ ✓", Some("line\nbreak")).unwrap();
    let exported = db.export_entries().unwrap();

    // Serialize the entries as a list of objects, as a backup file holds them.
    let list: Vec<serde_json::Value> = exported
        .iter()
        .map(|e| {
            let mut o = serde_json::Map::new();
            o.insert("id".to_string(), serde_json::Value::from(e.id));
            o.insert("site".to_string(), serde_json::Value::from(e.site.clone()));
            o.insert("username".to_string(), serde_json::Value::from(e.username.clone()));
            o.insert("password".to_string(), serde_json::Value::from(e.password.clone()));
            o.insert("notes".to_string(), serde_json::Value::from(e.notes.clone()));
            o.insert("created_at".to_string(), serde_json::Value::from(e.created_at));
            o.insert("updated_at".to_string(), serde_json::Value::from(e.updated_at));
            serde_json::Value::Object(o)
        })
        .collect();
    let serialized = serde_json::to_vec(&serde_json::Value::Array(list)).unwrap();
    let blob = db.seal_backup(&serialized).unwrap();
    assert_eq!(blob.len(), serialized.len() + 28);

    for e in &exported {
        db.delete_entry(e.id).unwrap();
    }
    assert!(db.list_entries(None).unwrap().is_empty());

    let opened = db.open_backup(&blob).unwrap();
    assert_eq!(opened, serialized);
    let parsed: serde_json::Value = serde_json::from_slice(&opened).unwrap();
    let items: Vec<BackupItem> = parsed
        .as_array()
        .unwrap()
        .iter()
        .map(|v| BackupItem {
            site: v["site"].as_str().unwrap().to_string(),
            username: v["username"].as_str().unwrap().to_string(),
            password: v["password"].as_str().unwrap().to_string(),
            notes: v["notes"].as_str().map(|s| s.to_string()),
        })
        .collect();
    assert_eq!(db.import_entries(&items), Ok(3));

    let restored = db.export_entries().unwrap();
    assert_eq!(restored.len(), exported.len());
    for (old, new) in exported.iter().zip(restored.iter()) {
        assert_eq!(fields(old), fields(new));
        assert_ne!(old.id, new.id);
    }
}

#[test]
fn restore_checks_the_rows() {
    let mut db = unlocked_vault("master123");
    db.add_entry("a", "u", "p", None).unwrap();
    db.add_entry("b", "u", "p", None).unwrap();
    let config = db.config().cloned();
    let rows = db.stored_rows();
    assert!(DataBase::restore(config.clone(), rows.clone(), 3).is_ok());
    assert!(DataBase::restore(config.clone(), rows.clone(), 100).is_ok());
    assert!(DataBase::restore(None, Vec::new(), 1).is_ok());
    let refused = |rows: Vec<EntryRow>, next_id: i64| {
        matches!(DataBase::restore(config.clone(), rows, next_id), Err(VaultError::Storage))
    };
    // An id at or above the counter.
    assert!(refused(rows.clone(), 2));
    // A counter below 1.
    assert!(refused(Vec::new(), 0));
    // Rows out of order.
    assert!(refused(vec![rows[1].clone(), rows[0].clone()], 3));
    // An id twice.
    assert!(refused(vec![rows[0].clone(), rows[0].clone()], 3));
    // An id below 1.
    let mut zero = rows[0].clone();
    zero.id = 0;
    assert!(refused(vec![zero], 3));
}

#[test]
fn restore_gives_a_locked_vault_with_the_same_entries() {
    let mut db = unlocked_vault("master123");
    let a = db.add_entry_at(7, "a", "alice", "pa", Some("n")).unwrap();
    db.add_entry_at(8, "b", "bob", "pb", None).unwrap();
    db.delete_entry(2).unwrap();
    let mut again =
        DataBase::restore(db.config().cloned(), db.stored_rows(), db.next_id()).unwrap();
    assert!(!again.is_unlocked());
    assert_eq!(again.get_entry(a), Err(VaultError::Locked));
    again.unlock("master123").unwrap();
    assert_eq!(again.get_entry(a).unwrap(), db.get_entry(a).unwrap());
    assert_eq!(again.add_entry("c", "u", "p", None), Ok(3));
}

#[test]
fn reload_takes_the_stored_rows_and_keeps_the_session() {
    let mut db = unlocked_vault("master123");
    let a = db.add_entry_at(1, "a", "alice", "pa", None).unwrap();
    let stored = db.stored_rows();
    // The vault goes on with rows that never reached the store.
    let b = db.add_entry_at(2, "b", "bob", "pb", None).unwrap();
    db.delete_entry(a).unwrap();
    assert_eq!(db.reload_entries(stored, 2), Ok(()));
    assert!(db.is_unlocked());
    assert_eq!(db.get_password(a).unwrap(), "pa");
    assert_eq!(db.get_entry(b), Err(VaultError::NotFound));
    assert_eq!(db.next_id(), 2);
    // Rows that are no table are refused, and nothing changes.
    let mut twice = db.stored_rows();
    twice.push(twice[0].clone());
    assert_eq!(db.reload_entries(twice, 5), Err(VaultError::Storage));
    assert_eq!(db.reload_entries(db.stored_rows(), 1), Err(VaultError::Storage));
    assert_eq!(db.stored_rows().len(), 1);
    assert_eq!(db.next_id(), 2);
    assert!(db.is_unlocked());
}

#[test]
fn a_backup_item_carries_the_four_fields() {
    let entry = Entry {
        id: 9,
        site: "example.com".to_string(),
        username: "alice".to_string(),
        password: "p@ss".to_string(),
        notes: Some("note".to_string()),
        created_at: 1,
        updated_at: 2,
    };
    assert_eq!(
        backup_item(&entry),
        BackupItem {
            site: "example.com".to_string(),
            username: "alice".to_string(),
            password: "p@ss".to_string(),
            notes: Some("note".to_string()),
        }
    );
    let bare = Entry { notes: None, ..entry };
    assert_eq!(backup_item(&bare).notes, None);
}

#[test]
fn export_then_import_into_an_empty_vault() {
    let mut source = unlocked_vault("master123");
    source.add_entry_at(1, "a", "alice", "pa", Some("na")).unwrap();
    source.add_entry_at(2, "b", "bob", "pb", None).unwrap();
    source.add_entry_at(3, "c", "carol", "pc", Some("nc")).unwrap();
    source.delete_entry(2).unwrap();
    let exported = source.export_entries().unwrap();
    let items: Vec<BackupItem> = exported.iter().map(backup_item).collect();
    let mut target = unlocked_vault("another");
    assert_eq!(target.import_entries_at(50, &items), Ok(2));
    let restored = target.export_entries().unwrap();
    assert_eq!(restored.len(), 2);
    for (i, (old, new)) in exported.iter().zip(restored.iter()).enumerate() {
        assert_eq!(new.id, i as i64 + 1);
        assert_eq!(fields(old), fields(new));
        assert_eq!(new.created_at, 50);
        assert_eq!(new.updated_at, 50);
    }
}

#[test]
fn a_new_entry_takes_an_id_that_no_stored_row_has() {
    let mut db = unlocked_vault("master123");
    for round in 0..5 {
        let before: Vec<i64> = db.stored_rows().iter().map(|r| r.id).collect();
        let id = db.add_entry("s", "u", "p", None).unwrap();
        assert!(!before.contains(&id));
        if round % 2 == 0 {
            db.delete_entry(id).unwrap();
        }
    }
    let before: Vec<i64> = db.stored_rows().iter().map(|r| r.id).collect();
    let first = db.next_id();
    let item = BackupItem {
        site: "s".to_string(),
        username: "u".to_string(),
        password: "p".to_string(),
        notes: None,
    };
    assert_eq!(db.import_entries(&vec![item.clone(), item.clone(), item]), Ok(3));
    for id in first..first + 3 {
        assert!(!before.contains(&id));
        assert!(db.get_entry(id).is_ok());
    }
}
