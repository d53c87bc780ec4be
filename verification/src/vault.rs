//! The vault engine: one configuration record, the table of entries, and
//! the key session that every operation on entries goes through.
use crate::clock::epoch;
use crate::crypto::{
    derive_key, encrypt, encrypt_with_nonce, os_random, same_bytes, unseal, KdfParams, SealFault,
};
use crate::error::VaultError;
use crate::listing::select;
use crate::model::{
    add_post, backup_views, bytes_outcome, delete_spec, entry_outcome, entry_views,
    export_outcome, export_post, get_password_spec, get_spec, import_post, imported, init_post,
    lemma_key_check_len, list_post, listing_outcome, lock_spec, made_for, new_config_spec,
    open_backup_spec, opt_config, seal_backup_post, stores, text_outcome, unlock_spec,
    update_post, valid,
    VaultView,
};
use crate::password::{alphabet, generate_password, password_of};
use crate::records::{
    copy_row, kept_notes, open_row, open_row_spec, opt_str, seal_notes, seal_text, BackupItem,
    ConfigView, Entry, EntryListItem, EntryRow, EntryView, RowView, VaultConfig,
};
use crate::session::{erase, wipe, zeros, KeySession};
use crate::table::{as_map, index_of, lemma_map_at, row_views, rows_valid, EntryTable};
use vstd::prelude::*;
use vstd::slice::*;
use vstd::string::*;

verus! {

/// Makes the configuration record and the key for a master password at the
/// time `now`, from a salt and a nonce that the caller drew.
pub fn new_config(now: i64, master: &str, salt: &[u8; 16], nonce: &[u8; 12]) -> (r: Result<
    (VaultConfig, [u8; 32]),
    VaultError,
>)
    ensures
        match r {
            Ok((config, key)) => {
                &&& new_config_spec(now, master@, salt@, nonce@) == Ok::<
                    (ConfigView, Seq<u8>),
                    VaultError,
                >((config@, key@))
                &&& made_for(config@, master@)
            },
            Err(e) => new_config_spec(now, master@, salt@, nonce@) == Err::<
                (ConfigView, Seq<u8>),
                VaultError,
            >(e),
        },
{
    let params = KdfParams::default();
    let mut key = match derive_key(master.as_bytes(), salt.as_slice(), &params) {
        Ok(key) => key,
        Err(e) => {
            return Err(e);
        },
    };
    proof {
        lemma_key_check_len();
    }
    match encrypt_with_nonce(&key, nonce, "vault-key-check".as_bytes()) {
        Ok(key_check) => Ok(
            (
                VaultConfig {
                    kdf_salt: slice_to_vec(salt.as_slice()),
                    kdf_params: params,
                    key_check,
                    created_at: now,
                },
                key,
            ),
        ),
        Err(e) => {
            wipe(&mut key);
            Err(e)
        },
    }
}

/// The vault: its configuration record, its entries, and its key session.
pub struct DataBase {
    config: Option<VaultConfig>,
    table: EntryTable,
    session: KeySession,
}

impl View for DataBase {
    type V = VaultView;

    closed spec fn view(&self) -> VaultView {
        VaultView {
            config: opt_config(self.config),
            entries: self.table@,
            next_id: self.table.upcoming_id(),
            key: self.session@,
        }
    }
}

impl DataBase {
    /// The stored rows in the order of their ids.
    pub closed spec fn rows(&self) -> Seq<RowView> {
        self.table.rows()
    }

    /// The bytes in the buffer that holds the session key while the vault is
    /// unlocked.
    pub closed spec fn key_buffer(&self) -> Seq<u8> {
        self.session.buffer()
    }

    /// A vault whose rows are valid has a valid value, and its rows are its
    /// entries.
    pub proof fn lemma_valid(&self)
        requires
            rows_valid(self.rows(), self@.next_id),
        ensures
            valid(self@),
            self@.entries == as_map(self.rows()),
    {
        let rows = self.table.rows();
        assert forall|id: i64| #[trigger] self@.entries.contains_key(id) implies 1 <= id
            < self@.next_id && self@.entries[id].id == id by {
            let i = index_of(rows, id);
            lemma_map_at(rows, i);
        }
    }

    /// A new vault: no configuration record, no entries, locked.
    pub fn open() -> (db: Self)
        ensures
            db@ == (VaultView {
                config: None,
                entries: Map::<i64, RowView>::empty(),
                next_id: 1,
                key: None,
            }),
            db.key_buffer() == zeros(),
    {
        DataBase { config: None, table: EntryTable::new(), session: KeySession::new() }
    }

    /// A locked vault over what was stored before: the configuration record
    /// if there was one, the rows in the order of their ids, and the id
    /// counter. Rows out of order, or with ids outside `1..next_id`, are
    /// refused with [`VaultError::Storage`].
    pub fn restore(config: Option<VaultConfig>, rows: Vec<EntryRow>, next_id: i64) -> (r: Result<
        Self,
        VaultError,
    >)
        ensures
            match r {
                Ok(db) => {
                    &&& rows_valid(row_views(rows@), next_id)
                    &&& db.rows() == row_views(rows@)
                    &&& db@ == (VaultView {
                        config: opt_config(config),
                        entries: as_map(row_views(rows@)),
                        next_id,
                        key: None,
                    })
                },
                Err(e) => e == VaultError::Storage && !rows_valid(row_views(rows@), next_id),
            },
    {
        match EntryTable::restore(rows, next_id) {
            Some(table) => Ok(DataBase { config, table, session: KeySession::new() }),
            None => Err(VaultError::Storage),
        }
    }

    /// Takes the rows as they are stored in place of the rows held, with
    /// the id counter they are stored with. The configuration record and the
    /// session stay as they are. Rows out of order, or with ids outside
    /// `1..next_id`, are refused with [`VaultError::Storage`] and nothing
    /// changes.
    pub fn reload_entries(&mut self, rows: Vec<EntryRow>, next_id: i64) -> (r: Result<
        (),
        VaultError,
    >)
        ensures
            match r {
                Ok(_) => {
                    &&& rows_valid(row_views(rows@), next_id)
                    &&& final(self).rows() == row_views(rows@)
                    &&& final(self)@ == (VaultView {
                        entries: as_map(row_views(rows@)),
                        next_id,
                        ..old(self)@
                    })
                },
                Err(e) => {
                    &&& e == VaultError::Storage
                    &&& !rows_valid(row_views(rows@), next_id)
                    &&& final(self)@ == old(self)@
                    &&& final(self).rows() == old(self).rows()
                },
            },
    {
        match EntryTable::restore(rows, next_id) {
            Some(table) => {
                self.table = table;
                Ok(())
            },
            None => Err(VaultError::Storage),
        }
    }

    /// Whether a key is loaded.
    pub fn is_unlocked(&self) -> (unlocked: bool)
        ensures
            unlocked == (self@.key is Some),
    {
        self.session.is_unlocked()
    }

    /// Overwrites the session key with zeros and marks the vault locked.
    /// Locking a locked vault is no failure.
    pub fn lock(&mut self)
        ensures
            final(self)@ == lock_spec(old(self)@),
            final(self).key_buffer() == zeros(),
    {
        self.session.lock();
    }

    /// Creates the configuration record for `master` at the time `now` and
    /// unlocks the vault with the derived key.
    pub fn init_master_at(&mut self, now: i64, master: &str) -> (r: Result<(), VaultError>)
        ensures
            init_post(old(self)@, final(self)@, now, master@, r),
    {
        if self.config.is_some() {
            return Err(VaultError::AlreadyInitialized);
        }
        let salt = match os_random::<16>() {
            Some(salt) => salt,
            None => {
                return Err(VaultError::Crypto);
            },
        };
        let nonce = match os_random::<12>() {
            Some(nonce) => nonce,
            None => {
                return Err(VaultError::Crypto);
            },
        };
        match new_config(now, master, &salt, &nonce) {
            Ok((config, mut key)) => {
                self.config = Some(config);
                self.session.install(key);
                wipe(&mut key);
                Ok(())
            },
            Err(e) => Err(e),
        }
    }

    /// Creates the configuration record for `master` and unlocks the vault
    /// with the derived key. The record is stamped with the current time.
    pub fn init_master(&mut self, master: &str) -> (r: Result<(), VaultError>)
        ensures
            exists|now: i64| init_post(old(self)@, final(self)@, now, master@, r),
    {
        let now: i64 = epoch();
        self.init_master_at(now, master)
    }

    /// Derives the key for `master` from the stored salt and parameters,
    /// checks it against the key check, and loads it. A key that does not
    /// check is overwritten with zeros and the session stays as it was.
    pub fn unlock(&mut self, master: &str) -> (r: Result<(), VaultError>)
        ensures
            (final(self)@, r) == unlock_spec(old(self)@, master@),
    {
        let config = match &self.config {
            Some(config) => config,
            None => {
                return Err(VaultError::NotInitialized);
            },
        };
        let mut key = match derive_key(
            master.as_bytes(),
            config.kdf_salt.as_slice(),
            &config.kdf_params,
        ) {
            Ok(key) => key,
            Err(e) => {
                return Err(e);
            },
        };
        match unseal(&key, config.key_check.as_slice()) {
            Ok(plaintext) => {
                if same_bytes(plaintext.as_slice(), "vault-key-check".as_bytes()) {
                    self.session.install(key);
                    wipe(&mut key);
                    Ok(())
                } else {
                    wipe(&mut key);
                    Err(VaultError::BadMasterPassword)
                }
            },
            Err(SealFault::TooShort) => {
                wipe(&mut key);
                Err(VaultError::Crypto)
            },
            Err(SealFault::TooLong) => {
                wipe(&mut key);
                Err(VaultError::Crypto)
            },
            Err(SealFault::NotAuthentic) => {
                wipe(&mut key);
                Err(VaultError::BadMasterPassword)
            },
        }
    }

    /// Stores a new entry at the time `now` and returns its id.
    pub fn add_entry_at(
        &mut self,
        now: i64,
        site: &str,
        username: &str,
        password: &str,
        notes: Option<&str>,
    ) -> (r: Result<i64, VaultError>)
        ensures
            add_post(old(self)@, final(self)@, now, site@, username@, password@, opt_str(notes), r),
    {
        let mut key = match self.session.current_key() {
            Ok(key) => key,
            Err(e) => {
                return Err(e);
            },
        };
        let sealed = match seal_text(&key, password) {
            Ok(password_enc) => match seal_notes(&key, notes) {
                Ok(notes_enc) => Ok((password_enc, notes_enc)),
                Err(e) => Err(e),
            },
            Err(e) => Err(e),
        };
        erase(&mut key);
        let (password_enc, notes_enc) = match sealed {
            Ok(fields) => fields,
            Err(e) => {
                return Err(e);
            },
        };
        let draft = EntryRow {
            id: 0,
            site: site.to_owned(),
            username: username.to_owned(),
            password_enc,
            notes_enc,
            created_at: now,
            updated_at: now,
        };
        self.table.insert(draft)
    }

    /// Stores a new entry and returns its id. Both time stamps are the
    /// current time.
    pub fn add_entry(
        &mut self,
        site: &str,
        username: &str,
        password: &str,
        notes: Option<&str>,
    ) -> (r: Result<i64, VaultError>)
        ensures
            exists|now: i64|
                add_post(
                    old(self)@,
                    final(self)@,
                    now,
                    site@,
                    username@,
                    password@,
                    opt_str(notes),
                    r,
                ),
    {
        let now: i64 = epoch();
        self.add_entry_at(now, site, username, password, notes)
    }

    /// The entry with this id, in the clear.
    pub fn get_entry(&self, id: i64) -> (r: Result<Entry, VaultError>)
        ensures
            entry_outcome(r) == get_spec(self@, id),
    {
        let mut key = match self.session.current_key() {
            Ok(key) => key,
            Err(e) => {
                return Err(e);
            },
        };
        let r = match self.table.get(id) {
            Some(row) => open_row(&key, row),
            None => Err(VaultError::NotFound),
        };
        erase(&mut key);
        r
    }

    /// The password of the entry with this id.
    pub fn get_password(&self, id: i64) -> (r: Result<String, VaultError>)
        ensures
            text_outcome(r) == get_password_spec(self@, id),
    {
        match self.get_entry(id) {
            Ok(entry) => Ok(entry.password),
            Err(e) => Err(e),
        }
    }

    /// Changes the entry with this id at the time `now`.
    pub fn update_entry_at(
        &mut self,
        now: i64,
        id: i64,
        site: &str,
        username: &str,
        password: Option<&str>,
        notes: Option<&str>,
    ) -> (r: Result<(), VaultError>)
        ensures
            update_post(
                old(self)@,
                final(self)@,
                now,
                id,
                site@,
                username@,
                opt_str(password),
                opt_str(notes),
                r,
            ),
    {
        let mut key = match self.session.current_key() {
            Ok(key) => key,
            Err(e) => {
                return Err(e);
            },
        };
        let (created_at, old_password, old_notes) = match self.table.get(id) {
            Some(row) => (
                row.created_at,
                slice_to_vec(row.password_enc.as_slice()),
                match &row.notes_enc {
                    Some(blob) => Some(slice_to_vec(blob.as_slice())),
                    None => None,
                },
            ),
            None => {
                erase(&mut key);
                return Err(VaultError::NotFound);
            },
        };
        let new_password = match password {
            Some(text) => seal_text(&key, text),
            None => Ok(old_password),
        };
        let new_notes = match notes {
            Some(_) => seal_notes(&key, notes),
            None => Ok(old_notes),
        };
        erase(&mut key);
        let (password_enc, notes_enc) = match (new_password, new_notes) {
            (Ok(password_enc), Ok(notes_enc)) => (password_enc, notes_enc),
            (Err(e), _) => {
                return Err(e);
            },
            (_, Err(e)) => {
                return Err(e);
            },
        };
        let row = EntryRow {
            id,
            site: site.to_owned(),
            username: username.to_owned(),
            password_enc,
            notes_enc,
            created_at,
            updated_at: now,
        };
        let found = self.table.replace(row);
        assert(found);
        Ok(())
    }

    /// Changes the entry with this id. The time of the change is the
    /// current time.
    pub fn update_entry(
        &mut self,
        id: i64,
        site: &str,
        username: &str,
        password: Option<&str>,
        notes: Option<&str>,
    ) -> (r: Result<(), VaultError>)
        ensures
            exists|now: i64|
                update_post(
                    old(self)@,
                    final(self)@,
                    now,
                    id,
                    site@,
                    username@,
                    opt_str(password),
                    opt_str(notes),
                    r,
                ),
    {
        let now: i64 = epoch();
        self.update_entry_at(now, id, site, username, password, notes)
    }

    /// Removes the entry with this id. Removing an id that no entry has is
    /// no failure.
    pub fn delete_entry(&mut self, id: i64) -> (r: Result<(), VaultError>)
        ensures
            (final(self)@, r) == delete_spec(old(self)@, id),
    {
        if !self.session.is_unlocked() {
            return Err(VaultError::Locked);
        }
        self.table.remove(id);
        Ok(())
    }

    /// The entries that a search selects, the most recently changed first.
    pub fn list_entries(&self, search: Option<&str>) -> (r: Result<Vec<EntryListItem>, VaultError>)
        ensures
            list_post(self@, opt_str(search), listing_outcome(r)),
    {
        if !self.session.is_unlocked() {
            return Err(VaultError::Locked);
        }
        Ok(select(&self.table, search))
    }

    /// Every entry in the clear, in the order of the ids: what a backup
    /// holds before it is serialized and sealed.
    pub fn export_entries(&self) -> (r: Result<Vec<Entry>, VaultError>)
        ensures
            export_post(self@, export_outcome(r)),
    {
        let mut key = match self.session.current_key() {
            Ok(key) => key,
            Err(e) => {
                return Err(e);
            },
        };
        proof {
            use_type_invariant(&self.table);
            self.table.lemma_valid();
            self.lemma_valid();
        }
        let ghost k = key@;
        let ghost rows = self.table.rows();
        let n: usize = self.table.len();
        let mut out: Vec<Entry> = Vec::new();
        let mut i: usize = 0;
        while i < n
            invariant
                i <= n,
                n == rows.len(),
                rows == self.table.rows(),
                rows_valid(rows, self@.next_id),
                self@.entries == as_map(rows),
                key@ == k,
                self@.key == Some(k),
                out.len() == i,
                forall|a: int|
                    0 <= a < i ==> open_row_spec(k, rows[a]) == Ok::<EntryView, VaultError>(
                        (#[trigger] out@[a])@,
                    ),
            decreases n - i,
        {
            match open_row(&key, self.table.row_at(i)) {
                Ok(entry) => {
                    out.push(entry);
                },
                Err(e) => {
                    proof {
                        lemma_map_at(rows, i as int);
                        let id = rows[i as int].id;
                        assert(self@.entries.contains_key(id) && open_row_spec(
                            k,
                            self@.entries[id],
                        ) is Err);
                    }
                    erase(&mut key);
                    return Err(e);
                },
            }
            i = i + 1;
        }
        erase(&mut key);
        proof {
            let views = entry_views(out@);
            let entries = self@.entries;
            assert forall|a: int| 0 <= a < views.len() implies views[a].id == rows[a].id by {
                assert(open_row_spec(k, rows[a]) == Ok::<EntryView, VaultError>(out@[a]@));
            }
            assert forall|a: int| 0 <= a < views.len() implies entries.contains_key(
                #[trigger] views[a].id,
            ) && open_row_spec(k, entries[views[a].id]) == Ok::<EntryView, VaultError>(
                views[a],
            ) by {
                lemma_map_at(rows, a);
                assert(open_row_spec(k, rows[a]) == Ok::<EntryView, VaultError>(out@[a]@));
            }
            assert forall|id: i64| #[trigger] entries.contains_key(id) implies exists|a: int|
                0 <= a < views.len() && #[trigger] views[a].id == id by {
                let a = index_of(rows, id);
                assert(views[a].id == id);
            }
        }
        Ok(out)
    }

    /// Seals the serialized entries of a backup under the session key.
    pub fn seal_backup(&self, serialized: &[u8]) -> (r: Result<Vec<u8>, VaultError>)
        ensures
            seal_backup_post(self@, serialized@, bytes_outcome(r)),
    {
        let mut key = match self.session.current_key() {
            Ok(key) => key,
            Err(e) => {
                return Err(e);
            },
        };
        let r = encrypt(&key, serialized);
        erase(&mut key);
        r
    }

    /// Opens a sealed backup under the session key: the serialized entries.
    pub fn open_backup(&self, data: &[u8]) -> (r: Result<Vec<u8>, VaultError>)
        ensures
            bytes_outcome(r) == open_backup_spec(self@, data@),
    {
        let mut key = match self.session.current_key() {
            Ok(key) => key,
            Err(e) => {
                return Err(e);
            },
        };
        let r = match unseal(&key, data) {
            Ok(plaintext) => Ok(plaintext),
            Err(SealFault::TooShort) => Err(VaultError::Crypto),
            Err(SealFault::TooLong) => Err(VaultError::Crypto),
            Err(SealFault::NotAuthentic) => Err(VaultError::BadMasterPassword),
        };
        erase(&mut key);
        r
    }

    /// Adds the items of a backup at the time `now`, one by one, and returns
    /// their number. Ids and time stamps are assigned anew.
    pub fn import_entries_at(&mut self, now: i64, items: &Vec<BackupItem>) -> (r: Result<
        usize,
        VaultError,
    >)
        ensures
            import_post(old(self)@, final(self)@, now, backup_views(items@), r),
    {
        if !self.session.is_unlocked() {
            return Err(VaultError::Locked);
        }
        let ghost key = self@.key->Some_0;
        proof {
            use_type_invariant(&self.table);
            self.table.lemma_valid();
            self.lemma_valid();
        }
        let ghost before = self@;
        let ghost views = backup_views(items@);
        let n: usize = items.len();
        let mut count: usize = 0;
        while count < n
            invariant
                count <= n,
                n == items.len(),
                views == backup_views(items@),
                valid(before),
                before == old(self)@,
                before.key == Some(key),
                imported(before, self@, key, now, views, count as int),
            decreases n - count,
        {
            let item = &items[count];
            let notes: Option<&str> = match &item.notes {
                Some(text) => Some(text.as_str()),
                None => None,
            };
            let ghost mid = self@;
            match self.add_entry_at(
                now,
                item.site.as_str(),
                item.username.as_str(),
                item.password.as_str(),
                notes,
            ) {
                Ok(id) => {
                    proof {
                        let after = self@;
                        assert(views[count as int] == item@);
                        assert(id == before.next_id + count);
                        assert forall|other: i64|
                            before.next_id <= other < after.next_id implies {
                            let it = views[other - before.next_id];
                            stores(
                                key,
                                #[trigger] after.entries[other],
                                other,
                                it.site,
                                it.username,
                                it.password,
                                kept_notes(it.notes),
                                now,
                                now,
                            )
                        } by {
                            if other != id {
                                assert(after.entries[other] == mid.entries[other]);
                            }
                        }
                    }
                },
                Err(e) => {
                    proof {
                        assert(self@ == mid);
                        assert(self@.next_id - before.next_id == count);
                    }
                    return Err(e);
                },
            }
            count = count + 1;
        }
        Ok(count)
    }

    /// Adds the items of a backup, one by one, and returns their number.
    /// Ids and time stamps are assigned anew; the time stamps are the
    /// current time.
    pub fn import_entries(&mut self, items: &Vec<BackupItem>) -> (r: Result<usize, VaultError>)
        ensures
            exists|now: i64| import_post(old(self)@, final(self)@, now, backup_views(items@), r),
    {
        let now: i64 = epoch();
        self.import_entries_at(now, items)
    }

    /// A random password of `length` characters: lower-case letters, and
    /// upper-case letters, digits and symbols where asked for.
    pub fn generate_password(
        &self,
        length: usize,
        use_digits: bool,
        use_upper: bool,
        use_symbols: bool,
    ) -> (r: Result<String, VaultError>)
        ensures
            match r {
                Ok(password) => {
                    let letters = alphabet(use_digits, use_upper, use_symbols);
                    &&& password@.len() == length
                    &&& forall|i: int|
                        0 <= i < length ==> letters.contains(#[trigger] password@[i])
                    &&& exists|draws: Seq<u64>|
                        draws.len() == length && password@ == #[trigger] password_of(
                            letters,
                            draws,
                        )
                },
                Err(e) => e == VaultError::Crypto && length > 0,
            },
    {
        generate_password(length, use_digits, use_upper, use_symbols)
    }

    /// The configuration record, once the vault is initialized.
    pub fn config(&self) -> (config: Option<&VaultConfig>)
        ensures
            match config {
                Some(c) => self@.config == Some(c@),
                None => self@.config is None,
            },
    {
        self.config.as_ref()
    }

    /// A copy of every stored row, in the order of the ids. With the
    /// configuration record and the id counter, the copy is what
    /// [`DataBase::restore`] takes to give the same vault again, locked.
    pub fn stored_rows(&self) -> (rows: Vec<EntryRow>)
        ensures
            row_views(rows@) == self.rows(),
            rows_valid(row_views(rows@), self@.next_id),
            self@.entries == as_map(row_views(rows@)),
    {
        proof {
            use_type_invariant(&self.table);
            self.table.lemma_valid();
            self.lemma_valid();
        }
        self.table.snapshot()
    }

    /// A copy of the stored row with this id, if there is one.
    pub fn stored_row(&self, id: i64) -> (row: Option<EntryRow>)
        ensures
            match row {
                Some(row) => self@.entries.contains_key(id) && self@.entries[id] == row@,
                None => !self@.entries.contains_key(id),
            },
    {
        match self.table.get(id) {
            Some(row) => Some(copy_row(row)),
            None => None,
        }
    }

    /// The id that the next new entry gets.
    pub fn next_id(&self) -> (id: i64)
        ensures
            id == self@.next_id,
    {
        self.table.next_id()
    }
}

} // verus!
