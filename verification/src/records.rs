//! The records of a vault, and how a stored row relates to the entry it
//! protects.
//!
//! A row keeps the site and the user name in the clear, and the password and
//! the notes as sealed blobs. Opening a row under the session key gives the
//! entry back; sealing never leaves a plaintext field in a row.
use crate::crypto::{decrypt, decrypt_spec, encrypt, is_sealing, lemma_round_trip, KdfParams};
use crate::error::VaultError;
use vstd::prelude::*;
use vstd::slice::*;
use vstd::string::*;
use vstd::utf8::*;

verus! {

/// One secret record in the clear, as handed to a caller for one request.
#[derive(Debug, Clone, PartialEq, Eq)]
pub struct Entry {
    pub id: i64,
    pub site: String,
    pub username: String,
    pub password: String,
    pub notes: Option<String>,
    pub created_at: i64,
    pub updated_at: i64,
}

/// What a listing shows of a record: no sensitive field.
#[derive(Debug, Clone, PartialEq, Eq)]
pub struct EntryListItem {
    pub id: i64,
    pub site: String,
    pub username: String,
    pub created_at: i64,
    pub updated_at: i64,
}

/// One secret record as it is stored: the sensitive fields are ciphertext.
#[derive(Debug, Clone, PartialEq, Eq)]
pub struct EntryRow {
    pub id: i64,
    pub site: String,
    pub username: String,
    pub password_enc: Vec<u8>,
    pub notes_enc: Option<Vec<u8>>,
    pub created_at: i64,
    pub updated_at: i64,
}

/// The one configuration record of a vault.
#[derive(Debug, Clone, PartialEq, Eq)]
pub struct VaultConfig {
    /// The salt of the key derivation, drawn once.
    pub kdf_salt: Vec<u8>,
    /// The cost parameters the key was derived with.
    pub kdf_params: KdfParams,
    /// A fixed plaintext sealed under the derived key.
    pub key_check: Vec<u8>,
    /// Seconds since the epoch at creation.
    pub created_at: i64,
}

/// The four fields of a record that a backup carries over.
#[derive(Debug, Clone, PartialEq, Eq)]
pub struct BackupItem {
    pub site: String,
    pub username: String,
    pub password: String,
    pub notes: Option<String>,
}

/// The mathematical value of an [`Entry`].
pub struct EntryView {
    pub id: i64,
    pub site: Seq<char>,
    pub username: Seq<char>,
    pub password: Seq<char>,
    pub notes: Option<Seq<char>>,
    pub created_at: i64,
    pub updated_at: i64,
}

/// The mathematical value of an [`EntryListItem`].
pub struct ListItemView {
    pub id: i64,
    pub site: Seq<char>,
    pub username: Seq<char>,
    pub created_at: i64,
    pub updated_at: i64,
}

/// The mathematical value of an [`EntryRow`].
pub struct RowView {
    pub id: i64,
    pub site: Seq<char>,
    pub username: Seq<char>,
    pub password_enc: Seq<u8>,
    pub notes_enc: Option<Seq<u8>>,
    pub created_at: i64,
    pub updated_at: i64,
}

/// The mathematical value of a [`VaultConfig`].
pub struct ConfigView {
    pub kdf_salt: Seq<u8>,
    pub kdf_params: KdfParams,
    pub key_check: Seq<u8>,
    pub created_at: i64,
}

/// The mathematical value of a [`BackupItem`].
pub struct BackupItemView {
    pub site: Seq<char>,
    pub username: Seq<char>,
    pub password: Seq<char>,
    pub notes: Option<Seq<char>>,
}

/// The characters of an optional string.
pub open spec fn opt_text(text: Option<String>) -> Option<Seq<char>> {
    match text {
        Some(t) => Some(t@),
        None => None,
    }
}

/// The characters of an optional string slice.
pub open spec fn opt_str(text: Option<&str>) -> Option<Seq<char>> {
    match text {
        Some(t) => Some(t@),
        None => None,
    }
}

/// The bytes of an optional byte vector.
pub open spec fn opt_bytes(bytes: Option<Vec<u8>>) -> Option<Seq<u8>> {
    match bytes {
        Some(b) => Some(b@),
        None => None,
    }
}

impl View for Entry {
    type V = EntryView;

    open spec fn view(&self) -> EntryView {
        EntryView {
            id: self.id,
            site: self.site@,
            username: self.username@,
            password: self.password@,
            notes: opt_text(self.notes),
            created_at: self.created_at,
            updated_at: self.updated_at,
        }
    }
}

impl View for EntryListItem {
    type V = ListItemView;

    open spec fn view(&self) -> ListItemView {
        ListItemView {
            id: self.id,
            site: self.site@,
            username: self.username@,
            created_at: self.created_at,
            updated_at: self.updated_at,
        }
    }
}

impl View for EntryRow {
    type V = RowView;

    open spec fn view(&self) -> RowView {
        RowView {
            id: self.id,
            site: self.site@,
            username: self.username@,
            password_enc: self.password_enc@,
            notes_enc: opt_bytes(self.notes_enc),
            created_at: self.created_at,
            updated_at: self.updated_at,
        }
    }
}

impl View for VaultConfig {
    type V = ConfigView;

    open spec fn view(&self) -> ConfigView {
        ConfigView {
            kdf_salt: self.kdf_salt@,
            kdf_params: self.kdf_params,
            key_check: self.key_check@,
            created_at: self.created_at,
        }
    }
}

impl View for BackupItem {
    type V = BackupItemView;

    open spec fn view(&self) -> BackupItemView {
        BackupItemView {
            site: self.site@,
            username: self.username@,
            password: self.password@,
            notes: opt_text(self.notes),
        }
    }
}

/// The notes that get stored: an empty text is stored as no notes at all.
pub open spec fn kept_notes(notes: Option<Seq<char>>) -> Option<Seq<char>> {
    match notes {
        Some(text) => if text.len() == 0 {
            None
        } else {
            Some(text)
        },
        None => None,
    }
}

/// The text that a sealed field opens to under `key`: the plaintext of the
/// blob, decoded as UTF-8. A blob that does not open, and a plaintext that
/// is no UTF-8, are both a [`VaultError::Crypto`].
pub open spec fn open_text_spec(key: Seq<u8>, blob: Seq<u8>) -> Result<Seq<char>, VaultError> {
    match decrypt_spec(key, blob) {
        Ok(bytes) => if valid_utf8(bytes) {
            Ok(decode_utf8(bytes))
        } else {
            Err(VaultError::Crypto)
        },
        Err(e) => Err(e),
    }
}

/// `blob` seals the UTF-8 bytes of `text` under `key`.
pub open spec fn seals_text(key: Seq<u8>, text: Seq<char>, blob: Seq<u8>) -> bool {
    is_sealing(key, encode_utf8(text), blob)
}

/// `blob`, if there is one, seals `notes`; there is none exactly where there
/// are no notes to keep.
pub open spec fn seals_notes(
    key: Seq<u8>,
    notes: Option<Seq<char>>,
    blob: Option<Seq<u8>>,
) -> bool {
    match notes {
        Some(text) => blob matches Some(b) && seals_text(key, text, b),
        None => blob is None,
    }
}

/// The entry that `row` opens to under `key`. The password is opened first,
/// then the notes where the row has any; the first field that does not open
/// decides the failure.
pub open spec fn open_row_spec(key: Seq<u8>, row: RowView) -> Result<EntryView, VaultError> {
    match open_text_spec(key, row.password_enc) {
        Err(e) => Err(e),
        Ok(password) => match row.notes_enc {
            None => Ok(
                EntryView {
                    id: row.id,
                    site: row.site,
                    username: row.username,
                    password,
                    notes: None,
                    created_at: row.created_at,
                    updated_at: row.updated_at,
                },
            ),
            Some(blob) => match open_text_spec(key, blob) {
                Err(e) => Err(e),
                Ok(notes) => Ok(
                    EntryView {
                        id: row.id,
                        site: row.site,
                        username: row.username,
                        password,
                        notes: Some(notes),
                        created_at: row.created_at,
                        updated_at: row.updated_at,
                    },
                ),
            },
        },
    }
}

/// What a backup carries over of an entry: its site, user name, password
/// and notes. The id and the time stamps stay behind.
pub open spec fn backup_item_of(entry: EntryView) -> BackupItemView {
    BackupItemView {
        site: entry.site,
        username: entry.username,
        password: entry.password,
        notes: entry.notes,
    }
}

/// What a listing shows of `row`.
pub open spec fn list_item_of(row: RowView) -> ListItemView {
    ListItemView {
        id: row.id,
        site: row.site,
        username: row.username,
        created_at: row.created_at,
        updated_at: row.updated_at,
    }
}

/// A sealed text opens to the same text.
pub proof fn lemma_sealed_text_opens(key: Seq<u8>, text: Seq<char>, blob: Seq<u8>)
    requires
        seals_text(key, text, blob),
    ensures
        open_text_spec(key, blob) == Ok::<Seq<char>, VaultError>(text),
{
    lemma_round_trip(key, encode_utf8(text), blob);
    encode_utf8_valid_utf8(text);
    encode_utf8_decode_utf8(text);
}

/// A row whose two sensitive fields seal `password` and `notes` opens to an
/// entry with exactly those fields, and with the row's other fields.
pub proof fn lemma_sealed_row_opens(
    key: Seq<u8>,
    row: RowView,
    password: Seq<char>,
    notes: Option<Seq<char>>,
)
    requires
        seals_text(key, password, row.password_enc),
        seals_notes(key, notes, row.notes_enc),
    ensures
        open_row_spec(key, row) == Ok::<EntryView, VaultError>(
            EntryView {
                id: row.id,
                site: row.site,
                username: row.username,
                password,
                notes,
                created_at: row.created_at,
                updated_at: row.updated_at,
            },
        ),
{
    lemma_sealed_text_opens(key, password, row.password_enc);
    match notes {
        Some(text) => {
            lemma_sealed_text_opens(key, text, row.notes_enc->Some_0);
        },
        None => {},
    }
}

/// Calls `String::from_utf8`.
///
/// Claims: the call succeeds exactly where the bytes are valid UTF-8, and
/// the string then holds the characters they encode.
#[verifier::external_body]
fn string_from_utf8(bytes: Vec<u8>) -> (r: Option<String>)
    ensures
        r is Some <==> valid_utf8(bytes@),
        r matches Some(text) ==> text@ == decode_utf8(bytes@),
{
    String::from_utf8(bytes).ok()
}

/// Seals the UTF-8 bytes of `text` under `key` with a fresh nonce.
pub fn seal_text(key: &[u8; 32], text: &str) -> (r: Result<Vec<u8>, VaultError>)
    ensures
        match r {
            Ok(blob) => seals_text(key@, text@, blob@) && open_text_spec(key@, blob@) == Ok::<
                Seq<char>,
                VaultError,
            >(text@),
            Err(e) => e == VaultError::Crypto,
        },
{
    match encrypt(key, text.as_bytes()) {
        Ok(blob) => {
            proof {
                lemma_sealed_text_opens(key@, text@, blob@);
            }
            Ok(blob)
        },
        Err(e) => Err(e),
    }
}

/// Seals the notes that are to be kept: none where `notes` is absent or
/// empty.
pub fn seal_notes(key: &[u8; 32], notes: Option<&str>) -> (r: Result<Option<Vec<u8>>, VaultError>)
    ensures
        match r {
            Ok(blob) => seals_notes(key@, kept_notes(opt_str(notes)), opt_bytes(blob)),
            Err(e) => e == VaultError::Crypto && kept_notes(opt_str(notes)) is Some,
        },
{
    match notes {
        Some(text) => {
            if text.is_empty() {
                Ok(None)
            } else {
                match seal_text(key, text) {
                    Ok(blob) => Ok(Some(blob)),
                    Err(e) => Err(e),
                }
            }
        },
        None => Ok(None),
    }
}

/// Opens one sealed field under `key` and decodes it as text.
pub fn open_text(key: &[u8; 32], blob: &[u8]) -> (r: Result<String, VaultError>)
    ensures
        match r {
            Ok(text) => open_text_spec(key@, blob@) == Ok::<Seq<char>, VaultError>(text@),
            Err(e) => open_text_spec(key@, blob@) == Err::<Seq<char>, VaultError>(e),
        },
{
    match decrypt(key, blob) {
        Ok(bytes) => match string_from_utf8(bytes) {
            Some(text) => Ok(text),
            None => Err(VaultError::Crypto),
        },
        Err(e) => Err(e),
    }
}

/// Opens a stored row under `key`: the entry in the clear, or
/// [`VaultError::Crypto`] where a field does not open.
pub fn open_row(key: &[u8; 32], row: &EntryRow) -> (r: Result<Entry, VaultError>)
    ensures
        match r {
            Ok(entry) => open_row_spec(key@, row@) == Ok::<EntryView, VaultError>(entry@),
            Err(e) => open_row_spec(key@, row@) == Err::<EntryView, VaultError>(e),
        },
{
    let password = match open_text(key, row.password_enc.as_slice()) {
        Ok(text) => text,
        Err(e) => {
            return Err(e);
        },
    };
    let notes = match &row.notes_enc {
        Some(blob) => match open_text(key, blob.as_slice()) {
            Ok(text) => Some(text),
            Err(e) => {
                return Err(e);
            },
        },
        None => None,
    };
    Ok(
        Entry {
            id: row.id,
            site: row.site.clone(),
            username: row.username.clone(),
            password,
            notes,
            created_at: row.created_at,
            updated_at: row.updated_at,
        },
    )
}

/// What a listing shows of a stored row.
pub fn list_item(row: &EntryRow) -> (item: EntryListItem)
    ensures
        item@ == list_item_of(row@),
{
    EntryListItem {
        id: row.id,
        site: row.site.clone(),
        username: row.username.clone(),
        created_at: row.created_at,
        updated_at: row.updated_at,
    }
}

/// What a backup carries over of an entry.
pub fn backup_item(entry: &Entry) -> (item: BackupItem)
    ensures
        item@ == backup_item_of(entry@),
{
    BackupItem {
        site: entry.site.clone(),
        username: entry.username.clone(),
        password: entry.password.clone(),
        notes: match &entry.notes {
            Some(text) => Some(text.clone()),
            None => None,
        },
    }
}

/// A copy of a stored row.
pub fn copy_row(row: &EntryRow) -> (copy: EntryRow)
    ensures
        copy@ == row@,
{
    EntryRow {
        id: row.id,
        site: row.site.clone(),
        username: row.username.clone(),
        password_enc: slice_to_vec(row.password_enc.as_slice()),
        notes_enc: match &row.notes_enc {
            Some(blob) => Some(slice_to_vec(blob.as_slice())),
            None => None,
        },
        created_at: row.created_at,
        updated_at: row.updated_at,
    }
}

} // verus!
