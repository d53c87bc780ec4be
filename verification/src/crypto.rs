//! Key derivation from a password, and authenticated encryption of opaque
//! byte payloads.
//!
//! The ciphers themselves are Argon2id and ChaCha20-Poly1305 as the `argon2`
//! and `chacha20poly1305` crates implement them. Their results are named by
//! the three uninterpreted functions below; everything else in this module is
//! proved against those names.
use crate::error::VaultError;
use argon2::{Algorithm, Argon2, Params, Version};
use chacha20poly1305::aead::{Aead, KeyInit};
use chacha20poly1305::{ChaCha20Poly1305, Key, Nonce};
use vstd::prelude::*;
use vstd::slice::*;

verus! {

/// Length of the session key, in bytes.
pub const KEY_LEN: usize = 32;

/// Length of the nonce at the head of every blob, in bytes.
pub const NONCE_LEN: usize = 12;

/// Length of the authentication tag at the end of every blob, in bytes.
pub const TAG_LEN: usize = 16;

/// Length of the salt drawn at initialization, in bytes.
pub const SALT_LEN: usize = 16;

/// The longest plaintext that one nonce can cover, in bytes: 2^32 - 2 blocks
/// of 64 bytes. The cipher counts blocks in 32 bits and keeps the first
/// block for the key of the tag.
pub const MAX_PLAINTEXT_LEN: u64 = 274_877_906_816;

/// The longest blob that can open, in bytes: a nonce, the longest plaintext
/// and a tag.
pub const MAX_BLOB_LEN: u64 = 274_877_906_844;

/// Cost parameters of the key derivation, recorded with the vault so that a
/// later unlock reproduces the same key.
#[derive(Clone, Copy, Debug, PartialEq, Eq, Structural)]
pub struct KdfParams {
    /// Memory cost, in KiB.
    pub mem_cost_kib: u32,
    /// Number of passes over the memory.
    pub iterations: u32,
    /// Number of lanes.
    pub parallelism: u32,
}

impl KdfParams {
    /// The parameters a new vault is created with.
    pub open spec fn standard() -> KdfParams {
        KdfParams { mem_cost_kib: 19_456, iterations: 2, parallelism: 1 }
    }

    /// The ranges inside which Argon2 takes a set of parameters.
    pub open spec fn in_range(self) -> bool {
        &&& 1 <= self.parallelism <= 0xFF_FFFF
        &&& 1 <= self.iterations
        &&& 8 * self.parallelism <= self.mem_cost_kib
    }

    /// The memory that the derivation works in can be addressed on this
    /// machine: `mem_cost_kib` blocks of 1 KiB.
    pub open spec fn fits_memory(self) -> bool {
        self.mem_cost_kib * 1024 <= isize::MAX
    }
}

impl Default for KdfParams {
    fn default() -> (params: Self)
        ensures
            params == KdfParams::standard(),
    {
        KdfParams { mem_cost_kib: 19_456, iterations: 2, parallelism: 1 }
    }
}

/// The 32-byte tag that `argon2::Argon2::hash_password_into` writes for the
/// Argon2id variant, version 0x13, with an empty secret and no associated
/// data, on the inputs it accepts.
pub uninterp spec fn argon2id(
    password: Seq<u8>,
    salt: Seq<u8>,
    mem_cost_kib: u32,
    iterations: u32,
    parallelism: u32,
) -> Seq<u8>;

/// What `chacha20poly1305::ChaCha20Poly1305::encrypt` returns on the
/// plaintexts it accepts, with no associated data: the ciphertext followed by
/// its 16-byte tag.
pub uninterp spec fn chacha20poly1305_seal(key: Seq<u8>, nonce: Seq<u8>, plaintext: Seq<u8>) -> Seq<
    u8,
>;

/// What `chacha20poly1305::ChaCha20Poly1305::decrypt` returns, with no
/// associated data: the plaintext where the tag verifies, nothing otherwise.
pub uninterp spec fn chacha20poly1305_open(key: Seq<u8>, nonce: Seq<u8>, sealed: Seq<u8>) -> Option<
    Seq<u8>,
>;

/// The inputs on which the key derivation yields a key.
pub open spec fn kdf_accepts(password_len: nat, salt_len: nat, params: KdfParams) -> bool {
    &&& params.in_range()
    &&& params.fits_memory()
    &&& password_len <= 0xFFFF_FFFF
    &&& 8 <= salt_len <= 0xFFFF_FFFF
}

/// The plaintext lengths that one nonce can cover: at most
/// [`MAX_PLAINTEXT_LEN`] bytes, and room for the tag in one buffer.
pub open spec fn seal_accepts(plaintext_len: nat) -> bool {
    &&& plaintext_len <= MAX_PLAINTEXT_LEN
    &&& plaintext_len + TAG_LEN <= isize::MAX
}

/// The nonce at the head of a blob.
pub open spec fn blob_nonce(blob: Seq<u8>) -> Seq<u8> {
    blob.subrange(0, NONCE_LEN as int)
}

/// What follows the nonce in a blob: ciphertext and tag.
pub open spec fn blob_body(blob: Seq<u8>) -> Seq<u8> {
    blob.subrange(NONCE_LEN as int, blob.len() as int)
}

/// `blob` is `nonce || ciphertext || tag` for `plaintext` under `key`, for
/// the nonce at its head, and opens to `plaintext` again.
pub open spec fn is_sealing(key: Seq<u8>, plaintext: Seq<u8>, blob: Seq<u8>) -> bool {
    &&& seal_accepts(plaintext.len())
    &&& blob.len() == NONCE_LEN + plaintext.len() + TAG_LEN
    &&& blob_body(blob) == chacha20poly1305_seal(key, blob_nonce(blob), plaintext)
    &&& chacha20poly1305_open(key, blob_nonce(blob), blob_body(blob)) == Some(plaintext)
}

/// Why a blob did not open.
#[derive(Clone, Copy, Debug, PartialEq, Eq, Structural)]
pub enum SealFault {
    /// The blob is shorter than a nonce.
    TooShort,
    /// The blob is longer than a nonce, the longest plaintext and a tag.
    TooLong,
    /// The tag does not verify: wrong key, tampering or corruption.
    NotAuthentic,
}

/// What opening `blob` under `key` yields. A blob that is too short to hold
/// a nonce, or too long for one nonce to cover, is refused unopened.
pub open spec fn unseal_spec(key: Seq<u8>, blob: Seq<u8>) -> Result<Seq<u8>, SealFault> {
    if blob.len() < NONCE_LEN {
        Err(SealFault::TooShort)
    } else if blob.len() > MAX_BLOB_LEN {
        Err(SealFault::TooLong)
    } else {
        match chacha20poly1305_open(key, blob_nonce(blob), blob_body(blob)) {
            Some(plaintext) => Ok(plaintext),
            None => Err(SealFault::NotAuthentic),
        }
    }
}

/// What decrypting `blob` under `key` yields: every failure is a
/// [`VaultError::Crypto`].
pub open spec fn decrypt_spec(key: Seq<u8>, blob: Seq<u8>) -> Result<Seq<u8>, VaultError> {
    match unseal_spec(key, blob) {
        Ok(plaintext) => Ok(plaintext),
        Err(_) => Err(VaultError::Crypto),
    }
}

/// Calls `getrandom::getrandom` on a fresh buffer of `N` bytes and hands the
/// buffer out where the call succeeds. Nothing is claimed of the bytes.
#[verifier::external_body]
pub(crate) fn os_random<const N: usize>() -> Option<[u8; N]> {
    let mut bytes = [0u8; N];
    match getrandom::getrandom(&mut bytes) {
        Ok(()) => Some(bytes),
        Err(_) => None,
    }
}

/// Calls `argon2::Argon2::hash_password_into` for Argon2id, version 0x13,
/// with an empty secret, on a 32-byte output buffer.
///
/// Claims: the call succeeds exactly on the inputs of [`kdf_accepts`] (the
/// ranges that `Params::new` and `hash_password_into` test), and the buffer
/// then holds the tag named [`argon2id`].
///
/// The bound on `parallelism` keeps the product `8 * parallelism` inside
/// `u32`, and the bound on `mem_cost_kib` keeps the size of the working
/// memory inside `isize`: outside them the call panics. The call allocates
/// that memory; whether the machine has it to give is beyond any contract.
#[verifier::external_body]
fn argon2id_raw(
    password: &[u8],
    salt: &[u8],
    mem_cost_kib: u32,
    iterations: u32,
    parallelism: u32,
) -> (r: Option<[u8; 32]>)
    requires
        parallelism <= 0xFF_FFFF,
        mem_cost_kib * 1024 <= isize::MAX,
    ensures
        r is Some <==> kdf_accepts(
            password@.len(),
            salt@.len(),
            (KdfParams { mem_cost_kib, iterations, parallelism }),
        ),
        r matches Some(key) ==> key@ == argon2id(
            password@,
            salt@,
            mem_cost_kib,
            iterations,
            parallelism,
        ),
{
    let params = match Params::new(mem_cost_kib, iterations, parallelism, None) {
        Ok(params) => params,
        Err(_) => return None,
    };
    let argon = match Argon2::new_with_secret(&[], Algorithm::Argon2id, Version::V0x13, params) {
        Ok(argon) => argon,
        Err(_) => return None,
    };
    let mut key = [0u8; 32];
    match argon.hash_password_into(password, salt, &mut key) {
        Ok(()) => Some(key),
        Err(_) => None,
    }
}

/// Calls `chacha20poly1305::ChaCha20Poly1305::encrypt` with no associated
/// data.
///
/// Claims: on the plaintexts of [`seal_accepts`] the call succeeds; the
/// result is the one named [`chacha20poly1305_seal`], is 16 bytes longer
/// than the plaintext, and opens under the same key and nonce to the
/// plaintext.
///
/// The nonce must be 12 bytes long, plaintext and tag must fit in one
/// buffer, and the plaintext must not outrun the key stream, of which
/// 2^32 - 2 blocks are left once the tag has its key: outside that the call
/// panics.
#[verifier::external_body]
fn aead_seal(key: &[u8; 32], nonce: &[u8], plaintext: &[u8]) -> (r: Option<Vec<u8>>)
    requires
        nonce@.len() == NONCE_LEN,
        seal_accepts(plaintext@.len()),
    ensures
        r is Some,
        r matches Some(sealed) ==> sealed@ == chacha20poly1305_seal(key@, nonce@, plaintext@),
        r matches Some(sealed) ==> sealed@.len() == plaintext@.len() + TAG_LEN,
        r matches Some(sealed) ==> chacha20poly1305_open(key@, nonce@, sealed@) == Some(
            plaintext@,
        ),
{
    ChaCha20Poly1305::new(Key::from_slice(key)).encrypt(Nonce::from_slice(nonce), plaintext).ok()
}

/// Calls `chacha20poly1305::ChaCha20Poly1305::decrypt` with no associated
/// data.
///
/// Claims: the result is the one named [`chacha20poly1305_open`].
///
/// The nonce must be 12 bytes long, and what is sealed must not outrun the
/// key stream once its tag has verified: outside that the call panics.
#[verifier::external_body]
fn aead_open(key: &[u8; 32], nonce: &[u8], sealed: &[u8]) -> (r: Option<Vec<u8>>)
    requires
        nonce@.len() == NONCE_LEN,
        sealed@.len() <= MAX_PLAINTEXT_LEN + TAG_LEN,
    ensures
        match r {
            Some(plaintext) => chacha20poly1305_open(key@, nonce@, sealed@) == Some(plaintext@),
            None => chacha20poly1305_open(key@, nonce@, sealed@) is None,
        },
{
    ChaCha20Poly1305::new(Key::from_slice(key)).decrypt(Nonce::from_slice(nonce), sealed).ok()
}

/// Whether two byte strings are the same.
pub fn same_bytes(a: &[u8], b: &[u8]) -> (same: bool)
    ensures
        same == (a@ == b@),
{
    let n: usize = a.len();
    if n != b.len() {
        return false;
    }
    let mut i: usize = 0;
    while i < n
        invariant
            i <= n,
            n == a@.len(),
            n == b@.len(),
            forall|k: int| 0 <= k < i ==> a@[k] == b@[k],
        decreases n - i,
    {
        if a[i] != b[i] {
            return false;
        }
        i = i + 1;
    }
    proof {
        assert(a@ =~= b@);
    }
    true
}

/// Derives the 32-byte key for `password` with the given salt and cost
/// parameters.
///
/// The same inputs always give the same key. Inputs outside the ranges of
/// [`kdf_accepts`] are rejected with [`VaultError::Crypto`].
pub fn derive_key(password: &[u8], salt: &[u8], params: &KdfParams) -> (r: Result<
    [u8; 32],
    VaultError,
>)
    ensures
        match r {
            Ok(key) => kdf_accepts(password@.len(), salt@.len(), *params) && key@ == argon2id(
                password@,
                salt@,
                params.mem_cost_kib,
                params.iterations,
                params.parallelism,
            ),
            Err(e) => !kdf_accepts(password@.len(), salt@.len(), *params) && e
                == VaultError::Crypto,
        },
{
    if params.parallelism > 0xFF_FFFF {
        return Err(VaultError::Crypto);
    }
    if params.mem_cost_kib as u64 * 1024 > isize::MAX as u64 {
        return Err(VaultError::Crypto);
    }
    match argon2id_raw(
        password,
        salt,
        params.mem_cost_kib,
        params.iterations,
        params.parallelism,
    ) {
        Some(key) => Ok(key),
        None => Err(VaultError::Crypto),
    }
}

/// Seals `plaintext` under `key` with the given nonce: the blob is
/// `nonce || ciphertext || tag`.
///
/// The caller answers for the nonce: it must never be used twice with one
/// key. [`encrypt`] draws a fresh one.
pub fn encrypt_with_nonce(key: &[u8; 32], nonce: &[u8; 12], plaintext: &[u8]) -> (r: Result<
    Vec<u8>,
    VaultError,
>)
    ensures
        match r {
            Ok(blob) => {
                &&& seal_accepts(plaintext@.len())
                &&& blob@ == nonce@ + chacha20poly1305_seal(key@, nonce@, plaintext@)
                &&& is_sealing(key@, plaintext@, blob@)
            },
            Err(e) => !seal_accepts(plaintext@.len()) && e == VaultError::Crypto,
        },
{
    if plaintext.len() as u64 > MAX_PLAINTEXT_LEN {
        return Err(VaultError::Crypto);
    }
    if plaintext.len() > isize::MAX as usize - TAG_LEN {
        return Err(VaultError::Crypto);
    }
    let nonce_bytes = nonce.as_slice();
    match aead_seal(key, nonce_bytes, plaintext) {
        Some(mut sealed) => {
            let mut blob = slice_to_vec(nonce_bytes);
            let ghost body = sealed@;
            blob.append(&mut sealed);
            proof {
                assert(blob_nonce(blob@) =~= nonce@);
                assert(blob_body(blob@) =~= body);
            }
            Ok(blob)
        },
        None => Err(VaultError::Crypto),
    }
}

/// Seals `plaintext` under `key` with a fresh random 12-byte nonce.
///
/// Whatever nonce was drawn, the blob opens to `plaintext` again under
/// `key`. The call fails with [`VaultError::Crypto`] where the system has no
/// random bytes to give or the plaintext is too long for one nonce.
pub fn encrypt(key: &[u8; 32], plaintext: &[u8]) -> (r: Result<Vec<u8>, VaultError>)
    ensures
        match r {
            Ok(blob) => {
                &&& seal_accepts(plaintext@.len())
                &&& is_sealing(key@, plaintext@, blob@)
                &&& decrypt_spec(key@, blob@) == Ok::<Seq<u8>, VaultError>(plaintext@)
            },
            Err(e) => e == VaultError::Crypto,
        },
{
    match os_random::<12>() {
        Some(nonce) => encrypt_with_nonce(key, &nonce, plaintext),
        None => Err(VaultError::Crypto),
    }
}

/// Opens a blob of the form `nonce || ciphertext || tag` under `key`, and
/// says which of the two ways it failed if it did.
pub fn unseal(key: &[u8; 32], data: &[u8]) -> (r: Result<Vec<u8>, SealFault>)
    ensures
        match r {
            Ok(plaintext) => unseal_spec(key@, data@) == Ok::<Seq<u8>, SealFault>(plaintext@),
            Err(fault) => unseal_spec(key@, data@) == Err::<Seq<u8>, SealFault>(fault),
        },
{
    if data.len() < NONCE_LEN {
        return Err(SealFault::TooShort);
    }
    if data.len() as u64 > MAX_BLOB_LEN {
        return Err(SealFault::TooLong);
    }
    let nonce = slice_subrange(data, 0, NONCE_LEN);
    let body = slice_subrange(data, NONCE_LEN, data.len());
    match aead_open(key, nonce, body) {
        Some(plaintext) => Ok(plaintext),
        None => Err(SealFault::NotAuthentic),
    }
}

/// Opens a blob of the form `nonce || ciphertext || tag` under `key`.
///
/// A blob shorter than the nonce, one longer than one nonce can cover, and
/// one whose tag does not verify, all fail with [`VaultError::Crypto`]; no
/// plaintext is handed out then.
pub fn decrypt(key: &[u8; 32], data: &[u8]) -> (r: Result<Vec<u8>, VaultError>)
    ensures
        match r {
            Ok(plaintext) => decrypt_spec(key@, data@) == Ok::<Seq<u8>, VaultError>(plaintext@),
            Err(e) => decrypt_spec(key@, data@) == Err::<Seq<u8>, VaultError>(e),
        },
{
    match unseal(key, data) {
        Ok(plaintext) => Ok(plaintext),
        Err(_) => Err(VaultError::Crypto),
    }
}

/// A blob that seals `plaintext` under `key` decrypts to `plaintext` under
/// `key`.
pub proof fn lemma_round_trip(key: Seq<u8>, plaintext: Seq<u8>, blob: Seq<u8>)
    requires
        is_sealing(key, plaintext, blob),
    ensures
        decrypt_spec(key, blob) == Ok::<Seq<u8>, VaultError>(plaintext),
        unseal_spec(key, blob) == Ok::<Seq<u8>, SealFault>(plaintext),
{
}

} // verus!
