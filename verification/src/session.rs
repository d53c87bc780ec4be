//! The in-memory holder of the derived key.
//!
//! A session is either locked (no key) or unlocked (one key). The key lives
//! in one buffer of the session and nowhere else; when the session is
//! locked, that buffer is overwritten with zeros.
use crate::error::VaultError;
use vstd::prelude::*;
use zeroize::Zeroize;

verus! {

/// Thirty-two zero bytes: what the buffer of a locked session holds.
pub open spec fn zeros() -> Seq<u8> {
    Seq::new(32, |i: int| 0u8)
}

/// Calls `zeroize::Zeroize::zeroize` on the key buffer, which overwrites
/// every byte with zero by a write the compiler may not drop.
///
/// Claims: afterwards every byte of the buffer is zero, and the call does
/// not panic.
#[verifier::external_body]
pub(crate) fn wipe(key: &mut [u8; 32])
    ensures
        forall|i: int| 0 <= i < 32 ==> final(key)@[i] == 0u8,
    opens_invariants none
    no_unwind
{
    key.zeroize();
}

/// Overwrites a key buffer with zeros: the buffer of a session when it is
/// locked, and the copy that an operation borrowed with
/// [`KeySession::current_key`], once the operation is done with it.
pub fn erase(key: &mut [u8; 32])
    ensures
        final(key)@ == zeros(),
{
    wipe(key);
    proof {
        assert(key@ =~= zeros());
    }
}

/// The slot that holds the session key, or nothing.
pub struct KeySession {
    buffer: [u8; 32],
    loaded: bool,
}

impl View for KeySession {
    type V = Option<Seq<u8>>;

    /// The key that is loaded, if any.
    closed spec fn view(&self) -> Option<Seq<u8>> {
        if self.loaded {
            Some(self.buffer@)
        } else {
            None
        }
    }
}

impl Drop for KeySession {
    /// A session that goes away overwrites its buffer with zeros first.
    fn drop(&mut self)
        opens_invariants none
        no_unwind
    {
        wipe(&mut self.buffer);
    }
}

impl KeySession {
    /// The bytes in the buffer of the slot, whether a key is loaded or not.
    pub closed spec fn buffer(&self) -> Seq<u8> {
        self.buffer@
    }

    /// A locked session over a buffer of zeros.
    pub fn new() -> (session: Self)
        ensures
            session@ is None,
            session.buffer() == zeros(),
    {
        let session = KeySession { buffer: [0u8; 32], loaded: false };
        proof {
            assert(session.buffer() =~= zeros());
        }
        session
    }

    /// Overwrites the buffer with zeros and marks the slot empty. Locking a
    /// locked session is no failure.
    pub fn lock(&mut self)
        ensures
            final(self)@ is None,
            final(self).buffer() == zeros(),
    {
        erase(&mut self.buffer);
        self.loaded = false;
    }

    /// Loads `key` in place of the key that was loaded, if any.
    pub fn install(&mut self, key: [u8; 32])
        ensures
            final(self)@ == Some(key@),
            final(self).buffer() == key@,
    {
        self.buffer = key;
        self.loaded = true;
    }

    /// Whether a key is loaded.
    pub fn is_unlocked(&self) -> (unlocked: bool)
        ensures
            unlocked == (self@ is Some),
    {
        self.loaded
    }

    /// A copy of the key for the use of one operation, or
    /// [`VaultError::Locked`] where none is loaded.
    pub fn current_key(&self) -> (r: Result<[u8; 32], VaultError>)
        ensures
            match r {
                Ok(key) => self@ == Some(key@),
                Err(e) => self@ is None && e == VaultError::Locked,
            },
    {
        if self.loaded {
            Ok(self.buffer)
        } else {
            Err(VaultError::Locked)
        }
    }
}

} // verus!
