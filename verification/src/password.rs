//! Random passwords over a chosen alphabet.
//!
//! Every character is picked by one 64-bit draw from the system's random
//! source, reduced modulo the size of the alphabet.
use crate::crypto::os_random;
use crate::error::VaultError;
use vstd::bytes::u64_from_le_bytes;
use vstd::prelude::*;
use vstd::string::*;

verus! {

/// The 26 lower-case letters, which every alphabet holds.
pub open spec fn lower_letters() -> Seq<char> {
    "abcdefghijklmnopqrstuvwxyz"@
}

/// The 26 upper-case letters.
pub open spec fn upper_letters() -> Seq<char> {
    "ABCDEFGHIJKLMNOPQRSTUVWXYZ"@
}

/// The ten digits.
pub open spec fn digits() -> Seq<char> {
    "0123456789"@
}

/// The symbols.
pub open spec fn symbols() -> Seq<char> {
    "!@#$%^&*()-_=+[]{};:,.?/\\|`~"@
}

/// The alphabet for a choice of character classes: the lower-case letters,
/// then the upper-case letters, the digits and the symbols, each where asked
/// for.
pub open spec fn alphabet(use_digits: bool, use_upper: bool, use_symbols: bool) -> Seq<char> {
    lower_letters() + (if use_upper {
        upper_letters()
    } else {
        Seq::empty()
    }) + (if use_digits {
        digits()
    } else {
        Seq::empty()
    }) + (if use_symbols {
        symbols()
    } else {
        Seq::empty()
    })
}

/// The character that a draw picks from an alphabet.
pub open spec fn pick(letters: Seq<char>, draw: u64) -> char {
    letters[(draw as int) % (letters.len() as int)]
}

/// The password that a sequence of draws picks from an alphabet.
pub open spec fn password_of(letters: Seq<char>, draws: Seq<u64>) -> Seq<char> {
    Seq::new(draws.len(), |i: int| pick(letters, draws[i]))
}

/// Every alphabet holds at least the 26 lower-case letters.
pub proof fn lemma_alphabet_len(use_digits: bool, use_upper: bool, use_symbols: bool)
    ensures
        alphabet(use_digits, use_upper, use_symbols).len() >= 26,
{
    reveal_strlit("abcdefghijklmnopqrstuvwxyz");
}

/// Every character of a password is one of its alphabet.
pub proof fn lemma_password_in_alphabet(letters: Seq<char>, draws: Seq<u64>)
    requires
        letters.len() > 0,
    ensures
        password_of(letters, draws).len() == draws.len(),
        forall|i: int|
            0 <= i < draws.len() ==> letters.contains(#[trigger] password_of(letters, draws)[i]),
{
    assert forall|i: int| 0 <= i < draws.len() implies letters.contains(
        #[trigger] password_of(letters, draws)[i],
    ) by {
        let at = (draws[i] as int) % (letters.len() as int);
        assert(0 <= at < letters.len());
        assert(letters[at] == password_of(letters, draws)[i]);
    }
}

/// The alphabet for a choice of character classes.
fn letters_for(use_digits: bool, use_upper: bool, use_symbols: bool) -> (letters: String)
    ensures
        letters@ == alphabet(use_digits, use_upper, use_symbols),
{
    let mut letters = String::from_str("abcdefghijklmnopqrstuvwxyz");
    if use_upper {
        letters.append("ABCDEFGHIJKLMNOPQRSTUVWXYZ");
    }
    if use_digits {
        letters.append("0123456789");
    }
    if use_symbols {
        letters.append("!@#$%^&*()-_=+[]{};:,.?/\\|`~");
    }
    proof {
        assert(letters@ =~= alphabet(use_digits, use_upper, use_symbols));
    }
    letters
}

/// The password that the given draws pick: its `i`-th character is the one
/// at place `draws[i]` modulo the size of the alphabet.
pub fn password_from_draws(
    draws: &Vec<u64>,
    use_digits: bool,
    use_upper: bool,
    use_symbols: bool,
) -> (password: String)
    ensures
        password@ == password_of(alphabet(use_digits, use_upper, use_symbols), draws@),
{
    let letters = letters_for(use_digits, use_upper, use_symbols);
    let size: usize = letters.as_str().unicode_len();
    proof {
        lemma_alphabet_len(use_digits, use_upper, use_symbols);
    }
    let mut password = String::new();
    if size == 0 {
        return password;
    }
    let n: usize = draws.len();
    let mut i: usize = 0;
    while i < n
        invariant
            i <= n,
            n == draws.len(),
            size == letters@.len(),
            size > 0,
            letters@ == alphabet(use_digits, use_upper, use_symbols),
            password@ == password_of(letters@, draws@.take(i as int)),
        decreases n - i,
    {
        let at: usize = (draws[i] % (size as u64)) as usize;
        let letter = letters.as_str().substring_char(at, at + 1);
        password.append(letter);
        proof {
            assert(draws@.take(i + 1) =~= draws@.take(i as int).push(draws@[i as int]));
            assert(password@ =~= password_of(letters@, draws@.take(i + 1)));
        }
        i = i + 1;
    }
    proof {
        assert(draws@.take(n as int) =~= draws@);
    }
    password
}

/// A random password of `length` characters over the alphabet for the
/// chosen classes. Fails with [`VaultError::Crypto`] where the system has no
/// random bytes to give.
pub fn generate_password(
    length: usize,
    use_digits: bool,
    use_upper: bool,
    use_symbols: bool,
) -> (r: Result<String, VaultError>)
    ensures
        match r {
            Ok(password) => {
                let letters = alphabet(use_digits, use_upper, use_symbols);
                &&& password@.len() == length
                &&& forall|i: int| 0 <= i < length ==> letters.contains(#[trigger] password@[i])
                &&& exists|draws: Seq<u64>|
                    draws.len() == length && password@ == #[trigger] password_of(letters, draws)
            },
            Err(e) => e == VaultError::Crypto && length > 0,
        },
{
    let mut draws: Vec<u64> = Vec::new();
    let mut i: usize = 0;
    while i < length
        invariant
            i <= length,
            draws.len() == i,
        decreases length - i,
    {
        match os_random::<8>() {
            Some(bytes) => {
                draws.push(u64_from_le_bytes(bytes.as_slice()));
            },
            None => {
                return Err(VaultError::Crypto);
            },
        }
        i = i + 1;
    }
    let password = password_from_draws(&draws, use_digits, use_upper, use_symbols);
    proof {
        lemma_alphabet_len(use_digits, use_upper, use_symbols);
        lemma_password_in_alphabet(alphabet(use_digits, use_upper, use_symbols), draws@);
    }
    Ok(password)
}

} // verus!
