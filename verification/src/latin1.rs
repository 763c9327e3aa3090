//! Latin-1 text: the byte-per-character strings source files are held in,
//! with checked conversion from UTF-8 and lossless conversion back. A
//! latin-1 byte and the character it stands for have the same code point,
//! so the conversions are plain casts, stated exactly.

use vstd::prelude::*;
use vstd::string::StrSliceExecFns;

verus! {

/// The characters a latin-1 byte sequence stands for.
pub open spec fn bytes_to_chars(b: Seq<u8>) -> Seq<char> {
    Seq::new(b.len(), |i: int| b[i] as char)
}

/// Whether every character of `s` has a latin-1 code point.
pub open spec fn fits_latin1(s: Seq<char>) -> bool {
    forall|i: int| 0 <= i < s.len() ==> (#[trigger] s[i] as u32) < 256
}

/// The latin-1 bytes of a character sequence that fits.
pub open spec fn chars_to_bytes(s: Seq<char>) -> Seq<u8> {
    Seq::new(s.len(), |i: int| s[i] as u8)
}

/// A string of latin-1 characters, one byte each.
#[derive(PartialEq, Eq, Debug)]
pub struct Latin1String {
    pub bytes: Vec<u8>,
}

impl Clone for Latin1String {
    /// A copy holding the same bytes.
    fn clone(&self) -> (r: Self)
        ensures
            r.bytes@ == self.bytes@,
    {
        let mut bytes: Vec<u8> = Vec::new();
        let mut i: usize = 0;
        while i < self.bytes.len()
            invariant
                i <= self.bytes@.len(),
                bytes@ == self.bytes@.take(i as int),
            decreases self.bytes@.len() - i,
        {
            bytes.push(self.bytes[i]);
            i = i + 1;
            proof {
                assert(bytes@ =~= self.bytes@.take(i as int));
            }
        }
        proof {
            assert(bytes@ =~= self.bytes@);
        }
        Latin1String { bytes }
    }
}

impl Latin1String {
    /// Wrap a byte vector; every byte is one character.
    pub fn from_vec(bytes: Vec<u8>) -> (r: Latin1String)
        ensures
            r.bytes == bytes,
    {
        Latin1String { bytes }
    }

    /// Copy a byte slice.
    pub fn new(bytes: &[u8]) -> (r: Latin1String)
        ensures
            r.bytes@ == bytes@,
    {
        Latin1String { bytes: vstd::slice::slice_to_vec(bytes) }
    }

    /// The length in characters (= bytes).
    pub fn len(&self) -> (n: usize)
        ensures
            n == self.bytes@.len(),
    {
        self.bytes.len()
    }

    /// Convert from UTF-8; fails exactly when some character lies outside
    /// latin-1.
    pub fn from_utf8(s: &str) -> (r: Result<Latin1String, String>)
        ensures
            match r {
                Ok(l) => fits_latin1(s@) && l.bytes@ == chars_to_bytes(s@),
                Err(_) => !fits_latin1(s@),
            },
    {
        let n = s.unicode_len();
        let mut bytes: Vec<u8> = Vec::new();
        let mut i: usize = 0;
        while i < n
            invariant
                n == s@.len(),
                i <= n,
                bytes@ == chars_to_bytes(s@.take(i as int)),
                forall|j: int| 0 <= j < i ==> (#[trigger] s@[j] as u32) < 256,
            decreases n - i,
        {
            let c = s.get_char(i);
            let code = c as u32;
            if code >= 256 {
                return Err("Invalid latin-1 character".to_owned());
            }
            bytes.push(code as u8);
            i = i + 1;
            proof {
                assert((s@[i - 1] as u8) == (code as u8));
                assert(bytes@ =~= chars_to_bytes(s@.take(i as int)));
            }
        }
        proof {
            assert(bytes@ =~= chars_to_bytes(s@));
        }
        Ok(Latin1String { bytes })
    }

    /// Convert from UTF-8 that is known to fit latin-1.
    pub fn from_utf8_unchecked(s: &str) -> (r: Latin1String)
        requires
            fits_latin1(s@),
        ensures
            r.bytes@ == chars_to_bytes(s@),
    {
        let n = s.unicode_len();
        let mut bytes: Vec<u8> = Vec::new();
        let mut i: usize = 0;
        while i < n
            invariant
                fits_latin1(s@),
                n == s@.len(),
                i <= n,
                bytes@ == chars_to_bytes(s@.take(i as int)),
            decreases n - i,
        {
            let c = s.get_char(i);
            let code = c as u32;
            proof {
                assert((s@[i as int] as u32) < 256);
            }
            bytes.push(code as u8);
            i = i + 1;
            proof {
                assert(bytes@ =~= chars_to_bytes(s@.take(i as int)));
            }
        }
        proof {
            assert(bytes@ =~= chars_to_bytes(s@));
        }
        Latin1String { bytes }
    }

    /// Convert to a UTF-8 string holding the same characters.
    pub fn to_string(&self) -> (r: String)
        ensures
            r@ == bytes_to_chars(self.bytes@),
    {
        let chars = bytes_to_char_vec(&self.bytes);
        chars_to_string(&chars)
    }
}

/// The characters of a latin-1 byte vector, one per byte.
fn bytes_to_char_vec(bytes: &Vec<u8>) -> (r: Vec<char>)
    ensures
        r@ == bytes_to_chars(bytes@),
{
    let mut chars: Vec<char> = Vec::new();
    let mut i: usize = 0;
    while i < bytes.len()
        invariant
            i <= bytes@.len(),
            chars@ == bytes_to_chars(bytes@.take(i as int)),
        decreases bytes@.len() - i,
    {
        chars.push(bytes[i] as char);
        i = i + 1;
        proof {
            assert(chars@ =~= bytes_to_chars(bytes@.take(i as int)));
        }
    }
    proof {
        assert(chars@ =~= bytes_to_chars(bytes@));
    }
    chars
}

/// Relies on `core::iter::Iterator::collect` for `String`: collecting
/// characters yields the string of exactly those characters, in order.
#[verifier::external_body]
pub fn chars_to_string(chars: &Vec<char>) -> (r: String)
    ensures
        r@ == chars@,
{
    chars.iter().collect()
}

} // verus!
