//! Keys: 32 raw bytes, written as base58 text without checksum or length.

use vstd::prelude::*;
use vstd::string::StringSliceAdditionalSpecFns;
use vstd::utf8::{encode_utf8, is_ascii_chars, is_ascii_chars_encode_utf8};
use crate::pattern::{is_base58, is_base58_byte};

verus! {

/// A 32-byte key. Its view is the sequence of its bytes.
#[derive(Clone, Copy, Debug, PartialEq, Eq, Hash)]
pub struct Key {
    bytes: [u8; 32],
}

/// Why a text is not the base58 form of any key.
#[derive(Clone, Copy, Debug, PartialEq, Eq)]
pub enum DecodeError {
    /// The text holds a character outside the base58 alphabet.
    InvalidCharacter,
    /// The text is longer than the base58 form of the value it stands for.
    InputTooLong,
    /// The text is shorter than the base58 form of the value it stands for.
    InputTooShort,
    /// The value the text stands for does not fit in 32 bytes.
    InvalidByteAmount,
}

/// The length of the shortest base58 text of 32 bytes.
pub const MIN_TEXT_LEN: usize = 32;

/// The length of the longest base58 text of 32 bytes.
pub const MAX_TEXT_LEN: usize = 44;

/// Thirty-two bytes that lie at a multiple of four: the empty array of
/// words lends the bytes its alignment.
struct Aligned {
    words: [u32; 0],
    bytes: [u8; 32],
}

/// The base58 text of 32 bytes.
pub uninterp spec fn base58_text(bytes: Seq<u8>) -> Seq<char>;

/// The base58 alphabet: digits and letters without `0`, `I`, `O` and `l`.
pub open spec fn is_base58_char(c: char) -> bool {
    ||| '1' <= c <= '9'
    ||| ('A' <= c <= 'Z' && c != 'I' && c != 'O')
    ||| ('a' <= c <= 'z' && c != 'l')
}

/// `fd_bs58::encode_32`: the string returned is the base58 text of the 32
/// bytes, and every character of it belongs to the base58 alphabet. The text
/// holds a `1` for each leading zero byte and then the digits of the rest in
/// base 58, which are no fewer than the bytes they stand for and bring the
/// whole to 44 characters at most. The bytes are handed over in an aligned
/// holder, since the function reads them word by word.
#[verifier::external_body]
fn encode_32(bytes: [u8; 32]) -> (text: String)
    ensures
        text@ == base58_text(bytes@),
        forall|i: int| 0 <= i < text@.len() ==> is_base58_char(#[trigger] text@[i]),
        MIN_TEXT_LEN <= text@.len() <= MAX_TEXT_LEN,
{
    let holder = Aligned { words: [], bytes };
    fd_bs58::encode_32(&holder.bytes)
}

/// `fd_bs58::decode_32`: the inverse of `fd_bs58::encode_32`. It returns 32
/// bytes exactly when the text is their base58 text, and an error for every
/// other text. A text of more than 44 bytes is too long; a shorter one with
/// a byte outside the alphabet has an invalid character; which of the errors
/// any other text gets is left open.
#[verifier::external_body]
fn decode_32(text: &str) -> (decoded: Result<[u8; 32], DecodeError>)
    ensures
        forall|bytes: Seq<u8>|
            bytes.len() == 32 ==> ((#[trigger] base58_text(bytes) == text@) <==> (decoded is Ok
                && decoded->Ok_0@ == bytes)),
        text.spec_bytes().len() > MAX_TEXT_LEN ==> (decoded is Err && decoded->Err_0
            == DecodeError::InputTooLong),
        (!is_base58(text.spec_bytes()) && !(text.spec_bytes().len() > MAX_TEXT_LEN)) ==> (decoded is Err
            && decoded->Err_0 == DecodeError::InvalidCharacter),
{
    match fd_bs58::decode_32(text) {
        Ok(bytes) => Ok(bytes),
        Err(fd_bs58::Error::InvalidCharacter) => Err(DecodeError::InvalidCharacter),
        Err(fd_bs58::Error::InputTooLong) => Err(DecodeError::InputTooLong),
        Err(fd_bs58::Error::InputTooShort) => Err(DecodeError::InputTooShort),
        Err(fd_bs58::Error::InvalidByteAmount) => Err(DecodeError::InvalidByteAmount),
    }
}

/// What reading a text as a key may give: the key with these bytes exactly
/// when the text is their base58 text, and otherwise an error.
pub open spec fn is_parse_of(text: Seq<char>, parsed: Result<Key, DecodeError>) -> bool {
    forall|bytes: Seq<u8>|
        bytes.len() == 32 ==> ((#[trigger] base58_text(bytes) == text) <==> (parsed is Ok
            && parsed->Ok_0@ == bytes))
}

/// Writing a key and reading the text back gives the key: whatever a
/// reading of a key's base58 text returns, it is that key.
pub proof fn lemma_text_reads_back(key: Key, parsed: Result<Key, DecodeError>)
    requires
        is_parse_of(base58_text(key@), parsed),
    ensures
        parsed is Ok,
        parsed->Ok_0@ == key@,
{
    key.lemma_len();
    assert(base58_text(key@) == base58_text(key@));
}

/// Reading a text and writing the key gives the text: a text that reads as
/// a key is that key's base58 text.
pub proof fn lemma_key_writes_back(text: Seq<char>, parsed: Result<Key, DecodeError>)
    requires
        is_parse_of(text, parsed),
        parsed is Ok,
    ensures
        base58_text(parsed->Ok_0@) == text,
{
    parsed->Ok_0.lemma_len();
}

/// Text made of base58 characters is ASCII, one byte for each character,
/// and each byte belongs to the base58 alphabet.
pub proof fn lemma_base58_bytes(text: Seq<char>)
    requires
        forall|i: int| 0 <= i < text.len() ==> is_base58_char(#[trigger] text[i]),
    ensures
        encode_utf8(text).len() == text.len(),
        is_base58(encode_utf8(text)),
{
    assert(is_ascii_chars(text));
    is_ascii_chars_encode_utf8(text);
    assert forall|i: int| 0 <= i < encode_utf8(text).len() implies is_base58_byte(
        #[trigger] encode_utf8(text)[i],
    ) by {
        assert(is_base58_char(text[i]));
        assert(encode_utf8(text)[i] == text[i] as u8);
    }
}

impl View for Key {
    type V = Seq<u8>;

    closed spec fn view(&self) -> Seq<u8> {
        self.bytes@
    }
}

impl Key {
    /// Every key has 32 bytes.
    pub proof fn lemma_len(self)
        ensures
            self@.len() == 32,
    {
    }

    /// The key with these bytes.
    pub fn new(bytes: [u8; 32]) -> (key: Key)
        ensures
            key@ == bytes@,
    {
        Key { bytes }
    }

    /// The key's bytes.
    pub fn to_bytes(&self) -> (bytes: [u8; 32])
        ensures
            bytes@ == self@,
    {
        self.bytes
    }

    /// The key's bytes, borrowed.
    pub fn as_bytes(&self) -> (bytes: &[u8])
        ensures
            bytes@ == self@,
    {
        self.bytes.as_slice()
    }

    /// The key in base58: 32 to 44 characters of the base58 alphabet.
    pub fn to_base58(&self) -> (text: String)
        ensures
            text@ == base58_text(self@),
            is_base58(encode_utf8(text@)),
            MIN_TEXT_LEN <= text@.len() <= MAX_TEXT_LEN,
    {
        let text = encode_32(self.bytes);
        proof {
            lemma_base58_bytes(text@);
        }
        text
    }

    /// Reads a key from base58. A text is accepted exactly when it is the
    /// base58 form of some key, and then that key is returned: so the text
    /// that `to_base58` gives for a key reads back as the same key.
    pub fn from_base58(text: &str) -> (parsed: Result<Key, DecodeError>)
        ensures
            is_parse_of(text@, parsed),
            text.spec_bytes().len() > MAX_TEXT_LEN ==> (parsed is Err && parsed->Err_0
                == DecodeError::InputTooLong),
            (text.spec_bytes().len() <= MAX_TEXT_LEN && !is_base58(text.spec_bytes())) ==> (parsed is Err
                && parsed->Err_0 == DecodeError::InvalidCharacter),
    {
        match decode_32(text) {
            Ok(bytes) => {
                let key = Key { bytes };
                assert(is_parse_of(text@, Ok::<Key, DecodeError>(key)));
                Ok(key)
            },
            Err(e) => {
                assert(is_parse_of(text@, Err::<Key, DecodeError>(e)));
                Err(e)
            },
        }
    }

    /// Writes the key in base58 and reads it back: the same key returns.
    pub fn round_trip(&self) -> (back: Result<Key, DecodeError>)
        ensures
            back matches Ok(key) && key@ == self@,
    {
        let text = self.to_base58();
        let back = Key::from_base58(text.as_str());
        proof {
            lemma_text_reads_back(*self, back);
        }
        back
    }
}

} // verus!
