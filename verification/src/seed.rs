//! Seeds: 16 bytes, each an ASCII letter or digit, drawn at random.

use vstd::prelude::*;

verus! {

/// `rand::rngs::ThreadRng`, the calling thread's random number generator,
/// carried as an opaque value.
#[verifier::external_type_specification]
#[verifier::external_body]
pub struct ExThreadRng(rand::rngs::ThreadRng);

/// An ASCII letter or digit.
pub open spec fn is_alphanumeric(b: u8) -> bool {
    ||| 0x30 <= b <= 0x39
    ||| 0x41 <= b <= 0x5a
    ||| 0x61 <= b <= 0x7a
}

/// Sixteen bytes, each an ASCII letter or digit.
pub open spec fn is_seed(bytes: Seq<u8>) -> bool {
    &&& bytes.len() == 16
    &&& forall|i: int| 0 <= i < bytes.len() ==> is_alphanumeric(#[trigger] bytes[i])
}

/// The text of ASCII bytes: one character for each byte.
pub open spec fn ascii_text(bytes: Seq<u8>) -> Seq<char> {
    Seq::new(bytes.len(), |i: int| bytes[i] as char)
}

/// `rand::thread_rng`: the calling thread's generator. Nothing is known of
/// what it will produce.
#[verifier::external_body]
pub(crate) fn thread_rng() -> (rng: rand::rngs::ThreadRng) {
    rand::thread_rng()
}

/// `Rng::sample` with `rand::distributions::Alphanumeric`: a byte drawn from
/// the ASCII letters and digits. Which one is left to chance.
#[verifier::external_body]
fn sample_alphanumeric(rng: &mut rand::rngs::ThreadRng) -> (byte: u8)
    ensures
        is_alphanumeric(byte),
{
    rand::Rng::sample(rng, rand::distributions::Alphanumeric)
}

/// `String::push`: the character is appended to the string.
#[verifier::external_body]
fn push_char(text: &mut String, c: char)
    ensures
        final(text)@ == old(text)@.push(c),
{
    text.push(c)
}

/// A seed. Its view is the sequence of its 16 bytes, each a letter or digit.
#[derive(Clone, Copy, Debug, PartialEq, Eq, Hash)]
pub struct Seed {
    bytes: [u8; 16],
}

impl View for Seed {
    type V = Seq<u8>;

    closed spec fn view(&self) -> Seq<u8> {
        self.bytes@
    }
}

impl Seed {
    /// The invariant: every byte is an ASCII letter or digit.
    #[verifier::type_invariant]
    closed spec fn wf(self) -> bool {
        is_seed(self.bytes@)
    }

    /// The seed with these bytes, if each of them is a letter or digit.
    pub fn new(bytes: [u8; 16]) -> (seed: Option<Seed>)
        ensures
            seed is Some <==> is_seed(bytes@),
            seed matches Some(s) ==> s@ == bytes@,
    {
        let mut i: usize = 0;
        while i < 16
            invariant
                i <= 16,
                forall|j: int| 0 <= j < i ==> is_alphanumeric(#[trigger] bytes@[j]),
            decreases 16 - i,
        {
            let b: u8 = bytes[i];
            let ok = (0x30 <= b && b <= 0x39) || (0x41 <= b && b <= 0x5a) || (0x61 <= b && b
                <= 0x7a);
            if !ok {
                return None;
            }
            i += 1;
        }
        Some(Seed { bytes })
    }

    /// A fresh seed: each of its 16 bytes is drawn from the generator.
    pub fn sample(rng: &mut rand::rngs::ThreadRng) -> (seed: Seed)
        ensures
            is_seed(seed@),
    {
        let mut bytes: [u8; 16] = [0x30u8; 16];
        let mut i: usize = 0;
        while i < 16
            invariant
                i <= 16,
                forall|j: int| 0 <= j < i ==> is_alphanumeric(#[trigger] bytes@[j]),
            decreases 16 - i,
        {
            let b: u8 = sample_alphanumeric(rng);
            bytes[i] = b;
            i += 1;
        }
        Seed { bytes }
    }

    /// A fresh seed from the calling thread's generator.
    pub fn random() -> (seed: Seed)
        ensures
            is_seed(seed@),
    {
        let mut rng = thread_rng();
        Seed::sample(&mut rng)
    }

    /// The seed's bytes.
    pub fn to_bytes(&self) -> (bytes: [u8; 16])
        ensures
            bytes@ == self@,
            is_seed(bytes@),
    {
        proof {
            use_type_invariant(self);
        }
        self.bytes
    }

    /// The seed's bytes, borrowed.
    pub fn as_bytes(&self) -> (bytes: &[u8])
        ensures
            bytes@ == self@,
            is_seed(bytes@),
    {
        proof {
            use_type_invariant(self);
        }
        self.bytes.as_slice()
    }

    /// The seed as text: its 16 letters and digits.
    pub fn to_text(&self) -> (text: String)
        ensures
            text@ == ascii_text(self@),
    {
        let mut text = String::new();
        let mut i: usize = 0;
        while i < 16
            invariant
                i <= 16,
                self.bytes@.len() == 16,
                text@.len() == i,
                forall|j: int| 0 <= j < i ==> text@[j] == self.bytes@[j] as char,
            decreases 16 - i,
        {
            push_char(&mut text, self.bytes[i] as char);
            i += 1;
        }
        assert(text@ =~= ascii_text(self@));
        text
    }
}

} // verus!
