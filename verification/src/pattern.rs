//! The match predicate: does a text begin with one pattern and end with
//! another, with or without folding the text to lower case first.

use vstd::prelude::*;
use vstd::string::StringSliceAdditionalSpecFns;

verus! {

/// The ASCII lower-case form of one byte: `A`..`Z` move to `a`..`z`, every
/// other byte stays.
pub open spec fn lower_byte(b: u8) -> u8 {
    if 0x41 <= b <= 0x5a {
        (b + 0x20) as u8
    } else {
        b
    }
}

/// The ASCII lower-case form of a text, byte by byte.
pub open spec fn lowered(text: Seq<u8>) -> Seq<u8> {
    Seq::new(text.len(), |i: int| lower_byte(text[i]))
}

/// The text as it is compared: folded to lower case when asked, else as is.
pub open spec fn folded(text: Seq<u8>, case_insensitive: bool) -> Seq<u8> {
    if case_insensitive {
        lowered(text)
    } else {
        text
    }
}

/// The text, folded when asked, starts with `prefix` and ends with `suffix`.
/// The two are tested apart, so they may overlap in the text.
pub open spec fn matches_spec(
    text: Seq<u8>,
    prefix: Seq<u8>,
    suffix: Seq<u8>,
    case_insensitive: bool,
) -> bool {
    &&& prefix.is_prefix_of(folded(text, case_insensitive))
    &&& suffix.is_suffix_of(folded(text, case_insensitive))
}

/// A byte of the base58 alphabet: a digit or letter other than `0`, `I`, `O`
/// and `l`.
pub open spec fn is_base58_byte(b: u8) -> bool {
    ||| 0x31 <= b <= 0x39
    ||| (0x41 <= b <= 0x5a && b != 0x49 && b != 0x4f)
    ||| (0x61 <= b <= 0x7a && b != 0x6c)
}

/// A byte that base58 text can show where it is compared: a base58 byte, or
/// under folding the lower-case form of one, which is any digit but `0` and
/// any lower-case letter.
pub open spec fn can_occur(b: u8, case_insensitive: bool) -> bool {
    if case_insensitive {
        0x31 <= b <= 0x39 || 0x61 <= b <= 0x7a
    } else {
        is_base58_byte(b)
    }
}

/// Every byte of the pattern can occur in base58 text as it is compared.
pub open spec fn reachable(pattern: Seq<u8>, case_insensitive: bool) -> bool {
    forall|i: int| 0 <= i < pattern.len() ==> can_occur(#[trigger] pattern[i], case_insensitive)
}

/// Every byte of the text belongs to the base58 alphabet.
pub open spec fn is_base58(text: Seq<u8>) -> bool {
    forall|i: int| 0 <= i < text.len() ==> is_base58_byte(#[trigger] text[i])
}

/// Whether `text` begins with `prefix`.
pub fn starts_with(text: &[u8], prefix: &[u8]) -> (found: bool)
    ensures
        found == prefix@.is_prefix_of(text@),
{
    if prefix.len() > text.len() {
        return false;
    }
    let mut i: usize = 0;
    while i < prefix.len()
        invariant
            prefix.len() <= text.len(),
            i <= prefix.len(),
            forall|j: int| 0 <= j < i ==> prefix@[j] == text@[j],
        decreases prefix.len() - i,
    {
        if prefix[i] != text[i] {
            assert(text@.subrange(0, prefix@.len() as int)[i as int] == text@[i as int]);
            return false;
        }
        i += 1;
    }
    assert(prefix@ =~= text@.subrange(0, prefix@.len() as int));
    true
}

/// Whether `text` ends with `suffix`.
pub fn ends_with(text: &[u8], suffix: &[u8]) -> (found: bool)
    ensures
        found == suffix@.is_suffix_of(text@),
{
    if suffix.len() > text.len() {
        return false;
    }
    let shift: usize = text.len() - suffix.len();
    let mut i: usize = 0;
    while i < suffix.len()
        invariant
            suffix.len() <= text.len(),
            shift == text.len() - suffix.len(),
            i <= suffix.len(),
            forall|j: int| 0 <= j < i ==> suffix@[j] == text@[shift + j],
        decreases suffix.len() - i,
    {
        if suffix[i] != text[shift + i] {
            assert(text@.subrange(shift as int, text@.len() as int)[i as int] == text@[shift + i]);
            return false;
        }
        i += 1;
    }
    assert(suffix@ =~= text@.subrange(shift as int, text@.len() as int));
    true
}

/// One byte in ASCII lower case.
pub fn to_lower_byte(b: u8) -> (low: u8)
    ensures
        low == lower_byte(b),
{
    if 0x41 <= b && b <= 0x5a {
        b + 0x20
    } else {
        b
    }
}

/// A copy of `text` in ASCII lower case.
pub fn to_ascii_lowercase(text: &[u8]) -> (low: Vec<u8>)
    ensures
        low@ == lowered(text@),
{
    let mut low: Vec<u8> = Vec::with_capacity(text.len());
    let mut i: usize = 0;
    while i < text.len()
        invariant
            i <= text.len(),
            low@.len() == i,
            forall|j: int| 0 <= j < i ==> low@[j] == lower_byte(text@[j]),
        decreases text.len() - i,
    {
        low.push(to_lower_byte(text[i]));
        i += 1;
    }
    assert(low@ =~= lowered(text@));
    low
}

/// Whether `text` matches the pattern: it starts with `prefix` and ends with
/// `suffix`, after folding the text (never the pattern) to lower case when
/// `case_insensitive` is set.
pub fn matches_bytes(text: &[u8], prefix: &[u8], suffix: &[u8], case_insensitive: bool) -> (found:
    bool)
    ensures
        found == matches_spec(text@, prefix@, suffix@, case_insensitive),
{
    if case_insensitive {
        let low = to_ascii_lowercase(text);
        starts_with(low.as_slice(), prefix) && ends_with(low.as_slice(), suffix)
    } else {
        starts_with(text, prefix) && ends_with(text, suffix)
    }
}

/// The match predicate on strings, taken by their bytes.
pub fn matches(text: &str, prefix: &str, suffix: &str, case_insensitive: bool) -> (found: bool)
    ensures
        found == matches_spec(
            text.spec_bytes(),
            prefix.spec_bytes(),
            suffix.spec_bytes(),
            case_insensitive,
        ),
{
    matches_bytes(text.as_bytes(), prefix.as_bytes(), suffix.as_bytes(), case_insensitive)
}

/// Whether every byte of `pattern` can occur in base58 text as it is
/// compared.
pub fn is_reachable(pattern: &[u8], case_insensitive: bool) -> (ok: bool)
    ensures
        ok == reachable(pattern@, case_insensitive),
{
    let mut i: usize = 0;
    while i < pattern.len()
        invariant
            i <= pattern.len(),
            forall|j: int| 0 <= j < i ==> can_occur(#[trigger] pattern@[j], case_insensitive),
        decreases pattern.len() - i,
    {
        let b: u8 = pattern[i];
        let digit = 0x31 <= b && b <= 0x39;
        let lower = 0x61 <= b && b <= 0x7a;
        let upper = 0x41 <= b && b <= 0x5a;
        let ok = if case_insensitive {
            digit || lower
        } else {
            digit || (upper && b != 0x49 && b != 0x4f) || (lower && b != 0x6c)
        };
        if !ok {
            return false;
        }
        i += 1;
    }
    true
}

/// The folded form of a base58 byte can occur, and every byte that can occur
/// is the folded form of a base58 byte.
pub proof fn lemma_can_occur(b: u8, case_insensitive: bool)
    ensures
        can_occur(b, case_insensitive) <==> exists|c: u8|
            is_base58_byte(c) && b == (if case_insensitive {
                lower_byte(c)
            } else {
                c
            }),
{
    let fold = |c: u8|
        if case_insensitive {
            lower_byte(c)
        } else {
            c
        };
    if can_occur(b, case_insensitive) {
        let c: u8 = if case_insensitive && b == 0x6c {
            0x4c
        } else {
            b
        };
        assert(is_base58_byte(c) && b == fold(c));
    }
}

/// A pattern with a byte that cannot occur matches no base58 text.
pub proof fn lemma_unreachable_never_matches(
    text: Seq<u8>,
    prefix: Seq<u8>,
    suffix: Seq<u8>,
    case_insensitive: bool,
)
    requires
        is_base58(text),
        !reachable(prefix, case_insensitive) || !reachable(suffix, case_insensitive),
    ensures
        !matches_spec(text, prefix, suffix, case_insensitive),
{
    let shown = folded(text, case_insensitive);
    assert forall|i: int| 0 <= i < shown.len() implies can_occur(
        #[trigger] shown[i],
        case_insensitive,
    ) by {
        assert(is_base58_byte(text[i]));
    }
    if prefix.is_prefix_of(shown) && suffix.is_suffix_of(shown) {
        assert forall|i: int| 0 <= i < prefix.len() implies can_occur(
            #[trigger] prefix[i],
            case_insensitive,
        ) by {
            assert(prefix[i] == shown.subrange(0, prefix.len() as int)[i]);
        }
        assert forall|i: int| 0 <= i < suffix.len() implies can_occur(
            #[trigger] suffix[i],
            case_insensitive,
        ) by {
            let shift = shown.len() - suffix.len();
            assert(suffix[i] == shown.subrange(shift, shown.len() as int)[i]);
            assert(suffix[i] == shown[shift + i]);
        }
    }
}

/// The empty pattern matches every text, folded or not.
pub proof fn lemma_empty_pattern_matches(text: Seq<u8>, case_insensitive: bool)
    ensures
        matches_spec(text, Seq::<u8>::empty(), Seq::<u8>::empty(), case_insensitive),
{
    let t = folded(text, case_insensitive);
    assert(Seq::<u8>::empty() =~= t.subrange(0, 0));
    assert(Seq::<u8>::empty() =~= t.subrange(t.len() as int, t.len() as int));
}

/// A match is decided by the folded text alone: two texts that fold to the
/// same bytes match the same patterns.
pub proof fn lemma_matches_by_folded_text(
    a: Seq<u8>,
    b: Seq<u8>,
    prefix: Seq<u8>,
    suffix: Seq<u8>,
    case_insensitive: bool,
)
    requires
        folded(a, case_insensitive) == folded(b, case_insensitive),
    ensures
        matches_spec(a, prefix, suffix, case_insensitive) == matches_spec(
            b,
            prefix,
            suffix,
            case_insensitive,
        ),
{
}

} // verus!
