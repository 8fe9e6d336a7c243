//! Roots: fixed-size hashes of four field elements, and the text in which a
//! root is kept in a column.

use vstd::bytes::{
    lemma_auto_spec_u64_to_from_le_bytes, spec_u64_from_le_bytes, spec_u64_to_le_bytes,
};
use vstd::prelude::*;

verus! {

/// The order of the field whose elements make up words and roots:
/// 2^64 - 2^32 + 1.
pub const MODULUS: u64 = 0xFFFF_FFFF_0000_0001;

/// A word is four field elements, each given by its least representative.
pub open spec fn canonical(word: Seq<u64>) -> bool {
    &&& word.len() == 4
    &&& forall|i: int| 0 <= i < 4 ==> word[i] < MODULUS
}

/// Tells whether the four numbers are field elements in least form.
pub fn is_canonical(word: &[u64; 4]) -> (ok: bool)
    ensures
        ok == canonical(word@),
{
    word[0] < MODULUS && word[1] < MODULUS && word[2] < MODULUS && word[3] < MODULUS
}

/// A fixed-size hash that names a larger structure.
#[derive(Clone, Copy, Debug, PartialEq, Eq)]
pub struct Digest {
    pub elements: [u64; 4],
}

impl View for Digest {
    type V = Seq<u64>;

    open spec fn view(&self) -> Seq<u64> {
        self.elements@
    }
}

impl Digest {
    /// A digest is well formed when its elements are field elements in least
    /// form.
    pub open spec fn wf(&self) -> bool {
        canonical(self@)
    }

    /// Makes a digest of four field elements, or `None` where one of the
    /// numbers is not below the field's order.
    pub fn from_elements(elements: [u64; 4]) -> (digest: Option<Digest>)
        ensures
            digest is Some <==> canonical(elements@),
            digest matches Some(d) ==> d.wf() && d.elements == elements,
    {
        if is_canonical(&elements) {
            Some(Digest { elements })
        } else {
            None
        }
    }

    /// The four field elements.
    pub fn elements(&self) -> (elements: [u64; 4])
        ensures
            elements == self.elements,
    {
        self.elements
    }
}

/// The lower-case hexadecimal digit for a number below sixteen.
pub open spec fn hex_digit(n: int) -> char {
    if n < 10 {
        (n + 48) as char
    } else {
        (n + 87) as char
    }
}

/// The number that a hexadecimal digit of either case stands for.
pub open spec fn hex_value(c: char) -> Option<int> {
    let v = c as int;
    if 48 <= v <= 57 {
        Some(v - 48)
    } else if 97 <= v <= 102 {
        Some(v - 87)
    } else if 65 <= v <= 70 {
        Some(v - 55)
    } else {
        None
    }
}

/// Bytes as text: `0x`, then two lower-case digits for each byte, the high
/// half first.
pub open spec fn hex_text(bytes: Seq<u8>) -> Seq<char> {
    Seq::new(
        2 * bytes.len() + 2,
        |i: int|
            if i == 0 {
                '0'
            } else if i == 1 {
                'x'
            } else if i % 2 == 0 {
                hex_digit(bytes[(i - 2) / 2] as int / 16)
            } else {
                hex_digit(bytes[(i - 2) / 2] as int % 16)
            },
    )
}

/// Text that stands for `count` bytes: `0x`, then two hexadecimal digits of
/// either case for each byte.
pub open spec fn is_hex_text(text: Seq<char>, count: nat) -> bool {
    &&& text.len() == 2 * count + 2
    &&& text[0] == '0'
    &&& text[1] == 'x'
    &&& forall|i: int| 2 <= i < text.len() ==> (#[trigger] hex_value(text[i])) is Some
}

/// The bytes that hexadecimal text stands for.
pub open spec fn hex_bytes(text: Seq<char>) -> Seq<u8> {
    Seq::new(
        ((text.len() - 2) / 2) as nat,
        |k: int|
            (16 * hex_value(text[2 + 2 * k]).unwrap() + hex_value(
                text[3 + 2 * k],
            ).unwrap()) as u8,
    )
}

/// The thirty-two bytes of a word: each element in turn, least significant
/// byte first.
pub open spec fn word_bytes(word: Seq<u64>) -> Seq<u8> {
    spec_u64_to_le_bytes(word[0]) + spec_u64_to_le_bytes(word[1]) + spec_u64_to_le_bytes(word[2])
        + spec_u64_to_le_bytes(word[3])
}

/// The four numbers that thirty-two bytes stand for.
pub open spec fn bytes_word(bytes: Seq<u8>) -> Seq<u64> {
    seq![
        spec_u64_from_le_bytes(bytes.subrange(0, 8)),
        spec_u64_from_le_bytes(bytes.subrange(8, 16)),
        spec_u64_from_le_bytes(bytes.subrange(16, 24)),
        spec_u64_from_le_bytes(bytes.subrange(24, 32)),
    ]
}

/// A word in hexadecimal: sixty-six characters.
pub open spec fn digest_hex(word: Seq<u64>) -> Seq<char> {
    hex_text(word_bytes(word))
}

/// The word that hexadecimal text stands for, where it stands for one: the
/// text names thirty-two bytes, and each of the four numbers is a field
/// element in least form.
pub open spec fn hex_digest(text: Seq<char>) -> Option<Seq<u64>> {
    if is_hex_text(text, 32) && canonical(bytes_word(hex_bytes(text))) {
        Some(bytes_word(hex_bytes(text)))
    } else {
        None
    }
}

/// The text of a root in a column: its hexadecimal form between double
/// quotes.
pub open spec fn root_text(word: Seq<u64>) -> Seq<char> {
    seq!['"'] + digest_hex(word) + seq!['"']
}

/// The characters that may surround a value in a column's text.
pub open spec fn is_space(c: char) -> bool {
    c == ' ' || c == '\n' || c == '\t' || c == '\r'
}

/// How many space characters the text starts with.
pub open spec fn leading_spaces(text: Seq<char>) -> nat
    decreases text.len(),
{
    if text.len() > 0 && is_space(text[0]) {
        1 + leading_spaces(text.skip(1))
    } else {
        0
    }
}

/// The root that a column's text stands for, where it stands for one: a
/// word in hexadecimal between double quotes, with nothing but space
/// characters before and after.
pub open spec fn root_of_text(text: Seq<char>) -> Option<Seq<u64>> {
    let start = leading_spaces(text) as int;
    if text.len() >= start + 68 && text[start] == '"' && text[start + 67] == '"' && (forall|
        i: int,
    | start + 68 <= i < text.len() ==> is_space(#[trigger] text[i])) {
        hex_digest(text.subrange(start + 1, start + 67))
    } else {
        None
    }
}

/// The texts of the roots, with a comma between neighbours.
pub open spec fn joined_roots(roots: Seq<Seq<u64>>) -> Seq<char>
    decreases roots.len(),
{
    if roots.len() == 0 {
        Seq::empty()
    } else if roots.len() == 1 {
        root_text(roots[0])
    } else {
        joined_roots(roots.drop_last()) + seq![','] + root_text(roots.last())
    }
}

/// The text of a list of roots: their texts in order between square
/// brackets, with commas between them.
pub open spec fn root_list_text(roots: Seq<Seq<u64>>) -> Seq<char> {
    seq!['['] + joined_roots(roots) + seq![']']
}

/// A digit's value is the number it was written for.
pub proof fn lemma_hex_digit_value(n: int)
    requires
        0 <= n < 16,
    ensures
        hex_value(hex_digit(n)) == Some(n),
{
}

/// Hexadecimal text is accepted as such and stands for the bytes it was
/// written for.
pub proof fn lemma_hex_bytes_round_trip(bytes: Seq<u8>)
    ensures
        is_hex_text(hex_text(bytes), bytes.len()),
        hex_bytes(hex_text(bytes)) == bytes,
{
    let text = hex_text(bytes);
    assert forall|i: int| 2 <= i < text.len() implies (#[trigger] hex_value(text[i])) is Some by {
        let b = bytes[(i - 2) / 2] as int;
        lemma_hex_digit_value(b / 16);
        lemma_hex_digit_value(b % 16);
    }
    assert forall|k: int| 0 <= k < bytes.len() implies hex_bytes(text)[k] == bytes[k] by {
        let b = bytes[k] as int;
        lemma_hex_digit_value(b / 16);
        lemma_hex_digit_value(b % 16);
        assert(text[2 + 2 * k] == hex_digit(b / 16));
        assert(text[3 + 2 * k] == hex_digit(b % 16));
    }
    assert(hex_bytes(text) =~= bytes);
}

/// The bytes of a word stand for that word.
pub proof fn lemma_word_bytes_round_trip(word: Seq<u64>)
    requires
        word.len() == 4,
    ensures
        word_bytes(word).len() == 32,
        bytes_word(word_bytes(word)) == word,
{
    lemma_auto_spec_u64_to_from_le_bytes();
    let bytes = word_bytes(word);
    assert(bytes.subrange(0, 8) =~= spec_u64_to_le_bytes(word[0]));
    assert(bytes.subrange(8, 16) =~= spec_u64_to_le_bytes(word[1]));
    assert(bytes.subrange(16, 24) =~= spec_u64_to_le_bytes(word[2]));
    assert(bytes.subrange(24, 32) =~= spec_u64_to_le_bytes(word[3]));
    assert(bytes_word(bytes) =~= word);
}

/// The hexadecimal form of a word stands for that word.
pub proof fn lemma_hex_digest_round_trip(word: Seq<u64>)
    requires
        canonical(word),
    ensures
        digest_hex(word).len() == 66,
        hex_digest(digest_hex(word)) == Some(word),
{
    lemma_word_bytes_round_trip(word);
    lemma_hex_bytes_round_trip(word_bytes(word));
}

/// The text of a root stands for that root: what is written to a column is
/// read back as the same four elements.
pub proof fn lemma_root_text_round_trip(word: Seq<u64>)
    requires
        canonical(word),
    ensures
        root_of_text(root_text(word)) == Some(word),
{
    lemma_hex_digest_round_trip(word);
    let text = root_text(word);
    assert(!is_space(text[0]));
    assert(text.subrange(1, 67) =~= digest_hex(word));
}

/// The text of a root has sixty-eight characters.
pub proof fn lemma_root_text_len(word: Seq<u64>)
    ensures
        root_text(word).len() == 68,
{
    lemma_auto_spec_u64_to_from_le_bytes();
}

/// The joined texts of `n` roots have `69 n - 1` characters, and none for no
/// roots.
pub proof fn lemma_joined_roots_len(roots: Seq<Seq<u64>>)
    ensures
        joined_roots(roots).len() == if roots.len() == 0 {
            0
        } else {
            69 * roots.len() - 1
        },
    decreases roots.len(),
{
    if roots.len() == 1 {
        lemma_root_text_len(roots[0]);
    } else if roots.len() > 1 {
        lemma_joined_roots_len(roots.drop_last());
        lemma_root_text_len(roots.last());
    }
}

/// Lists of roots with the same joined texts are the same list.
pub proof fn lemma_joined_roots_injective(a: Seq<Seq<u64>>, b: Seq<Seq<u64>>)
    requires
        forall|i: int| 0 <= i < a.len() ==> canonical(#[trigger] a[i]),
        forall|i: int| 0 <= i < b.len() ==> canonical(#[trigger] b[i]),
        joined_roots(a) == joined_roots(b),
    ensures
        a == b,
    decreases a.len(),
{
    lemma_joined_roots_len(a);
    lemma_joined_roots_len(b);
    assert(a.len() == b.len());
    if a.len() == 1 {
        lemma_root_text_round_trip(a[0]);
        lemma_root_text_round_trip(b[0]);
    } else if a.len() > 1 {
        let front_a = a.drop_last();
        let front_b = b.drop_last();
        lemma_joined_roots_len(front_a);
        lemma_joined_roots_len(front_b);
        lemma_root_text_len(a.last());
        lemma_root_text_len(b.last());
        let cut = joined_roots(front_a).len() as int;
        let text = joined_roots(a);
        assert(text.subrange(0, cut) =~= joined_roots(front_a));
        assert(text.subrange(0, cut) =~= joined_roots(front_b));
        assert(text.subrange(cut + 1, cut + 69) =~= root_text(a.last()));
        assert(text.subrange(cut + 1, cut + 69) =~= root_text(b.last()));
        lemma_root_text_round_trip(a.last());
        lemma_root_text_round_trip(b.last());
        assert forall|i: int| 0 <= i < front_a.len() implies canonical(#[trigger] front_a[i]) by {
            assert(front_a[i] == a[i]);
        }
        assert forall|i: int| 0 <= i < front_b.len() implies canonical(#[trigger] front_b[i]) by {
            assert(front_b[i] == b[i]);
        }
        lemma_joined_roots_injective(front_a, front_b);
        assert(a =~= front_a.push(a.last()));
        assert(b =~= front_b.push(b.last()));
    }
    assert(a =~= b);
}

/// Nothing is lost in the text of a list of roots: lists with the same text
/// are the same list, root by root and in the same order.
pub proof fn lemma_root_list_text_injective(a: Seq<Seq<u64>>, b: Seq<Seq<u64>>)
    requires
        forall|i: int| 0 <= i < a.len() ==> canonical(#[trigger] a[i]),
        forall|i: int| 0 <= i < b.len() ==> canonical(#[trigger] b[i]),
        root_list_text(a) == root_list_text(b),
    ensures
        a == b,
{
    let text = root_list_text(a);
    assert(text.subrange(1, text.len() - 1) =~= joined_roots(a));
    assert(text.subrange(1, text.len() - 1) =~= joined_roots(b));
    lemma_joined_roots_injective(a, b);
}

} // verus!
