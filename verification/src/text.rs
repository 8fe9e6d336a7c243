//! The text of numbers, words, slot maps and asset lists in a column, and why
//! nothing is lost in it.

use vstd::prelude::*;

verus! {

/// The character of a decimal digit.
pub open spec fn digit_char(d: nat) -> char {
    (d + 48) as char
}

/// Tells a decimal digit from any other character.
pub open spec fn is_digit(c: char) -> bool {
    48 <= c as int <= 57
}

/// A number in decimal: no sign, no leading zero but for zero itself.
pub open spec fn decimal_text(n: nat) -> Seq<char>
    decreases n,
{
    if n < 10 {
        seq![digit_char(n)]
    } else {
        decimal_text(n / 10) + seq![digit_char(n % 10)]
    }
}

/// A text of digits only.
pub open spec fn all_digits(text: Seq<char>) -> bool {
    forall|i: int| 0 <= i < text.len() ==> is_digit(#[trigger] text[i])
}

/// A number in decimal is at least one character, all of them digits.
pub proof fn lemma_decimal_text_digits(n: nat)
    ensures
        decimal_text(n).len() >= 1,
        all_digits(decimal_text(n)),
    decreases n,
{
    if n >= 10 {
        lemma_decimal_text_digits(n / 10);
    }
}

/// Digits with the same character are the same digit.
pub proof fn lemma_digit_char_injective(a: nat, b: nat)
    requires
        a < 10,
        b < 10,
        digit_char(a) == digit_char(b),
    ensures
        a == b,
{
    assert(digit_char(a) as int == a + 48);
    assert(digit_char(b) as int == b + 48);
}

/// Numbers with the same decimal text are the same number.
pub proof fn lemma_decimal_text_injective(a: nat, b: nat)
    requires
        decimal_text(a) == decimal_text(b),
    ensures
        a == b,
    decreases a,
{
    lemma_decimal_text_digits(a / 10);
    lemma_decimal_text_digits(b / 10);
    if a < 10 && b < 10 {
        assert(decimal_text(a)[0] == digit_char(a));
        assert(decimal_text(b)[0] == digit_char(b));
        lemma_digit_char_injective(a, b);
    } else if a >= 10 && b >= 10 {
        let front_a = decimal_text(a / 10);
        let front_b = decimal_text(b / 10);
        let text = decimal_text(a);
        assert(text == front_a + seq![digit_char(a % 10)]);
        assert(text == front_b + seq![digit_char(b % 10)]);
        assert(text.last() == digit_char(a % 10));
        assert(text.last() == digit_char(b % 10));
        assert(text.drop_last() =~= front_a);
        assert(text.drop_last() =~= front_b);
        lemma_decimal_text_injective(a / 10, b / 10);
        lemma_digit_char_injective(a % 10, b % 10);
        assert(a == 10 * (a / 10) + a % 10);
        assert(b == 10 * (b / 10) + b % 10);
    } else if a < 10 {
        assert(decimal_text(a).len() == 1);
        assert(decimal_text(b).len() == decimal_text(b / 10).len() + 1);
    } else {
        assert(decimal_text(b).len() == 1);
        assert(decimal_text(a).len() == decimal_text(a / 10).len() + 1);
    }
}

/// Digits that end at a character which is no digit can be told from what
/// follows: two such texts that agree have the same digits and the same
/// rest.
pub proof fn lemma_digits_end(d1: Seq<char>, r1: Seq<char>, d2: Seq<char>, r2: Seq<char>)
    requires
        all_digits(d1),
        all_digits(d2),
        r1.len() > 0,
        r2.len() > 0,
        !is_digit(r1[0]),
        !is_digit(r2[0]),
        d1 + r1 == d2 + r2,
    ensures
        d1 == d2,
        r1 == r2,
{
    let text = d1 + r1;
    if d1.len() < d2.len() {
        assert(text[d1.len() as int] == r1[0]);
        assert((d2 + r2)[d1.len() as int] == d2[d1.len() as int]);
    }
    if d2.len() < d1.len() {
        assert((d2 + r2)[d2.len() as int] == r2[0]);
        assert(text[d2.len() as int] == d1[d2.len() as int]);
    }
    assert(d1 =~= text.subrange(0, d1.len() as int));
    assert(d2 =~= (d2 + r2).subrange(0, d2.len() as int));
    assert(r1 =~= text.subrange(d1.len() as int, text.len() as int));
    assert(r2 =~= (d2 + r2).subrange(d2.len() as int, text.len() as int));
}

/// A number that ends at a character which is no digit can be told from
/// what follows.
pub proof fn lemma_number_end(n1: nat, r1: Seq<char>, n2: nat, r2: Seq<char>)
    requires
        r1.len() > 0,
        r2.len() > 0,
        !is_digit(r1[0]),
        !is_digit(r2[0]),
        decimal_text(n1) + r1 == decimal_text(n2) + r2,
    ensures
        n1 == n2,
        r1 == r2,
{
    lemma_decimal_text_digits(n1);
    lemma_decimal_text_digits(n2);
    lemma_digits_end(decimal_text(n1), r1, decimal_text(n2), r2);
    lemma_decimal_text_injective(n1, n2);
}

/// The text of a word: its four numbers in decimal between square brackets,
/// with commas between them.
pub open spec fn word_text(word: Seq<u64>) -> Seq<char> {
    seq!['['] + decimal_text(word[0] as nat) + seq![','] + decimal_text(word[1] as nat) + seq![
        ',',
    ] + decimal_text(word[2] as nat) + seq![','] + decimal_text(word[3] as nat) + seq![']']
}

/// The text of one slot: the index in decimal between double quotes, a
/// colon, and the text of the word.
pub open spec fn slot_text(index: u64, value: Seq<u64>) -> Seq<char> {
    seq!['"'] + decimal_text(index as nat) + seq!['"', ':'] + word_text(value)
}

/// The texts of the slots in order, with a comma between neighbours.
pub open spec fn joined_slots(indices: Seq<u64>, values: Seq<Seq<u64>>) -> Seq<char>
    decreases indices.len(),
{
    if indices.len() == 0 {
        Seq::empty()
    } else if indices.len() == 1 {
        slot_text(indices[0], values[0])
    } else {
        slot_text(indices[0], values[0]) + seq![','] + joined_slots(
            indices.skip(1),
            values.skip(1),
        )
    }
}

/// The text of a map from slot index to word: the texts of its slots by
/// rising index between braces.
pub open spec fn slots_text(indices: Seq<u64>, values: Seq<Seq<u64>>) -> Seq<char> {
    seq!['{'] + joined_slots(indices, values) + seq!['}']
}

/// The text of one asset. A word whose last number has its high bit set is a
/// fungible asset of the faucet named by that number, its amount the first
/// number; any other word is a non-fungible asset, written as the word.
pub open spec fn asset_text(word: Seq<u64>) -> Seq<char> {
    if word[3] >= 0x8000_0000_0000_0000 {
        "{\"Fungible\":{\"faucet_id\":"@ + decimal_text(word[3] as nat) + ",\"amount\":"@
            + decimal_text(word[0] as nat) + "}}"@
    } else {
        "{\"NonFungible\":"@ + word_text(word) + "}"@
    }
}

/// The texts of the assets in order, with a comma between neighbours.
pub open spec fn joined_assets(words: Seq<Seq<u64>>) -> Seq<char>
    decreases words.len(),
{
    if words.len() == 0 {
        Seq::empty()
    } else if words.len() == 1 {
        asset_text(words[0])
    } else {
        asset_text(words[0]) + seq![','] + joined_assets(words.skip(1))
    }
}

/// The text of a list of assets: their texts in order between square
/// brackets.
pub open spec fn assets_text(words: Seq<Seq<u64>>) -> Seq<char> {
    seq!['['] + joined_assets(words) + seq![']']
}

/// Joining texts does not depend on how the joins are grouped.
proof fn lemma_join_grouping(a: Seq<char>, b: Seq<char>, c: Seq<char>)
    ensures
        (a + b) + c == a + (b + c),
{
    assert((a + b) + c =~= a + (b + c));
}

/// The text of a word followed by more text, read from the left: the
/// bracket, then each number followed by what comes after it.
spec fn word_text_then(word: Seq<u64>, rest: Seq<char>) -> Seq<char> {
    seq!['['] + (decimal_text(word[0] as nat) + (seq![','] + (decimal_text(word[1] as nat) + (seq![
        ',',
    ] + (decimal_text(word[2] as nat) + (seq![','] + (decimal_text(word[3] as nat) + (seq![']']
        + rest))))))))
}

/// The two ways of writing the text of a word and what follows agree.
proof fn lemma_word_text_then(word: Seq<u64>, rest: Seq<char>)
    ensures
        word_text(word) + rest == word_text_then(word, rest),
{
    let open = seq!['['];
    let comma = seq![','];
    let close = seq![']'];
    let a0 = decimal_text(word[0] as nat);
    let a1 = decimal_text(word[1] as nat);
    let a2 = decimal_text(word[2] as nat);
    let a3 = decimal_text(word[3] as nat);
    let p1 = open + a0;
    let p2 = p1 + comma;
    let p3 = p2 + a1;
    let p4 = p3 + comma;
    let p5 = p4 + a2;
    let p6 = p5 + comma;
    let p7 = p6 + a3;
    let q8 = close + rest;
    let q7 = a3 + q8;
    let q6 = comma + q7;
    let q5 = a2 + q6;
    let q4 = comma + q5;
    let q3 = a1 + q4;
    let q2 = comma + q3;
    let q1 = a0 + q2;
    assert(word_text(word) == p7 + close);
    lemma_join_grouping(p7, close, rest);
    lemma_join_grouping(p6, a3, q8);
    lemma_join_grouping(p5, comma, q7);
    lemma_join_grouping(p4, a2, q6);
    lemma_join_grouping(p3, comma, q5);
    lemma_join_grouping(p2, a1, q4);
    lemma_join_grouping(p1, comma, q3);
    lemma_join_grouping(open, a0, q2);
    assert(word_text_then(word, rest) == open + q1);
}

/// A number and the text after it, where that text starts with no digit,
/// can be told from one another.
proof fn lemma_number_then_end(
    n1: nat,
    c1: char,
    r1: Seq<char>,
    n2: nat,
    c2: char,
    r2: Seq<char>,
)
    requires
        !is_digit(c1),
        !is_digit(c2),
        decimal_text(n1) + (seq![c1] + r1) == decimal_text(n2) + (seq![c2] + r2),
    ensures
        n1 == n2,
        c1 == c2,
        r1 == r2,
{
    let x = seq![c1] + r1;
    let y = seq![c2] + r2;
    assert(x[0] == c1);
    assert(y[0] == c2);
    lemma_number_end(n1, x, n2, y);
    assert(x.skip(1) =~= r1);
    assert(y.skip(1) =~= r2);
}

/// The text of a word can be told from what follows it.
pub proof fn lemma_word_text_end(w1: Seq<u64>, r1: Seq<char>, w2: Seq<u64>, r2: Seq<char>)
    requires
        w1.len() == 4,
        w2.len() == 4,
        word_text(w1) + r1 == word_text(w2) + r2,
    ensures
        w1 == w2,
        r1 == r2,
{
    lemma_word_text_then(w1, r1);
    lemma_word_text_then(w2, r2);
    let a3 = decimal_text(w1[3] as nat) + (seq![']'] + r1);
    let b3 = decimal_text(w2[3] as nat) + (seq![']'] + r2);
    let a2 = decimal_text(w1[2] as nat) + (seq![','] + a3);
    let b2 = decimal_text(w2[2] as nat) + (seq![','] + b3);
    let a1 = decimal_text(w1[1] as nat) + (seq![','] + a2);
    let b1 = decimal_text(w2[1] as nat) + (seq![','] + b2);
    let a0 = decimal_text(w1[0] as nat) + (seq![','] + a1);
    let b0 = decimal_text(w2[0] as nat) + (seq![','] + b1);
    assert(word_text_then(w1, r1) == seq!['['] + a0);
    assert(word_text_then(w2, r2) == seq!['['] + b0);
    assert((seq!['['] + a0).skip(1) =~= a0);
    assert((seq!['['] + b0).skip(1) =~= b0);
    lemma_number_then_end(w1[0] as nat, ',', a1, w2[0] as nat, ',', b1);
    lemma_number_then_end(w1[1] as nat, ',', a2, w2[1] as nat, ',', b2);
    lemma_number_then_end(w1[2] as nat, ',', a3, w2[2] as nat, ',', b3);
    lemma_number_then_end(w1[3] as nat, ']', r1, w2[3] as nat, ']', r2);
    assert(w1 =~= w2);
}

/// The text of a slot can be told from what follows it.
pub proof fn lemma_slot_text_end(
    k1: u64,
    w1: Seq<u64>,
    r1: Seq<char>,
    k2: u64,
    w2: Seq<u64>,
    r2: Seq<char>,
)
    requires
        w1.len() == 4,
        w2.len() == 4,
        slot_text(k1, w1) + r1 == slot_text(k2, w2) + r2,
    ensures
        k1 == k2,
        w1 == w2,
        r1 == r2,
{
    let x = seq!['"', ':'] + (word_text(w1) + r1);
    let y = seq!['"', ':'] + (word_text(w2) + r2);
    assert((slot_text(k1, w1) + r1).skip(1) =~= decimal_text(k1 as nat) + x);
    assert((slot_text(k2, w2) + r2).skip(1) =~= decimal_text(k2 as nat) + y);
    lemma_number_end(k1 as nat, x, k2 as nat, y);
    assert(x.skip(2) =~= word_text(w1) + r1);
    assert(y.skip(2) =~= word_text(w2) + r2);
    lemma_word_text_end(w1, r1, w2, r2);
}

/// Slots are told apart in their joined texts up to the closing brace.
pub proof fn lemma_joined_slots_end(
    ks1: Seq<u64>,
    vs1: Seq<Seq<u64>>,
    t1: Seq<char>,
    ks2: Seq<u64>,
    vs2: Seq<Seq<u64>>,
    t2: Seq<char>,
)
    requires
        ks1.len() == vs1.len(),
        ks2.len() == vs2.len(),
        forall|i: int| 0 <= i < vs1.len() ==> (#[trigger] vs1[i]).len() == 4,
        forall|i: int| 0 <= i < vs2.len() ==> (#[trigger] vs2[i]).len() == 4,
        joined_slots(ks1, vs1) + (seq!['}'] + t1) == joined_slots(ks2, vs2) + (seq!['}'] + t2),
    ensures
        ks1 == ks2,
        vs1 == vs2,
    decreases ks1.len(),
{
    let text = joined_slots(ks1, vs1) + (seq!['}'] + t1);
    let other = joined_slots(ks2, vs2) + (seq!['}'] + t2);
    if ks1.len() == 0 || ks2.len() == 0 {
        if ks1.len() > 0 {
            assert(slot_text(ks1[0], vs1[0])[0] == '"');
            assert(text[0] == '"');
            assert(other[0] == '}');
        }
        if ks2.len() > 0 {
            assert(slot_text(ks2[0], vs2[0])[0] == '"');
            assert(other[0] == '"');
            assert(text[0] == '}');
        }
        assert(ks1 =~= ks2);
        assert(vs1 =~= vs2);
    } else {
        let rest1 = if ks1.len() == 1 {
            seq!['}'] + t1
        } else {
            seq![','] + (joined_slots(ks1.skip(1), vs1.skip(1)) + (seq!['}'] + t1))
        };
        let rest2 = if ks2.len() == 1 {
            seq!['}'] + t2
        } else {
            seq![','] + (joined_slots(ks2.skip(1), vs2.skip(1)) + (seq!['}'] + t2))
        };
        assert(text =~= slot_text(ks1[0], vs1[0]) + rest1);
        assert(other =~= slot_text(ks2[0], vs2[0]) + rest2);
        lemma_slot_text_end(ks1[0], vs1[0], rest1, ks2[0], vs2[0], rest2);
        assert(rest1[0] == rest2[0]);
        if ks1.len() > 1 {
            assert(rest1[0] == ',');
            assert(ks2.len() > 1);
            assert(rest1.skip(1) =~= joined_slots(ks1.skip(1), vs1.skip(1)) + (seq!['}'] + t1));
            assert(rest2.skip(1) =~= joined_slots(ks2.skip(1), vs2.skip(1)) + (seq!['}'] + t2));
            lemma_joined_slots_end(ks1.skip(1), vs1.skip(1), t1, ks2.skip(1), vs2.skip(1), t2);
            assert(ks1 =~= seq![ks1[0]] + ks1.skip(1));
            assert(ks2 =~= seq![ks2[0]] + ks2.skip(1));
            assert(vs1 =~= seq![vs1[0]] + vs1.skip(1));
            assert(vs2 =~= seq![vs2[0]] + vs2.skip(1));
        } else {
            assert(rest1[0] == '}');
            assert(ks2.len() == 1);
            assert(ks1 =~= ks2);
            assert(vs1 =~= vs2);
        }
    }
}

/// Nothing is lost in the text of a slot map: maps with the same text have
/// the same indices and the same words.
pub proof fn lemma_slots_text_injective(
    ks1: Seq<u64>,
    vs1: Seq<Seq<u64>>,
    ks2: Seq<u64>,
    vs2: Seq<Seq<u64>>,
)
    requires
        ks1.len() == vs1.len(),
        ks2.len() == vs2.len(),
        forall|i: int| 0 <= i < vs1.len() ==> (#[trigger] vs1[i]).len() == 4,
        forall|i: int| 0 <= i < vs2.len() ==> (#[trigger] vs2[i]).len() == 4,
        slots_text(ks1, vs1) == slots_text(ks2, vs2),
    ensures
        ks1 == ks2,
        vs1 == vs2,
{
    let none = Seq::<char>::empty();
    assert(slots_text(ks1, vs1).skip(1) =~= joined_slots(ks1, vs1) + (seq!['}'] + none));
    assert(slots_text(ks2, vs2).skip(1) =~= joined_slots(ks2, vs2) + (seq!['}'] + none));
    lemma_joined_slots_end(ks1, vs1, none, ks2, vs2, none);
}

/// How many bits of the number are set.
pub open spec fn ones(n: nat) -> nat
    decreases n,
{
    if n == 0 {
        0
    } else {
        n % 2 + ones(n / 2)
    }
}

/// The number names a faucet of the kind that the tag gives: at least five
/// of its bits are set, and its two highest bits are the tag.
pub open spec fn is_faucet_id(id: u64, tag: int) -> bool {
    &&& ones(id as nat) >= 5
    &&& id as int / 0x4000_0000_0000_0000 == tag
}

/// The word stands for an asset. Where its last number has the high bit
/// set, the asset is fungible: the two middle numbers are zero, the last
/// number names a faucet of fungible assets (tag `10`), and the first
/// number, the amount, is below 2^63. Otherwise it is non-fungible: the
/// second number names a faucet of non-fungible assets (tag `11`).
pub open spec fn is_asset(word: Seq<u64>) -> bool {
    if word[3] >= 0x8000_0000_0000_0000 {
        &&& word[1] == 0
        &&& word[2] == 0
        &&& is_faucet_id(word[3], 2)
        &&& word[0] <= 0x7fff_ffff_ffff_ffff
    } else {
        is_faucet_id(word[1], 3)
    }
}

/// A word reads as one asset only: where its last number has the high bit
/// set, so that it is written as a fungible asset, its two middle numbers
/// are zero. Every asset is such a word.
pub open spec fn asset_shaped(word: Seq<u64>) -> bool {
    &&& word.len() == 4
    &&& word[3] >= 0x8000_0000_0000_0000 ==> word[1] == 0 && word[2] == 0
}

/// Every asset reads as one asset only.
pub proof fn lemma_asset_is_shaped(word: Seq<u64>)
    requires
        word.len() == 4,
        is_asset(word),
    ensures
        asset_shaped(word),
{
}

/// The text of an asset can be told from what follows it.
pub proof fn lemma_asset_text_end(w1: Seq<u64>, r1: Seq<char>, w2: Seq<u64>, r2: Seq<char>)
    requires
        asset_shaped(w1),
        asset_shaped(w2),
        asset_text(w1) + r1 == asset_text(w2) + r2,
    ensures
        w1 == w2,
        r1 == r2,
{
    reveal_strlit("{\"Fungible\":{\"faucet_id\":");
    reveal_strlit(",\"amount\":");
    reveal_strlit("}}");
    reveal_strlit("{\"NonFungible\":");
    reveal_strlit("}");
    let f1 = "{\"Fungible\":{\"faucet_id\":"@;
    let f2 = ",\"amount\":"@;
    let f3 = "}}"@;
    let n1 = "{\"NonFungible\":"@;
    let n2 = "}"@;
    let text = asset_text(w1) + r1;
    let other = asset_text(w2) + r2;
    let fungible1 = w1[3] >= 0x8000_0000_0000_0000;
    let fungible2 = w2[3] >= 0x8000_0000_0000_0000;
    assert(text[2] == if fungible1 { 'F' } else { 'N' }) by {
        if fungible1 {
            assert(asset_text(w1)[2] == f1[2]);
        } else {
            assert(asset_text(w1)[2] == n1[2]);
        }
    }
    assert(other[2] == if fungible2 { 'F' } else { 'N' }) by {
        if fungible2 {
            assert(asset_text(w2)[2] == f1[2]);
        } else {
            assert(asset_text(w2)[2] == n1[2]);
        }
    }
    assert(fungible1 == fungible2);
    if fungible1 {
        let a0 = decimal_text(w1[0] as nat);
        let a3 = decimal_text(w1[3] as nat);
        let b0 = decimal_text(w2[0] as nat);
        let b3 = decimal_text(w2[3] as nat);
        let x3 = f3 + r1;
        let y3 = f3 + r2;
        let x2 = f2 + (a0 + x3);
        let y2 = f2 + (b0 + y3);
        lemma_join_grouping(f1 + a3 + f2 + a0, f3, r1);
        lemma_join_grouping(f1 + a3 + f2, a0, x3);
        lemma_join_grouping(f1 + a3, f2, a0 + x3);
        lemma_join_grouping(f1, a3, x2);
        lemma_join_grouping(f1 + b3 + f2 + b0, f3, r2);
        lemma_join_grouping(f1 + b3 + f2, b0, y3);
        lemma_join_grouping(f1 + b3, f2, b0 + y3);
        lemma_join_grouping(f1, b3, y2);
        assert(text == f1 + (a3 + x2));
        assert(other == f1 + (b3 + y2));
        assert(text.skip(f1.len() as int) =~= a3 + x2);
        assert(other.skip(f1.len() as int) =~= b3 + y2);
        assert(x2[0] == ',');
        assert(y2[0] == ',');
        lemma_number_end(w1[3] as nat, x2, w2[3] as nat, y2);
        assert(x2.skip(f2.len() as int) =~= a0 + x3);
        assert(y2.skip(f2.len() as int) =~= b0 + y3);
        assert(x3[0] == '}');
        assert(y3[0] == '}');
        lemma_number_end(w1[0] as nat, x3, w2[0] as nat, y3);
        assert(x3.skip(2) =~= r1);
        assert(y3.skip(2) =~= r2);
        assert(w1 =~= w2);
    } else {
        let x = n2 + r1;
        let y = n2 + r2;
        lemma_join_grouping(n1 + word_text(w1), n2, r1);
        lemma_join_grouping(n1, word_text(w1), x);
        lemma_join_grouping(n1 + word_text(w2), n2, r2);
        lemma_join_grouping(n1, word_text(w2), y);
        assert(text.skip(n1.len() as int) =~= word_text(w1) + x);
        assert(other.skip(n1.len() as int) =~= word_text(w2) + y);
        lemma_word_text_end(w1, x, w2, y);
        assert(x.skip(1) =~= r1);
        assert(y.skip(1) =~= r2);
    }
}

/// The first character of the text of an asset is an opening brace.
proof fn lemma_asset_text_start(word: Seq<u64>)
    ensures
        asset_text(word).len() > 0,
        asset_text(word)[0] == '{',
{
    reveal_strlit("{\"Fungible\":{\"faucet_id\":");
    reveal_strlit("{\"NonFungible\":");
}

/// Assets are told apart in their joined texts up to the closing bracket.
pub proof fn lemma_joined_assets_end(
    ws1: Seq<Seq<u64>>,
    t1: Seq<char>,
    ws2: Seq<Seq<u64>>,
    t2: Seq<char>,
)
    requires
        forall|i: int| 0 <= i < ws1.len() ==> asset_shaped(#[trigger] ws1[i]),
        forall|i: int| 0 <= i < ws2.len() ==> asset_shaped(#[trigger] ws2[i]),
        joined_assets(ws1) + (seq![']'] + t1) == joined_assets(ws2) + (seq![']'] + t2),
    ensures
        ws1 == ws2,
    decreases ws1.len(),
{
    let text = joined_assets(ws1) + (seq![']'] + t1);
    let other = joined_assets(ws2) + (seq![']'] + t2);
    if ws1.len() == 0 || ws2.len() == 0 {
        if ws1.len() > 0 {
            lemma_asset_text_start(ws1[0]);
            assert(text[0] == '{');
            assert(other[0] == ']');
        }
        if ws2.len() > 0 {
            lemma_asset_text_start(ws2[0]);
            assert(other[0] == '{');
            assert(text[0] == ']');
        }
        assert(ws1 =~= ws2);
    } else {
        let rest1 = if ws1.len() == 1 {
            seq![']'] + t1
        } else {
            seq![','] + (joined_assets(ws1.skip(1)) + (seq![']'] + t1))
        };
        let rest2 = if ws2.len() == 1 {
            seq![']'] + t2
        } else {
            seq![','] + (joined_assets(ws2.skip(1)) + (seq![']'] + t2))
        };
        assert(text =~= asset_text(ws1[0]) + rest1);
        assert(other =~= asset_text(ws2[0]) + rest2);
        lemma_asset_text_end(ws1[0], rest1, ws2[0], rest2);
        assert(rest1[0] == rest2[0]);
        if ws1.len() > 1 {
            assert(rest1[0] == ',');
            assert(ws2.len() > 1);
            assert(rest1.skip(1) =~= joined_assets(ws1.skip(1)) + (seq![']'] + t1));
            assert(rest2.skip(1) =~= joined_assets(ws2.skip(1)) + (seq![']'] + t2));
            lemma_joined_assets_end(ws1.skip(1), t1, ws2.skip(1), t2);
            assert(ws1 =~= seq![ws1[0]] + ws1.skip(1));
            assert(ws2 =~= seq![ws2[0]] + ws2.skip(1));
        } else {
            assert(rest1[0] == ']');
            assert(ws2.len() == 1);
            assert(ws1 =~= ws2);
        }
    }
}

/// Nothing is lost in the text of a list of assets: lists with the same text
/// are the same list, word by word and in the same order.
pub proof fn lemma_assets_text_injective(ws1: Seq<Seq<u64>>, ws2: Seq<Seq<u64>>)
    requires
        forall|i: int| 0 <= i < ws1.len() ==> asset_shaped(#[trigger] ws1[i]),
        forall|i: int| 0 <= i < ws2.len() ==> asset_shaped(#[trigger] ws2[i]),
        assets_text(ws1) == assets_text(ws2),
    ensures
        ws1 == ws2,
{
    let none = Seq::<char>::empty();
    assert(assets_text(ws1).skip(1) =~= joined_assets(ws1) + (seq![']'] + none));
    assert(assets_text(ws2).skip(1) =~= joined_assets(ws2) + (seq![']'] + none));
    lemma_joined_assets_end(ws1, none, ws2, none);
}

} // verus!
