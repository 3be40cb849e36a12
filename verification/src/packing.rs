//! Words as the bytes that the device's buffers hold.

use vstd::prelude::*;
use vstd::slice::slice_to_vec;

verus! {

/// The order in which a machine keeps the bytes of a word.
#[derive(Clone, Copy, Debug, PartialEq, Eq, Structural)]
pub enum ByteOrder {
    /// The lowest byte comes first.
    Little,
    /// The highest byte comes first.
    Big,
}

impl ByteOrder {
    /// The order that is not this one.
    pub open spec fn other(self) -> ByteOrder {
        match self {
            ByteOrder::Little => ByteOrder::Big,
            ByteOrder::Big => ByteOrder::Little,
        }
    }
}

/// The byte of `word` that counts 256 to the power of `k`.
pub open spec fn word_byte(word: u32, k: int) -> u8 {
    if k == 0 {
        (word as int % 0x100) as u8
    } else if k == 1 {
        (word as int / 0x100 % 0x100) as u8
    } else if k == 2 {
        (word as int / 0x1_0000 % 0x100) as u8
    } else {
        (word as int / 0x100_0000) as u8
    }
}

/// Whether `bytes` are `words` in memory, on a machine of a byte order.
pub open spec fn packed_as(order: ByteOrder, words: Seq<u32>, bytes: Seq<u8>) -> bool {
    &&& bytes.len() == 4 * words.len()
    &&& forall|i: int| #![trigger bytes[i]]
        0 <= i < bytes.len() ==> bytes[i] == word_byte(
            words[i / 4],
            match order {
                ByteOrder::Little => i % 4,
                ByteOrder::Big => 3 - i % 4,
            },
        )
}

/// Whether `bytes` are `words` in memory, on a machine whose byte order is one of
/// the two.
pub open spec fn packed(words: Seq<u32>, bytes: Seq<u8>) -> bool {
    packed_as(ByteOrder::Little, words, bytes) || packed_as(ByteOrder::Big, words, bytes)
}

/// On a machine of a given byte order, bytes stand for one sequence of words
/// only: what was packed is what is unpacked.
pub proof fn packed_words_come_back(
    order: ByteOrder,
    words: Seq<u32>,
    unpacked: Seq<u32>,
    bytes: Seq<u8>,
)
    requires
        packed_as(order, words, bytes),
        packed_as(order, unpacked, bytes),
    ensures
        words == unpacked,
{
    assert forall|i: int| 0 <= i < words.len() implies words[i] == unpacked[i] by {
        assert forall|k: int| 0 <= k < 4 implies #[trigger] word_byte(words[i], k) == word_byte(
            unpacked[i],
            k,
        ) by {
            let place = 4 * i + match order {
                ByteOrder::Little => k,
                ByteOrder::Big => 3 - k,
            };
            assert(bytes[place] == word_byte(words[i], k));
        }
        lemma_bytes_of_a_word(words[i]);
        lemma_bytes_of_a_word(unpacked[i]);
    }
}

proof fn lemma_bytes_of_a_word(word: u32)
    ensures
        word == word_byte(word, 0) + 0x100 * word_byte(word, 1) + 0x1_0000 * word_byte(word, 2)
            + 0x100_0000 * word_byte(word, 3),
{
}

/// Calls `bytemuck::cast_slice` from words to bytes, and copies what it shows.
/// Claims that these are the bytes of the words in memory: four for each word,
/// in the machine's order. Which order that is is left open.
#[verifier::external_body]
pub(crate) fn pack_words(words: &[u32]) -> (bytes: Vec<u8>)
    ensures
        packed(words@, bytes@),
{
    bytemuck::cast_slice::<u32, u8>(words).to_vec()
}

/// Calls `bytemuck::pod_collect_to_vec` from bytes to words. Claims that the
/// bytes are those of the words in memory, in the machine's order. Which order
/// that is is left open.
#[verifier::external_body]
pub(crate) fn unpack_words(bytes: &[u8]) -> (words: Vec<u32>)
    requires
        bytes@.len() % 4 == 0,
    ensures
        packed(words@, bytes@),
{
    bytemuck::pod_collect_to_vec::<u8, u32>(bytes)
}

/// Bytes of words, with those of each word in the opposite order.
pub open spec fn turned(bytes: Seq<u8>) -> Seq<u8> {
    Seq::new(bytes.len(), |i: int| bytes[i - i % 4 + (3 - i % 4)])
}

/// A word, with its bytes in the opposite order.
pub open spec fn turned_word(word: u32) -> u32 {
    (word_byte(word, 3) + 0x100 * word_byte(word, 2) + 0x1_0000 * word_byte(word, 1) + 0x100_0000
        * word_byte(word, 0)) as u32
}

/// The bytes of a word that was turned round are those of the word, the last one
/// first.
pub proof fn turned_word_has_turned_bytes(word: u32, k: int)
    requires
        0 <= k < 4,
    ensures
        word_byte(turned_word(word), k) == word_byte(word, 3 - k),
{
    lemma_bytes_of_a_sum(
        word_byte(word, 3),
        word_byte(word, 2),
        word_byte(word, 1),
        word_byte(word, 0),
    );
}

proof fn lemma_bytes_of_a_sum(a: u8, b: u8, c: u8, d: u8)
    ensures
        ({
            let sum = a + 0x100 * b + 0x1_0000 * c + 0x100_0000 * d;
            &&& 0 <= sum <= u32::MAX
            &&& word_byte(sum as u32, 0) == a
            &&& word_byte(sum as u32, 1) == b
            &&& word_byte(sum as u32, 2) == c
            &&& word_byte(sum as u32, 3) == d
        }),
{
    let sum = a + 0x100 * b + 0x1_0000 * c + 0x100_0000 * d;
    assert(sum / 0x100 == b + 0x100 * c + 0x1_0000 * d);
    assert(sum / 0x1_0000 == c + 0x100 * d);
    assert(sum / 0x100_0000 == d);
}

/// The bytes of each word turned round are the bytes on a machine of the other
/// order, and so are the bytes of words turned round.
pub proof fn turning_changes_the_order(order: ByteOrder, words: Seq<u32>, bytes: Seq<u8>)
    requires
        packed_as(order, words, bytes),
    ensures
        packed_as(order.other(), words, turned(bytes)),
        packed_as(order.other(), words.map_values(|word: u32| turned_word(word)), bytes),
{
    let turned_words = words.map_values(|word: u32| turned_word(word));
    assert forall|i: int| #![trigger bytes[i]] 0 <= i < bytes.len() implies bytes[i] == word_byte(
        turned_words[i / 4],
        match order.other() {
            ByteOrder::Little => i % 4,
            ByteOrder::Big => 3 - i % 4,
        },
    ) by {
        turned_word_has_turned_bytes(words[i / 4], i % 4);
        turned_word_has_turned_bytes(words[i / 4], 3 - i % 4);
    }
}

/// The byte order in which `bytes` are those of the word 1.
pub fn order_of_one(bytes: &[u8]) -> (order: Option<ByteOrder>)
    ensures
        match order {
            Some(order) => packed_as(order, seq![1u32], bytes@),
            None => !packed(seq![1u32], bytes@),
        },
{
    let ghost words = seq![1u32];
    if bytes.len() != 4 {
        None
    } else if bytes[0] == 1 && bytes[1] == 0 && bytes[2] == 0 && bytes[3] == 0 {
        assert(packed_as(ByteOrder::Little, words, bytes@));
        Some(ByteOrder::Little)
    } else if bytes[0] == 0 && bytes[1] == 0 && bytes[2] == 0 && bytes[3] == 1 {
        assert(packed_as(ByteOrder::Big, words, bytes@));
        Some(ByteOrder::Big)
    } else {
        None
    }
}

/// Bytes of words, with those of each word in the opposite order.
fn turned_bytes(bytes: &Vec<u8>) -> (turned_round: Vec<u8>)
    requires
        bytes.len() % 4 == 0,
    ensures
        turned_round@ == turned(bytes@),
{
    let mut turned_round: Vec<u8> = Vec::new();
    for i in 0..bytes.len()
        invariant
            bytes.len() % 4 == 0,
            turned_round@ == turned(bytes@).take(i as int),
    {
        turned_round.push(bytes[i - i % 4 + (3 - i % 4)]);
    }
    turned_round
}

/// Words, each with its bytes in the opposite order.
fn turned_words(words: &Vec<u32>) -> (turned_round: Vec<u32>)
    ensures
        turned_round@ == words@.map_values(|word: u32| turned_word(word)),
{
    let mut turned_round: Vec<u32> = Vec::new();
    for i in 0..words.len()
        invariant
            turned_round@ == words@.take(i as int).map_values(|word: u32| turned_word(word)),
    {
        let word: u32 = words[i];
        turned_round.push(
            word / 0x100_0000 + word / 0x1_0000 % 0x100 * 0x100 + word / 0x100 % 0x100 * 0x1_0000
                + word % 0x100 * 0x100_0000,
        );
    }
    turned_round
}

/// The bytes of words in a byte order. A word behind them shows the order of this
/// machine; where that is the other one, the bytes of each word are turned round.
pub fn pack_in(order: ByteOrder, words: &[u32]) -> (bytes: Vec<u8>)
    ensures
        packed_as(order, words@, bytes@),
{
    let mut probed = slice_to_vec(words);
    probed.push(1);
    let mut bytes = pack_words(probed.as_slice());
    let len: usize = bytes.len() - 4;
    let own = if bytes[len] == 1 {
        ByteOrder::Little
    } else {
        ByteOrder::Big
    };
    bytes.truncate(len);
    assert(packed_as(own, words@, bytes@));
    if own == order {
        bytes
    } else {
        proof {
            turning_changes_the_order(own, words@, bytes@);
        }
        turned_bytes(&bytes)
    }
}

/// The words that bytes stand for in a byte order. A word behind them shows the
/// order of this machine; where that is the other one, each word is turned round.
pub fn unpack_in(order: ByteOrder, bytes: &[u8]) -> (words: Vec<u32>)
    requires
        bytes@.len() % 4 == 0,
    ensures
        packed_as(order, words@, bytes@),
{
    let mut probed = slice_to_vec(bytes);
    probed.push(1);
    probed.push(0);
    probed.push(0);
    probed.push(0);
    let mut words = unpack_words(probed.as_slice());
    let ghost all = words@;
    let len: usize = words.len() - 1;
    let own = if words[len] == 1 {
        ByteOrder::Little
    } else {
        ByteOrder::Big
    };
    words.truncate(len);
    proof {
        lemma_bytes_of_a_word(all[len as int]);
        assert(probed[4 * len] == 1 && probed[4 * len + 1] == 0 && probed[4 * len + 2] == 0
            && probed[4 * len + 3] == 0);
        assert(packed_as(own, all, probed@));
        assert forall|i: int| 0 <= i < bytes@.len() implies #[trigger] bytes@[i] == probed@[i] by {}
    }
    assert(packed_as(own, words@, bytes@));
    if own == order {
        words
    } else {
        proof {
            turning_changes_the_order(own, words@, bytes@);
        }
        turned_words(&words)
    }
}

/// The bytes of a word make it up: each counts 256 times the one below it, and the
/// lowest one comes first or last, as the order says.
pub proof fn bytes_make_up_their_words(
    order: ByteOrder,
    words: Seq<u32>,
    bytes: Seq<u8>,
    i: int,
)
    requires
        packed_as(order, words, bytes),
        0 <= i < words.len(),
    ensures
        bytes.len() == 4 * words.len(),
        order is Little ==> words[i] == bytes[4 * i] + 256 * (bytes[4 * i + 1] + 256 * (bytes[4 * i
            + 2] + 256 * bytes[4 * i + 3])),
        order is Big ==> words[i] == bytes[4 * i + 3] + 256 * (bytes[4 * i + 2] + 256 * (bytes[4 * i
            + 1] + 256 * bytes[4 * i])),
{
    lemma_bytes_of_a_word(words[i]);
}

} // verus!
