//! The per-instance record and its byte image.

use vstd::prelude::*;

verus! {

/// Number of 32-bit words in one instance record.
pub const RECORD_WORDS: usize = 7;

/// Size of one instance record in bytes.
pub const RECORD_SIZE: usize = 28;

/// Byte offset of the position inside a record.
pub const POSITION_OFFSET: usize = 0;

/// Byte offset of the color inside a record.
pub const COLOR_OFFSET: usize = 12;

/// Shading parameters of an entity. Only the color is read here; its four
/// components are held as bit patterns.
#[derive(Clone, Copy, Debug)]
pub struct Material {
    pub color: [u32; 4],
}

impl Material {
    pub fn new(color: [u32; 4]) -> (m: Self)
        ensures
            m.color == color,
    {
        Material { color }
    }

    pub fn get_color(&self) -> (c: [u32; 4])
        ensures
            c == self.color,
    {
        self.color
    }
}

/// A local-to-world matrix: sixteen bit patterns in column-major order.
#[derive(Clone, Copy, Debug)]
pub struct LocalToWorld {
    pub cols: [u32; 16],
}

impl LocalToWorld {
    /// The translation of an affine matrix: the first three entries of its
    /// fourth column.
    pub open spec fn spec_translation(self) -> Seq<u32> {
        seq![self.cols[12], self.cols[13], self.cols[14]]
    }

    pub fn new(cols: [u32; 16]) -> (t: Self)
        ensures
            t.cols == cols,
    {
        LocalToWorld { cols }
    }

    pub fn translation(&self) -> (t: [u32; 3])
        ensures
            t@ == self.spec_translation(),
    {
        let t: [u32; 3] = [self.cols[12], self.cols[13], self.cols[14]];
        assert(t@ =~= self.spec_translation());
        t
    }
}

/// What the GPU reads for one instance: a position of three components at
/// byte 0 and a color of four components at byte 12, with no padding.
#[derive(Clone, Copy, Debug)]
pub struct InstanceRecord {
    pub position: [u32; 3],
    pub color: [u32; 4],
}

/// The seven words of the record that a transform and a material give.
pub open spec fn record_words(transform: LocalToWorld, material: Material) -> Seq<u32> {
    transform.spec_translation() + material.color@
}

impl View for InstanceRecord {
    type V = Seq<u32>;

    /// The record as its seven words, position first.
    open spec fn view(&self) -> Seq<u32> {
        self.position@ + self.color@
    }
}

impl InstanceRecord {
    pub fn new(transform: &LocalToWorld, material: &Material) -> (r: Self)
        ensures
            r@ == record_words(*transform, *material),
            r.position@ == transform.spec_translation(),
            r.color == material.color,
    {
        InstanceRecord { position: transform.translation(), color: material.get_color() }
    }
}

/// The words of each record of a sequence.
pub open spec fn record_views(records: Seq<InstanceRecord>) -> Seq<Seq<u32>> {
    records.map_values(|r: InstanceRecord| r@)
}

/// The words of a sequence of records, one record after the other.
pub open spec fn flat_words(records: Seq<Seq<u32>>) -> Seq<u32>
    decreases records.len(),
{
    if records.len() == 0 {
        Seq::empty()
    } else {
        flat_words(records.drop_last()) + records.last()
    }
}

/// The four bytes of a word, least significant first.
pub open spec fn word_le(w: u32) -> Seq<u8> {
    seq![(w & 0xff) as u8, ((w >> 8) & 0xff) as u8, ((w >> 16) & 0xff) as u8, ((w >> 24) & 0xff) as u8]
}

/// The four bytes of a word, most significant first.
pub open spec fn word_be(w: u32) -> Seq<u8> {
    seq![((w >> 24) & 0xff) as u8, ((w >> 16) & 0xff) as u8, ((w >> 8) & 0xff) as u8, (w & 0xff) as u8]
}

/// The word that four bytes, least significant first, stand for.
pub open spec fn word_of_le(b: Seq<u8>) -> u32
    recommends
        b.len() == 4,
{
    (b[0] as u32) | ((b[1] as u32) << 8) | ((b[2] as u32) << 16) | ((b[3] as u32) << 24)
}

/// The word that four bytes, most significant first, stand for.
pub open spec fn word_of_be(b: Seq<u8>) -> u32
    recommends
        b.len() == 4,
{
    (b[3] as u32) | ((b[2] as u32) << 8) | ((b[1] as u32) << 16) | ((b[0] as u32) << 24)
}

/// The little-endian byte image of a sequence of words.
pub open spec fn words_le(words: Seq<u32>) -> Seq<u8> {
    Seq::new(4 * words.len(), |i: int| word_le(words[i / 4])[i % 4])
}

/// The big-endian byte image of a sequence of words.
pub open spec fn words_be(words: Seq<u32>) -> Seq<u8> {
    Seq::new(4 * words.len(), |i: int| word_be(words[i / 4])[i % 4])
}

/// Whether `bytes` is the image in memory of `words`, in one of the two byte
/// orders a machine can have.
pub open spec fn is_memory_image(bytes: Seq<u8>, words: Seq<u32>) -> bool {
    bytes == words_le(words) || bytes == words_be(words)
}

/// The bytes that a slice of words occupies in memory, through
/// `zerocopy::AsBytes::as_bytes` on `[u32]`. That function hands out the
/// slice's own memory as bytes: four per word, the words in order, each in the
/// byte order of the machine. The contract claims that this is the
/// little-endian or the big-endian image, and not which of the two.
#[verifier::external_body]
pub(crate) fn words_as_bytes(words: &Vec<u32>) -> (bytes: Vec<u8>)
    ensures
        is_memory_image(bytes@, words@),
{
    zerocopy::AsBytes::as_bytes(words.as_slice()).to_vec()
}

/// Every record has seven words, so `n` records have `7 * n`.
pub proof fn lemma_flat_words_len(records: Seq<InstanceRecord>)
    ensures
        flat_words(record_views(records)).len() == RECORD_WORDS * records.len(),
    decreases records.len(),
{
    if records.len() > 0 {
        assert(record_views(records).drop_last() =~= record_views(records.drop_last()));
        lemma_flat_words_len(records.drop_last());
    }
}

/// Word `k` of record `i` stands at place `7 * i + k` of the flat words.
pub proof fn lemma_flat_words_index(records: Seq<InstanceRecord>, i: int, k: int)
    requires
        0 <= i < records.len(),
        0 <= k < RECORD_WORDS,
    ensures
        RECORD_WORDS * i + k < flat_words(record_views(records)).len(),
        flat_words(record_views(records))[RECORD_WORDS * i + k] == records[i]@[k],
    decreases records.len(),
{
    let before = records.drop_last();
    assert(record_views(records).drop_last() =~= record_views(before));
    lemma_flat_words_len(before);
    lemma_flat_words_len(records);
    if i < records.len() - 1 {
        lemma_flat_words_index(before, i, k);
    }
}

/// A word is recovered from its four bytes in either byte order.
pub proof fn lemma_word_round_trip(w: u32)
    ensures
        word_of_le(word_le(w)) == w,
        word_of_be(word_be(w)) == w,
{
    let b0 = (w & 0xff) as u8;
    let b1 = ((w >> 8) & 0xff) as u8;
    let b2 = ((w >> 16) & 0xff) as u8;
    let b3 = ((w >> 24) & 0xff) as u8;
    assert(((b0 as u32) | ((b1 as u32) << 8) | ((b2 as u32) << 16) | ((b3 as u32) << 24)) == w) by (bit_vector)
        requires
            b0 == (w & 0xff) as u8,
            b1 == ((w >> 8) & 0xff) as u8,
            b2 == ((w >> 16) & 0xff) as u8,
            b3 == ((w >> 24) & 0xff) as u8,
    ;
}

/// The layout of a packed batch. In the image of `records`, record `i`
/// starts at byte `28 * i`; its position fills the twelve bytes from offset 0
/// and its color the sixteen bytes from offset 12, word by word. Reading the
/// four bytes of a word back in the image's byte order gives the word.
pub proof fn lemma_image_layout(bytes: Seq<u8>, records: Seq<InstanceRecord>, i: int, k: int)
    requires
        is_memory_image(bytes, flat_words(record_views(records))),
        0 <= i < records.len(),
        0 <= k < RECORD_WORDS,
    ensures
        bytes.len() == RECORD_SIZE * records.len(),
        ({
            let at = RECORD_SIZE * i + 4 * k;
            let word = if k < 3 {
                records[i].position[k]
            } else {
                records[i].color[k - 3]
            };
            let four = bytes.subrange(at, at + 4);
            &&& at + 4 <= bytes.len()
            &&& bytes == words_le(flat_words(record_views(records))) ==> four == word_le(word)
                && word_of_le(four) == word
            &&& bytes == words_be(flat_words(record_views(records))) ==> four == word_be(word)
                && word_of_be(four) == word
        }),
{
    let words = flat_words(record_views(records));
    lemma_flat_words_len(records);
    lemma_flat_words_index(records, i, k);
    let at = RECORD_SIZE * i + 4 * k;
    let j = RECORD_WORDS * i + k;
    assert(at == 4 * j);
    let word = words[j];
    lemma_word_round_trip(word);
    let four = bytes.subrange(at, at + 4);
    if bytes == words_le(words) {
        assert(four =~= word_le(word));
    }
    if bytes == words_be(words) {
        assert(four =~= word_be(word));
    }
}

impl InstanceRecord {
    /// Appends the seven words of the record to `words`.
    pub fn push_words(&self, words: &mut Vec<u32>)
        ensures
            final(words)@ == old(words)@ + self@,
    {
        words.push(self.position[0]);
        words.push(self.position[1]);
        words.push(self.position[2]);
        words.push(self.color[0]);
        words.push(self.color[1]);
        words.push(self.color[2]);
        words.push(self.color[3]);
        assert(words@ =~= old(words)@ + self@);
    }
}

/// Packs records into the bytes of an instance buffer: twenty-eight bytes
/// per record, in order.
pub fn pack_records(records: &Vec<InstanceRecord>) -> (bytes: Vec<u8>)
    ensures
        is_memory_image(bytes@, flat_words(record_views(records@))),
        bytes.len() == RECORD_SIZE * records.len(),
{
    let mut words: Vec<u32> = Vec::new();
    let mut i: usize = 0;
    assert(flat_words(record_views(records@.take(0))) =~= words@);
    while i < records.len()
        invariant
            i <= records.len(),
            words@ == flat_words(record_views(records@.take(i as int))),
        decreases records.len() - i,
    {
        records[i].push_words(&mut words);
        proof {
            let next = records@.take(i + 1);
            assert(record_views(next).drop_last() =~= record_views(records@.take(i as int)));
            assert(record_views(next).last() == records[i as int]@);
        }
        i += 1;
    }
    assert(records@.take(records.len() as int) =~= records@);
    proof {
        lemma_flat_words_len(records@);
    }
    words_as_bytes(&words)
}

} // verus!
