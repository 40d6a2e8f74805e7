//! What the host writes into the small buffers every frame, word by word,
//! and the bytes that those words become on their way to the queue.

use crate::buffers::MAX_PALETTE;
use crate::tables::Tables;
use vstd::prelude::*;

verus! {

/// Words of one metaball record.
pub const RECORD_WORDS: usize = 8;

/// Word of a record that holds the radius; the position takes the three
/// words before it.
pub const RADIUS_WORD: usize = 3;

/// Word of a record that holds the strength.
pub const STRENGTH_WORD: usize = 4;

/// Word of a record that holds the subtracted amount; the two words after
/// it are padding.
pub const SUBTRACT_WORD: usize = 5;

/// Byte `k` of a word, counted from its low end.
pub open spec fn word_byte(w: u32, k: int) -> u8 {
    if k == 0 {
        (w % 256) as u8
    } else if k == 1 {
        ((w / 256) % 256) as u8
    } else if k == 2 {
        ((w / 65536) % 256) as u8
    } else {
        ((w / 16777216) % 256) as u8
    }
}

/// The bytes of a run of words with the low byte of each word first.
pub open spec fn le_bytes(words: Seq<u32>) -> Seq<u8> {
    Seq::new(4 * words.len(), |i: int| word_byte(words[i / 4], i % 4))
}

/// The bytes of a run of words with the high byte of each word first.
pub open spec fn be_bytes(words: Seq<u32>) -> Seq<u8> {
    Seq::new(4 * words.len(), |i: int| word_byte(words[i / 4], 3 - i % 4))
}

/// Whether `bytes` are the words as a machine stores them, in one of the two
/// byte orders.
pub open spec fn stored_as(words: Seq<u32>, bytes: Seq<u8>) -> bool {
    bytes == le_bytes(words) || bytes == be_bytes(words)
}

/// The bytes that a run of words occupies in memory.
///
/// Calls `bytemuck::cast_slice` from `u32` to `u8` and copies what it hands
/// back. The cast cannot fail in this direction: a byte needs no alignment
/// and any number of words is a whole number of bytes. It reinterprets the
/// words in place, so the result is four bytes for each word in the byte
/// order of the machine. The contract claims no more than that: the result
/// is either the low-byte-first or the high-byte-first form.
#[verifier::external_body]
fn cast_words(words: &[u32]) -> (bytes: Vec<u8>)
    ensures
        stored_as(words@, bytes@),
{
    bytemuck::cast_slice::<u32, u8>(words).to_vec()
}

/// The words of the integer uniform of the field pass: the resolution, then
/// the surface type or the number of metaballs, then two unused words.
pub fn field_uniform(resolution: u32, selector: u32) -> (r: [u32; 4])
    ensures
        r@ == seq![resolution, selector, 0u32, 0u32],
{
    let r: [u32; 4] = [resolution, selector, 0, 0];
    proof {
        assert(r@ =~= seq![resolution, selector, 0u32, 0u32]);
    }
    r
}

/// The words of the integer uniform of the extraction pass.
pub fn extract_uniform(resolution: u32, mode: u32, direction: u32, reverse: u32) -> (r: [u32; 4])
    ensures
        r@ == seq![resolution, mode, direction, reverse],
{
    let r: [u32; 4] = [resolution, mode, direction, reverse];
    proof {
        assert(r@ =~= seq![resolution, mode, direction, reverse]);
    }
    r
}

/// The words of the indirect parameter block.
pub fn indirect_block(a: u32, b: u32, c: u32, d: u32) -> (r: [u32; 4])
    ensures
        r@ == seq![a, b, c, d],
{
    let r: [u32; 4] = [a, b, c, d];
    proof {
        assert(r@ =~= seq![a, b, c, d]);
    }
    r
}

/// The bytes of a four-word block as the queue takes them: sixteen bytes,
/// the words in order, each in the byte order of the machine.
pub fn block_bytes(block: &[u32; 4]) -> (r: Vec<u8>)
    ensures
        stored_as(block@, r@),
        r.len() == 16,
{
    cast_words(block.as_slice())
}

/// The bytes of the table buffer: the edge table first and the triangle
/// table behind it, 17408 bytes in all.
pub fn table_bytes(t: &Tables) -> (r: Vec<u8>)
    ensures
        stored_as(t.packed(), r@),
        r.len() == 17408,
{
    let words: Vec<u32> = t.pack();
    cast_words(words.as_slice())
}

/// A metaball as the field pass reads it. Each field holds the bit pattern
/// of a single-precision number.
#[derive(Clone, Copy, Debug, PartialEq, Eq, Structural)]
pub struct MetaballRecord {
    pub x: u32,
    pub y: u32,
    pub z: u32,
    pub radius: u32,
    pub strength: u32,
    pub subtract: u32,
}

/// The eight words of a record: position, radius, strength, subtract and
/// two words of zero padding.
pub open spec fn record_words(r: MetaballRecord) -> Seq<u32> {
    seq![r.x, r.y, r.z, r.radius, r.strength, r.subtract, 0u32, 0u32]
}

/// The words of the record array: the records one after another.
pub open spec fn packed_records(records: Seq<MetaballRecord>) -> Seq<u32> {
    Seq::new(8 * records.len(), |i: int| record_words(records[i / 8])[i % 8])
}

/// The words of the record array.
pub fn pack_metaballs(records: &Vec<MetaballRecord>) -> (r: Vec<u32>)
    requires
        8 * records.len() <= usize::MAX,
    ensures
        r@ == packed_records(records@),
        r.len() == 8 * records.len(),
{
    let mut out: Vec<u32> = Vec::new();
    let mut i: usize = 0;
    while i < records.len()
        invariant
            i <= records.len(),
            8 * records.len() <= usize::MAX,
            out.len() == 8 * i,
            forall|x: int| 0 <= x < out.len() ==> out[x] == packed_records(records@)[x],
        decreases records.len() - i,
    {
        let rec: MetaballRecord = records[i];
        let ghost before = out@;
        out.push(rec.x);
        out.push(rec.y);
        out.push(rec.z);
        out.push(rec.radius);
        out.push(rec.strength);
        out.push(rec.subtract);
        out.push(0);
        out.push(0);
        proof {
            assert forall|x: int| 0 <= x < out.len() implies out[x] == packed_records(records@)[x] by {
                if x >= 8 * i {
                    assert(x / 8 == i && x % 8 == x - 8 * i);
                } else {
                    assert(out[x] == before[x]);
                }
            }
        }
        i = i + 1;
    }
    proof {
        assert(out@ =~= packed_records(records@));
    }
    out
}

/// The bytes of the record array: thirty-two for each metaball.
pub fn metaball_bytes(records: &Vec<MetaballRecord>) -> (r: Vec<u8>)
    requires
        32 * records.len() <= usize::MAX,
    ensures
        stored_as(packed_records(records@), r@),
        r.len() == 32 * records.len(),
{
    let words: Vec<u32> = pack_metaballs(records);
    cast_words(words.as_slice())
}

/// Bit pattern of the single-precision number one: the alpha of every
/// palette colour.
pub const OPAQUE: u32 = 0x3f80_0000;

/// A palette colour. Each field holds the bit pattern of a single-precision
/// number.
#[derive(Clone, Copy, Debug, PartialEq, Eq, Structural)]
pub struct Rgb {
    pub r: u32,
    pub g: u32,
    pub b: u32,
}

/// Why a palette was refused.
#[derive(Clone, Copy, Debug, PartialEq, Eq, Structural)]
pub enum PaletteError {
    /// The palette holds no colour.
    Empty,
    /// The palette holds more colours than `MAX_PALETTE`.
    TooLarge,
}

/// The words of the colormap buffer: four for each colour, the three
/// components and an alpha of one.
pub open spec fn packed_palette(colors: Seq<Rgb>) -> Seq<u32> {
    Seq::new(
        4 * colors.len(),
        |i: int|
            if i % 4 == 0 {
                colors[i / 4].r
            } else if i % 4 == 1 {
                colors[i / 4].g
            } else if i % 4 == 2 {
                colors[i / 4].b
            } else {
                OPAQUE
            },
    )
}

/// The words of the colormap buffer for a palette of one to `MAX_PALETTE`
/// colours.
pub fn pack_palette(colors: &Vec<Rgb>) -> (r: Result<Vec<u32>, PaletteError>)
    ensures
        match r {
            Ok(words) => {
                &&& 1 <= colors.len() <= MAX_PALETTE
                &&& words@ == packed_palette(colors@)
                &&& words.len() == 4 * colors.len()
            },
            Err(PaletteError::Empty) => colors.len() == 0,
            Err(PaletteError::TooLarge) => colors.len() > MAX_PALETTE,
        },
{
    if colors.len() == 0 {
        return Err(PaletteError::Empty);
    }
    if colors.len() > MAX_PALETTE as usize {
        return Err(PaletteError::TooLarge);
    }
    let mut out: Vec<u32> = Vec::new();
    let mut i: usize = 0;
    while i < colors.len()
        invariant
            i <= colors.len(),
            colors.len() <= MAX_PALETTE,
            out.len() == 4 * i,
            forall|x: int| 0 <= x < out.len() ==> out[x] == packed_palette(colors@)[x],
        decreases colors.len() - i,
    {
        let color: Rgb = colors[i];
        let ghost before = out@;
        out.push(color.r);
        out.push(color.g);
        out.push(color.b);
        out.push(OPAQUE);
        proof {
            assert forall|x: int| 0 <= x < out.len() implies out[x] == packed_palette(colors@)[x] by {
                if x >= 4 * i {
                    assert(x / 4 == i && x % 4 == x - 4 * i);
                } else {
                    assert(out[x] == before[x]);
                }
            }
        }
        i = i + 1;
    }
    proof {
        assert(out@ =~= packed_palette(colors@));
    }
    Ok(out)
}

/// The bytes of the colormap buffer: sixteen for each colour.
pub fn palette_bytes(colors: &Vec<Rgb>) -> (r: Result<Vec<u8>, PaletteError>)
    ensures
        match r {
            Ok(bytes) => {
                &&& 1 <= colors.len() <= MAX_PALETTE
                &&& stored_as(packed_palette(colors@), bytes@)
                &&& bytes.len() == 16 * colors.len()
            },
            Err(PaletteError::Empty) => colors.len() == 0,
            Err(PaletteError::TooLarge) => colors.len() > MAX_PALETTE,
        },
{
    match pack_palette(colors) {
        Ok(words) => Ok(cast_words(words.as_slice())),
        Err(e) => Err(e),
    }
}

} // verus!
