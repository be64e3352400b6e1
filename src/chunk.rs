//! A PNG chunk: a big-endian length, a chunk type, the data and a CRC over
//! type and data, in that order on the wire.
use vstd::prelude::*;
use vstd::slice::{slice_subrange, slice_to_vec};
use vstd::utf8::*;
use crate::chunk_type::{ChunkType, valid_tag};
use crate::wire::{
    append_bytes, be32, get_be32, lemma_be32_of_read_be32, lemma_read_be32_of_be32, png_crc,
    push_be32, read_be32, string_from_utf8,
};

verus! {

/// What a chunk holds, field by field.
pub struct ChunkView {
    pub length: u32,
    pub tag: Seq<u8>,
    pub data: Seq<u8>,
    pub crc: u32,
}

/// The chunk with type `tag` and payload `data`: the length counts the data,
/// and the CRC covers the type followed by the data.
pub open spec fn chunk_of(tag: Seq<u8>, data: Seq<u8>) -> ChunkView {
    ChunkView { length: data.len() as u32, tag, data, crc: png_crc(tag + data) }
}

/// The bytes of `c` on the wire.
pub open spec fn frame_of(c: ChunkView) -> Seq<u8> {
    be32(c.length) + c.tag + c.data + be32(c.crc)
}

/// What reading a chunk from the front of `b` gives. Bytes after the frame
/// are not read.
pub open spec fn parse_frame(b: Seq<u8>) -> Result<ChunkView, ChunkError> {
    if b.len() < 12 {
        Err(ChunkError::InvalidArray)
    } else {
        let length = read_be32(b.subrange(0, 4)) as int;
        let tag = b.subrange(4, 8);
        if !valid_tag(tag) || b.len() < 12 + length {
            Err(ChunkError::InvalidArray)
        } else {
            let data = b.subrange(8, 8 + length);
            if read_be32(b.subrange(8 + length, 12 + length)) != png_crc(tag + data) {
                Err(ChunkError::CrcMismatch)
            } else {
                Ok(chunk_of(tag, data))
            }
        }
    }
}

#[derive(Debug, Clone, Copy, PartialEq, Eq)]
pub enum ChunkError {
    /// The bytes are too short for the frame, or the type is not four ASCII letters.
    InvalidArray,
    /// The data is not UTF-8.
    InvalidString,
    /// The stored CRC differs from the CRC of the type and the data.
    CrcMismatch,
}

#[derive(Debug)]
pub struct Chunk {
    length: u32,
    chunk_type: ChunkType,
    data: Vec<u8>,
    crc: u32,
}

impl View for Chunk {
    type V = ChunkView;

    closed spec fn view(&self) -> ChunkView {
        ChunkView {
            length: self.length,
            tag: self.chunk_type@,
            data: self.data@,
            crc: self.crc,
        }
    }
}

impl Chunk {
    #[verifier::type_invariant]
    spec fn inv(self) -> bool {
        &&& self.data@.len() <= u32::MAX
        &&& self.length == self.data@.len()
        &&& self.crc == png_crc(self.chunk_type@ + self.data@)
    }

    /// The chunk of type `chunk_type` that carries `data`. The length of the
    /// data must fit the four bytes of the length field.
    pub fn new(chunk_type: ChunkType, data: Vec<u8>) -> (r: Chunk)
        requires
            data@.len() <= u32::MAX,
        ensures
            r@ == chunk_of(chunk_type@, data@),
    {
        let tag = chunk_type.bytes();
        let mut covered: Vec<u8> = Vec::new();
        append_bytes(&mut covered, tag.as_slice());
        append_bytes(&mut covered, data.as_slice());
        let crc = crc32fast::hash(covered.as_slice());
        Chunk { length: data.len() as u32, chunk_type, data, crc }
    }

    /// Reads the chunk at the front of `bytes`, checking its type and its CRC.
    pub fn try_from(bytes: &[u8]) -> (r: Result<Chunk, ChunkError>)
        ensures
            r matches Ok(c) ==> parse_frame(bytes@) == Ok::<ChunkView, ChunkError>(c@),
            r matches Err(e) ==> parse_frame(bytes@) == Err::<ChunkView, ChunkError>(e),
    {
        if bytes.len() < 12 {
            return Err(ChunkError::InvalidArray);
        }
        let length = get_be32(bytes, 0);
        let tag: [u8; 4] = [bytes[4], bytes[5], bytes[6], bytes[7]];
        assert(tag@ =~= bytes@.subrange(4, 8));
        let chunk_type = match ChunkType::try_from(tag) {
            Ok(t) => t,
            Err(_) => return Err(ChunkError::InvalidArray),
        };
        if bytes.len() - 12 < length as usize {
            return Err(ChunkError::InvalidArray);
        }
        let data_end = 8 + length as usize;
        let data = slice_to_vec(slice_subrange(bytes, 8, data_end));
        let crc = crc32fast::hash(slice_subrange(bytes, 4, data_end));
        assert(bytes@.subrange(4, data_end as int) =~= tag@ + data@);
        let stored = get_be32(bytes, data_end);
        if stored != crc {
            return Err(ChunkError::CrcMismatch);
        }
        Ok(Chunk { length, chunk_type, data, crc })
    }

    /// The number of data bytes.
    pub fn length(&self) -> (r: u32)
        ensures
            r == self@.length,
            r == self@.data.len(),
    {
        proof { use_type_invariant(self); }
        self.length
    }

    pub fn chunk_type(&self) -> (r: &ChunkType)
        ensures
            r@ == self@.tag,
    {
        &self.chunk_type
    }

    pub fn data(&self) -> (r: &[u8])
        ensures
            r@ == self@.data,
    {
        self.data.as_slice()
    }

    /// The CRC of the type followed by the data.
    pub fn crc(&self) -> (r: u32)
        ensures
            r == self@.crc,
            r == png_crc(self@.tag + self@.data),
    {
        proof { use_type_invariant(self); }
        self.crc
    }

    /// The data read as UTF-8 text.
    pub fn data_as_string(&self) -> (r: Result<String, ChunkError>)
        ensures
            r is Ok <==> valid_utf8(self@.data),
            r matches Ok(s) ==> s@ == decode_utf8(self@.data),
            r matches Err(e) ==> e == ChunkError::InvalidString,
    {
        match string_from_utf8(self.data.clone()) {
            Some(s) => Ok(s),
            None => Err(ChunkError::InvalidString),
        }
    }

    /// The bytes of the chunk on the wire: length, type, data and CRC.
    pub fn as_bytes(&self) -> (r: Vec<u8>)
        ensures
            r@ == frame_of(self@),
    {
        let mut out: Vec<u8> = Vec::new();
        push_be32(&mut out, self.length);
        let tag = self.chunk_type.bytes();
        append_bytes(&mut out, tag.as_slice());
        append_bytes(&mut out, self.data.as_slice());
        push_be32(&mut out, self.crc);
        assert(out@ =~= frame_of(self@));
        out
    }
}

/// Reading back the bytes of a chunk gives that chunk: for every chunk type
/// and every payload whose length fits the length field,
/// `parse(serialize(new(tag, data))) == new(tag, data)`.
pub proof fn lemma_parse_of_serialize(tag: Seq<u8>, data: Seq<u8>)
    requires
        valid_tag(tag),
        data.len() <= u32::MAX,
    ensures
        parse_frame(frame_of(chunk_of(tag, data))) == Ok::<ChunkView, ChunkError>(chunk_of(tag, data)),
{
    let c = chunk_of(tag, data);
    let f = frame_of(c);
    let n = data.len() as int;
    lemma_read_be32_of_be32(c.length);
    lemma_read_be32_of_be32(c.crc);
    assert(f.subrange(0, 4) =~= be32(c.length));
    assert(f.subrange(4, 8) =~= tag);
    assert(f.subrange(8, 8 + n) =~= data);
    assert(f.subrange(8 + n, 12 + n) =~= be32(c.crc));
}

/// Writing out a chunk that was read from a whole, well-formed frame with a
/// matching CRC gives that frame back: `serialize(parse(b)) == b`.
pub proof fn lemma_serialize_of_parse(b: Seq<u8>)
    requires
        parse_frame(b) is Ok,
        b.len() == 12 + read_be32(b.subrange(0, 4)),
    ensures
        frame_of(parse_frame(b)->Ok_0) == b,
{
    let c = parse_frame(b)->Ok_0;
    let n = read_be32(b.subrange(0, 4)) as int;
    lemma_be32_of_read_be32(b.subrange(0, 4));
    lemma_be32_of_read_be32(b.subrange(8 + n, 12 + n));
    assert(c.length == n);
    assert(frame_of(c) =~= b);
}

/// The CRC of a new chunk is determined by the bytes of its type and its
/// data: it is the CRC of their concatenation, so equal inputs give equal
/// CRCs.
pub proof fn lemma_crc_determined(t1: Seq<u8>, d1: Seq<u8>, t2: Seq<u8>, d2: Seq<u8>)
    requires
        valid_tag(t1),
        valid_tag(t2),
    ensures
        chunk_of(t1, d1).crc == png_crc(t1 + d1),
        (t1 == t2 && d1 == d2) ==> chunk_of(t1, d1).crc == chunk_of(t2, d2).crc,
{
}

/// Changing one byte of the frame of a chunk never reads back as that chunk.
/// A changed byte of the stored CRC is always reported as a mismatch, and a
/// changed byte of the type or the data is rejected whenever it changes the
/// CRC of type and data.
pub proof fn lemma_single_byte_change_detected(tag: Seq<u8>, data: Seq<u8>, i: int, v: u8)
    requires
        valid_tag(tag),
        data.len() <= u32::MAX,
        0 <= i < frame_of(chunk_of(tag, data)).len(),
        v != frame_of(chunk_of(tag, data))[i],
    ensures
        parse_frame(frame_of(chunk_of(tag, data)).update(i, v))
            != Ok::<ChunkView, ChunkError>(chunk_of(tag, data)),
        i >= 8 + data.len() ==> parse_frame(frame_of(chunk_of(tag, data)).update(i, v))
            == Err::<ChunkView, ChunkError>(ChunkError::CrcMismatch),
        (4 <= i < 8 + data.len() && png_crc(
            frame_of(chunk_of(tag, data)).update(i, v).subrange(4, 8 + data.len() as int),
        ) != png_crc(tag + data)) ==> parse_frame(frame_of(chunk_of(tag, data)).update(i, v)) is Err,
{
    let c = chunk_of(tag, data);
    let f = frame_of(c);
    let g = f.update(i, v);
    let n = data.len() as int;
    lemma_parse_of_serialize(tag, data);
    lemma_read_be32_of_be32(c.length);
    if parse_frame(g) == Ok::<ChunkView, ChunkError>(c) {
        let m = read_be32(g.subrange(0, 4)) as int;
        lemma_be32_of_read_be32(g.subrange(0, 4));
        lemma_be32_of_read_be32(g.subrange(8 + m, 12 + m));
        assert(m == n);
        assert(g.subrange(0, 4) =~= f.subrange(0, 4));
        assert(g.subrange(4, 8) =~= f.subrange(4, 8));
        assert(g.subrange(8, 8 + n) =~= f.subrange(8, 8 + n));
        assert(g.subrange(8 + n, 12 + n) =~= f.subrange(8 + n, 12 + n));
        assert(g[i] == f[i]);
    }
    if i >= 8 + n {
        assert(g.subrange(0, 4) =~= f.subrange(0, 4));
        assert(g.subrange(4, 8) =~= tag);
        assert(g.subrange(8, 8 + n) =~= data);
        lemma_be32_of_read_be32(g.subrange(8 + n, 12 + n));
        lemma_be32_of_read_be32(f.subrange(8 + n, 12 + n));
        assert(g.subrange(8 + n, 12 + n)[i - 8 - n] != f.subrange(8 + n, 12 + n)[i - 8 - n]);
    }
    if 4 <= i < 8 + n {
        assert(g.subrange(0, 4) =~= f.subrange(0, 4));
        assert(g.subrange(8 + n, 12 + n) =~= f.subrange(8 + n, 12 + n));
        assert(g.subrange(4, 8 + n) =~= g.subrange(4, 8) + g.subrange(8, 8 + n));
    }
}

} // verus!
