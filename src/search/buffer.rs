//! Bounding and slicing the bytes of a captured buffer.

use vstd::prelude::*;
use vstd::utf8::*;

verus! {

/// The last `max_size` bytes of `bytes`, or all of them when there are
/// fewer.
pub open spec fn recent_bytes(bytes: Seq<u8>, max_size: nat) -> Seq<u8> {
    if bytes.len() > max_size {
        bytes.subrange(bytes.len() - max_size, bytes.len() as int)
    } else {
        bytes
    }
}

/// `bytes` cut into consecutive pieces of `size` bytes, the last of which
/// may be shorter.
pub open spec fn chunks_of(bytes: Seq<u8>, size: nat) -> Seq<Seq<u8>>
    decreases bytes.len(),
{
    if bytes.len() == 0 || size == 0 {
        Seq::empty()
    } else if bytes.len() <= size {
        seq![bytes]
    } else {
        seq![bytes.subrange(0, size as int)] + chunks_of(
            bytes.subrange(size as int, bytes.len() as int),
            size,
        )
    }
}

/// Keeps a captured buffer within a size bound by dropping its oldest
/// bytes.
pub struct BufferManager {
    max_size: usize,
}

impl BufferManager {
    pub closed spec fn max_size(&self) -> nat {
        self.max_size as nat
    }

    pub fn new(max_size: usize) -> (r: BufferManager)
        ensures
            r.max_size() == max_size,
    {
        BufferManager { max_size }
    }

    /// The most recent bytes of `bytes` that fit the bound.
    pub fn keep_recent(&self, bytes: &[u8]) -> (r: Vec<u8>)
        ensures
            r@ == recent_bytes(bytes@, self.max_size()),
    {
        let start: usize = if bytes.len() > self.max_size {
            bytes.len() - self.max_size
        } else {
            0
        };
        let mut out: Vec<u8> = Vec::with_capacity(bytes.len() - start);
        let mut i: usize = start;
        while i < bytes.len()
            invariant
                start <= i <= bytes@.len(),
                out@ == bytes@.subrange(start as int, i as int),
            decreases bytes@.len() - i,
        {
            out.push(bytes[i]);
            i = i + 1;
            assert(out@ =~= bytes@.subrange(start as int, i as int));
        }
        assert(bytes@.subrange(0, bytes@.len() as int) =~= bytes@);
        out
    }

    /// The UTF-8 bytes of `content`, bounded as by `keep_recent`.
    pub fn load_from_string(&self, content: String) -> (r: Vec<u8>)
        ensures
            r@ == recent_bytes(encode_utf8(content@), self.max_size()),
    {
        self.keep_recent(content.as_str().as_bytes())
    }

    /// `buffer` cut into pieces of `chunk_size` bytes; the last may be
    /// shorter.
    pub fn chunk_buffer<'a>(&self, buffer: &'a [u8], chunk_size: usize) -> (r: Vec<&'a [u8]>)
        requires
            chunk_size > 0,
        ensures
            r@.map_values(|c: &[u8]| c@) == chunks_of(buffer@, chunk_size as nat),
    {
        let mut out: Vec<&'a [u8]> = Vec::new();
        let mut pos: usize = 0;
        assert(buffer@.subrange(0, buffer@.len() as int) =~= buffer@);
        assert(out@.map_values(|c: &[u8]| c@) + chunks_of(buffer@, chunk_size as nat) =~= chunks_of(
            buffer@,
            chunk_size as nat,
        ));
        while pos < buffer.len()
            invariant
                chunk_size > 0,
                pos <= buffer@.len(),
                out@.map_values(|c: &[u8]| c@) + chunks_of(
                    buffer@.subrange(pos as int, buffer@.len() as int),
                    chunk_size as nat,
                ) == chunks_of(buffer@, chunk_size as nat),
            decreases buffer@.len() - pos,
        {
            let ghost rest = buffer@.subrange(pos as int, buffer@.len() as int);
            let ghost prev = out@.map_values(|c: &[u8]| c@);
            let end: usize = if buffer.len() - pos <= chunk_size {
                buffer.len()
            } else {
                pos + chunk_size
            };
            let piece = &buffer[pos..end];
            out.push(piece);
            assert(out@.map_values(|c: &[u8]| c@) =~= prev.push(piece@));
            if end == buffer.len() {
                assert(chunks_of(rest, chunk_size as nat) == seq![rest]);
                assert(buffer@.subrange(end as int, buffer@.len() as int).len() == 0);
                assert(prev.push(piece@) =~= prev + seq![rest]);
            } else {
                assert(rest.subrange(chunk_size as int, rest.len() as int) =~= buffer@.subrange(
                    end as int,
                    buffer@.len() as int,
                ));
                assert(piece@ =~= rest.subrange(0, chunk_size as int));
                assert(prev.push(piece@) + chunks_of(
                    buffer@.subrange(end as int, buffer@.len() as int),
                    chunk_size as nat,
                ) =~= prev + chunks_of(rest, chunk_size as nat));
            }
            pos = end;
        }
        assert(buffer@.subrange(pos as int, buffer@.len() as int).len() == 0);
        assert(out@.map_values(|c: &[u8]| c@) =~= out@.map_values(|c: &[u8]| c@) + Seq::<
            Seq<u8>,
        >::empty());
        out
    }
}

} // verus!
