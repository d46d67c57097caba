//! The length-prefixed frame codec: a four-byte big-endian length, then
//! exactly that many payload bytes.

use vstd::prelude::*;
use vstd::arithmetic::div_mod::{lemma_div_denominator, lemma_fundamental_div_mod};
use crate::stream::{ByteSink, ByteSource};

verus! {

/// The four big-endian bytes of a 32-bit length.
pub open spec fn be32_of(n: u32) -> Seq<u8> {
    seq![
        (n / 0x1000000) as u8,
        ((n / 0x10000) % 0x100) as u8,
        ((n / 0x100) % 0x100) as u8,
        (n % 0x100) as u8,
    ]
}

/// The 32-bit value of four big-endian bytes.
pub open spec fn u32_from_be4(b: Seq<u8>) -> u32
    recommends
        b.len() == 4,
{
    ((b[0] as int) * 0x1000000 + (b[1] as int) * 0x10000 + (b[2] as int) * 0x100 + (
    b[3] as int)) as u32
}

/// Decoding the encoding of a length gives the length back.
pub proof fn lemma_be32_round_trip(n: u32)
    ensures
        u32_from_be4(be32_of(n)) == n,
{
    let x = n as int;
    lemma_fundamental_div_mod(x, 0x100);
    lemma_fundamental_div_mod(x / 0x100, 0x100);
    lemma_fundamental_div_mod(x / 0x10000, 0x100);
    lemma_div_denominator(x, 0x100, 0x100);
    lemma_div_denominator(x, 0x10000, 0x100);
    lemma_div_denominator(x / 0x100, 0x100, 0x100);
}

/// A failure while reading one frame.
#[derive(Debug)]
pub enum FrameError {
    /// The stream ended cleanly: not one byte of a next frame arrived.
    EndOfStream,
    /// The stream broke mid-frame, or the source itself failed.
    Io(String),
}

/// Outcome of an exact-length read.
enum ExactError {
    /// End of stream before the first requested byte.
    CleanEof,
    /// Some requested bytes arrived, then the stream ended.
    Truncated,
    /// The source reported a failure of its own.
    Source(String),
}

/// Collects exactly `n` bytes from the source.
fn read_exact_bytes<S: ByteSource>(src: &mut S, n: usize) -> (r: Result<Vec<u8>, ExactError>)
    ensures
        final(src).always_ready() == old(src).always_ready(),
        match r {
            Ok(buf) => {
                &&& buf@.len() == n
                &&& n <= old(src).remaining().len()
                &&& buf@ == old(src).remaining().take(n as int)
                &&& final(src).remaining() == old(src).remaining().skip(n as int)
            },
            Err(ExactError::CleanEof) => old(src).remaining().len() == 0 && n > 0,
            Err(ExactError::Truncated) => 0 < old(src).remaining().len() < n,
            Err(ExactError::Source(_)) => !old(src).always_ready(),
        },
{
    let mut buf: Vec<u8> = Vec::new();
    let ghost rem0 = src.remaining();
    loop
        invariant
            buf@.len() <= n,
            buf@.len() <= rem0.len(),
            buf@ == rem0.take(buf@.len() as int),
            src.remaining() == rem0.skip(buf@.len() as int),
            src.always_ready() == old(src).always_ready(),
            rem0 == old(src).remaining(),
        decreases n - buf@.len(),
    {
        if buf.len() == n {
            return Ok(buf);
        }
        let mut chunk = match src.read_upto(n - buf.len()) {
            Ok(c) => c,
            Err(m) => {
                return Err(ExactError::Source(m));
            },
        };
        if chunk.len() == 0 {
            proof {
                assert(rem0.len() == buf@.len());
            }
            if buf.len() == 0 {
                return Err(ExactError::CleanEof);
            }
            return Err(ExactError::Truncated);
        }
        let ghost pre = buf@;
        let ghost cl = chunk@.len() as int;
        buf.append(&mut chunk);
        proof {
            assert forall|i: int| 0 <= i < pre.len() + cl implies buf@[i] == rem0.take(
                pre.len() + cl,
            )[i] by {
                if i >= pre.len() {
                    assert(buf@[i] == rem0.skip(pre.len() as int).take(cl)[i - pre.len()]);
                    assert(rem0.skip(pre.len() as int)[i - pre.len()] == rem0[i]);
                }
            }
            assert(buf@ =~= rem0.take(buf@.len() as int));
        }
    }
}

/// Reads one length-prefixed frame.
///
/// A stream that ends before the first length byte is a clean shutdown and
/// reports `EndOfStream`; a partial length or a partial body is an I/O
/// failure.
pub fn read_frame<S: ByteSource>(src: &mut S) -> (r: Result<Vec<u8>, FrameError>)
    ensures
        final(src).always_ready() == old(src).always_ready(),
        match r {
            Ok(payload) => {
                let rem0 = old(src).remaining();
                &&& rem0.len() >= 4
                &&& payload@.len() == u32_from_be4(rem0.take(4))
                &&& 4 + payload@.len() <= rem0.len()
                &&& payload@ == rem0.skip(4).take(payload@.len() as int)
                &&& final(src).remaining() == rem0.skip(4 + payload@.len() as int)
            },
            Err(FrameError::EndOfStream) => old(src).remaining().len() == 0,
            Err(FrameError::Io(_)) => true,
        },
        old(src).always_ready() && old(src).remaining().len() >= 4 + u32_from_be4(
            old(src).remaining().take(4),
        ) ==> r is Ok,
        old(src).always_ready() && old(src).remaining().len() == 0 ==> r matches Err(
            FrameError::EndOfStream,
        ),
{
    let ghost rem0 = src.remaining();
    let header = match read_exact_bytes(src, 4) {
        Ok(h) => h,
        Err(ExactError::CleanEof) => {
            return Err(FrameError::EndOfStream);
        },
        Err(ExactError::Truncated) => {
            return Err(FrameError::Io("stream ended inside a frame length".to_owned()));
        },
        Err(ExactError::Source(m)) => {
            return Err(FrameError::Io(m));
        },
    };
    let len32: u32 = ((header[0] as u32) * 0x1000000) + ((header[1] as u32) * 0x10000) + ((
    header[2] as u32) * 0x100) + (header[3] as u32);
    proof {
        assert(header@[0] == rem0.take(4)[0]);
        assert(header@[1] == rem0.take(4)[1]);
        assert(header@[2] == rem0.take(4)[2]);
        assert(header@[3] == rem0.take(4)[3]);
        assert(len32 == u32_from_be4(rem0.take(4)));
    }
    let len: usize = len32 as usize;
    let payload = match read_exact_bytes(src, len) {
        Ok(p) => p,
        Err(ExactError::CleanEof) => {
            return Err(FrameError::Io("stream ended inside a frame body".to_owned()));
        },
        Err(ExactError::Truncated) => {
            return Err(FrameError::Io("stream ended inside a frame body".to_owned()));
        },
        Err(ExactError::Source(m)) => {
            return Err(FrameError::Io(m));
        },
    };
    proof {
        assert(src.remaining() =~= rem0.skip(4 + len as int));
    }
    Ok(payload)
}

/// Writes one length-prefixed frame: the four length bytes, the payload,
/// then a flush.
pub fn write_frame<S: ByteSink>(sink: &mut S, data: &[u8]) -> (r: Result<(), String>)
    requires
        data@.len() <= u32::MAX,
    ensures
        final(sink).always_accepts() == old(sink).always_accepts(),
        r is Ok ==> final(sink).written() == old(sink).written() + be32_of(data@.len() as u32)
            + data@,
        old(sink).always_accepts() ==> r is Ok,
{
    let n: u32 = data.len() as u32;
    let mut header: Vec<u8> = Vec::new();
    header.push((n / 0x1000000) as u8);
    header.push(((n / 0x10000) % 0x100) as u8);
    header.push(((n / 0x100) % 0x100) as u8);
    header.push((n % 0x100) as u8);
    proof {
        assert(header@ =~= be32_of(n));
    }
    match sink.write_all_bytes(header.as_slice()) {
        Ok(()) => (),
        Err(m) => {
            return Err(m);
        },
    }
    match sink.write_all_bytes(data) {
        Ok(()) => (),
        Err(m) => {
            return Err(m);
        },
    }
    match sink.flush_bytes() {
        Ok(()) => (),
        Err(m) => {
            return Err(m);
        },
    }
    Ok(())
}

} // verus!
