//! Byte-stream abstractions.
//!
//! The daemon talks to its peers over reliable byte streams.  Verified code
//! sees a stream through the `ByteSource` and `ByteSink` traits, whose
//! contracts model the unread input and the written output as byte
//! sequences.  The in-memory implementations below are verified against
//! those contracts; the binary wraps its sockets in unverified adapters
//! with the same obligations.

use vstd::prelude::*;

verus! {

/// An ordered source of bytes: a connection, a response body, or a buffer.
///
/// `remaining()` models the bytes not yet handed out.  `always_ready()`
/// marks sources that never fail and never block short of the end; the
/// in-memory source is one, a socket is not.
pub trait ByteSource: Sized {
    open spec fn remaining(&self) -> Seq<u8> {
        Seq::<u8>::empty()
    }

    open spec fn always_ready(&self) -> bool {
        false
    }

    /// Hands out the next bytes of the stream: at least one when any
    /// remain, at most `max`, in order, without skipping.
    fn read_upto(&mut self, max: usize) -> (r: Result<Vec<u8>, String>)
        requires
            max >= 1,
        ensures
            final(self).always_ready() == old(self).always_ready(),
            match r {
                Ok(chunk) => {
                    &&& chunk@.len() <= max
                    &&& chunk@.len() <= old(self).remaining().len()
                    &&& chunk@ == old(self).remaining().take(chunk@.len() as int)
                    &&& final(self).remaining() == old(self).remaining().skip(chunk@.len() as int)
                    &&& (chunk@.len() == 0 ==> old(self).remaining().len() == 0)
                },
                Err(_) => !old(self).always_ready(),
            },
    ;
}

/// An ordered sink of bytes.  `written()` models everything accepted so
/// far; `always_accepts()` marks sinks that never fail, such as the
/// in-memory one.
pub trait ByteSink: Sized {
    open spec fn written(&self) -> Seq<u8> {
        Seq::<u8>::empty()
    }

    open spec fn always_accepts(&self) -> bool {
        false
    }

    /// Accepts all of `data`, in order, after everything written before.
    fn write_all_bytes(&mut self, data: &[u8]) -> (r: Result<(), String>)
        ensures
            final(self).always_accepts() == old(self).always_accepts(),
            match r {
                Ok(()) => final(self).written() == old(self).written() + data@,
                Err(_) => !old(self).always_accepts(),
            },
    ;

    /// Pushes buffered bytes on; changes nothing in the model.
    fn flush_bytes(&mut self) -> (r: Result<(), String>)
        ensures
            final(self).always_accepts() == old(self).always_accepts(),
            r is Ok ==> final(self).written() == old(self).written(),
            old(self).always_accepts() ==> r is Ok,
    ;
}

/// An in-memory byte source over an owned buffer.
pub struct SliceSource {
    data: Vec<u8>,
    pos: usize,
}

impl SliceSource {
    /// The whole buffer becomes the stream.
    pub fn new(data: Vec<u8>) -> (r: SliceSource)
        ensures
            r.remaining() == data@,
            r.always_ready(),
    {
        let r = SliceSource { data, pos: 0 };
        proof {
            assert(r.remaining() =~= r.data@);
        }
        r
    }
}

impl ByteSource for SliceSource {
    closed spec fn remaining(&self) -> Seq<u8> {
        if self.pos <= self.data@.len() {
            self.data@.skip(self.pos as int)
        } else {
            Seq::<u8>::empty()
        }
    }

    closed spec fn always_ready(&self) -> bool {
        true
    }

    fn read_upto(&mut self, max: usize) -> (r: Result<Vec<u8>, String>) {
        let len = self.data.len();
        if self.pos > len {
            let chunk: Vec<u8> = Vec::new();
            proof {
                assert(chunk@ =~= self.remaining().take(0));
                assert(self.remaining() =~= self.remaining().skip(0));
            }
            return Ok(chunk);
        }
        let avail = len - self.pos;
        let n = if max < avail {
            max
        } else {
            avail
        };
        let mut chunk: Vec<u8> = Vec::new();
        let mut j: usize = 0;
        while j < n
            invariant
                j <= n,
                len == self.data@.len(),
                self.pos + n <= len,
                chunk@.len() == j,
                forall|t: int| 0 <= t < j ==> chunk@[t] == self.data@[self.pos + t],
            decreases n - j,
        {
            chunk.push(self.data[self.pos + j]);
            j = j + 1;
        }
        let ghost old_rem = self.remaining();
        proof {
            assert(chunk@ =~= old_rem.take(n as int));
        }
        self.pos = self.pos + n;
        proof {
            assert(self.remaining() =~= old_rem.skip(n as int));
        }
        Ok(chunk)
    }
}

/// An in-memory byte sink that accumulates everything written.
pub struct VecSink {
    buf: Vec<u8>,
}

impl VecSink {
    pub fn new() -> (r: VecSink)
        ensures
            r.written() == Seq::<u8>::empty(),
            r.always_accepts(),
    {
        VecSink { buf: Vec::new() }
    }

    /// Gives the accumulated bytes up.
    pub fn into_bytes(self) -> (r: Vec<u8>)
        ensures
            r@ == self.written(),
    {
        self.buf
    }
}

impl ByteSink for VecSink {
    closed spec fn written(&self) -> Seq<u8> {
        self.buf@
    }

    closed spec fn always_accepts(&self) -> bool {
        true
    }

    fn write_all_bytes(&mut self, data: &[u8]) -> (r: Result<(), String>)
        ensures
            r is Ok,
    {
        self.buf.extend_from_slice(data);
        Ok(())
    }

    fn flush_bytes(&mut self) -> (r: Result<(), String>)
        ensures
            r is Ok,
    {
        Ok(())
    }
}

/// Reads a whole source into memory under a hard cap.
///
/// Bytes arrive in chunks of at most eight kibibytes; before a chunk is
/// kept, the total so far is checked against `cap`.  A stream of exactly
/// `cap` bytes succeeds; one byte more fails.
pub fn read_with_cap<S: ByteSource>(reader: &mut S, cap: usize) -> (r: Result<Vec<u8>, String>)
    ensures
        final(reader).always_ready() == old(reader).always_ready(),
        match r {
            Ok(buf) => buf@ == old(reader).remaining() && buf@.len() <= cap,
            Err(m) => {
                &&& (m@ == "response body exceeds max bytes"@ || "read error: "@.is_prefix_of(m@))
                &&& (old(reader).always_ready() ==> m@ == "response body exceeds max bytes"@)
            },
        },
        old(reader).remaining().len() > cap ==> r is Err,
        old(reader).always_ready() && old(reader).remaining().len() <= cap ==> r is Ok,
{
    let mut buf: Vec<u8> = Vec::new();
    let ghost rem0 = reader.remaining();
    loop
        invariant
            buf@.len() <= cap,
            buf@.len() <= rem0.len(),
            buf@ == rem0.take(buf@.len() as int),
            reader.remaining() == rem0.skip(buf@.len() as int),
            reader.always_ready() == old(reader).always_ready(),
            rem0 == old(reader).remaining(),
        decreases reader.remaining().len(),
    {
        let mut chunk = match reader.read_upto(8192) {
            Ok(c) => c,
            Err(m) => {
                let mut msg = String::new();
                msg.append("read error: ");
                msg.append(m.as_str());
                proof {
                    assert("read error: "@.is_prefix_of(msg@)) by {
                        assert(msg@.take("read error: "@.len() as int) =~= "read error: "@);
                    }
                }
                return Err(msg);
            },
        };
        if chunk.len() == 0 {
            proof {
                assert(rem0 =~= buf@);
            }
            return Ok(buf);
        }
        if chunk.len() > cap || buf.len() > cap - chunk.len() {
            proof {
                assert(rem0.len() >= buf@.len() + chunk@.len() > cap);
            }
            return Err("response body exceeds max bytes".to_owned());
        }
        let ghost pre = buf@;
        let ghost cl = chunk@.len() as int;
        buf.append(&mut chunk);
        proof {
            assert forall|i: int| 0 <= i < pre.len() + cl implies buf@[i] == rem0.take(
                pre.len() + cl,
            )[i] by {
                if i >= pre.len() {
                    assert(buf@[i] == rem0.skip(pre.len() as int).take(cl)[i - pre.len()]);
                    assert(rem0.skip(pre.len() as int)[i - pre.len()] == rem0[i]);
                }
            }
            assert(buf@ =~= rem0.take(buf@.len() as int));
        }
    }
}

} // verus!
