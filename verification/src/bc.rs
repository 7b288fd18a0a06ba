//! The buffered I/O channel of a connection, and adaptors of codecs.
use bytecodec::io::{ReadBuf, StreamState, WriteBuf};
use bytecodec::ByteCount;
use vstd::prelude::*;

verus! {

/// `bytecodec::io::StreamState`: what the last read or write on a stream met.
#[verifier::external_type_specification]
pub struct ExStreamState(StreamState);

/// `bytecodec::ByteCount`: a number of bytes that may be unknown.
#[verifier::external_type_specification]
pub struct ExByteCount(ByteCount);

/// `bytecodec::io::ReadBuf`: the bytes that were read from a stream and wait
/// to be decoded.
#[verifier::external_type_specification]
#[verifier::external_body]
#[verifier::reject_recursive_types(B)]
pub struct ExReadBuf<B>(ReadBuf<B>);

/// `bytecodec::io::WriteBuf`: the bytes that were encoded and wait to be
/// written to a stream.
#[verifier::external_type_specification]
#[verifier::external_body]
#[verifier::reject_recursive_types(B)]
pub struct ExWriteBuf<B>(WriteBuf<B>);

/// The state of the stream that a read buffer was last filled from.
pub uninterp spec fn read_state(buf: ReadBuf<Vec<u8>>) -> StreamState;

/// The bytes in a read buffer that are not decoded yet.
pub uninterp spec fn unread(buf: ReadBuf<Vec<u8>>) -> Seq<u8>;

/// The number of bytes that a read buffer can still take.
pub uninterp spec fn read_room(buf: ReadBuf<Vec<u8>>) -> nat;

/// The state of the stream that a write buffer was last flushed to.
pub uninterp spec fn write_state(buf: WriteBuf<Vec<u8>>) -> StreamState;

/// The bytes in a write buffer that are not written to the stream yet.
pub uninterp spec fn unsent(buf: WriteBuf<Vec<u8>>) -> Seq<u8>;

/// The number of bytes that a write buffer can still take.
pub uninterp spec fn room(buf: WriteBuf<Vec<u8>>) -> nat;

/// `ReadBuf::new`, on a vector of `size` bytes: the buffer is made empty,
/// with the stream state `Normal`, and has room for `size` bytes.
#[verifier::external_body]
fn read_buf_new(size: usize) -> (buf: ReadBuf<Vec<u8>>)
    ensures
        read_state(buf) == StreamState::Normal,
        unread(buf) == Seq::<u8>::empty(),
        read_room(buf) == size,
{
    ReadBuf::new(vec![0; size])
}

/// `WriteBuf::new`, on a vector of `size` bytes: the buffer is made empty,
/// with the stream state `Normal`, and has room for `size` bytes.
#[verifier::external_body]
fn write_buf_new(size: usize) -> (buf: WriteBuf<Vec<u8>>)
    ensures
        write_state(buf) == StreamState::Normal,
        unsent(buf) == Seq::<u8>::empty(),
        room(buf) == size,
{
    WriteBuf::new(vec![0; size])
}

/// `ReadBuf::stream_state`.
#[verifier::external_body]
pub(crate) fn read_buf_state(buf: &ReadBuf<Vec<u8>>) -> (state: StreamState)
    ensures
        state == read_state(*buf),
{
    buf.stream_state()
}

/// `WriteBuf::stream_state`.
#[verifier::external_body]
fn write_buf_state(buf: &WriteBuf<Vec<u8>>) -> (state: StreamState)
    ensures
        state == write_state(*buf),
{
    buf.stream_state()
}

/// `WriteBuf::is_empty`: whether every byte of the buffer is written to the
/// stream. The buffer moves both of its marks back to its start whenever
/// the last byte is written, and `is_empty` tells whether its end mark is there.
#[verifier::external_body]
pub(crate) fn write_buf_is_empty(buf: &WriteBuf<Vec<u8>>) -> (empty: bool)
    ensures
        empty == (unsent(*buf).len() == 0),
{
    buf.is_empty()
}

/// `WriteBuf::is_full`: whether the buffer has no room left.
#[verifier::external_body]
fn write_buf_is_full(buf: &WriteBuf<Vec<u8>>) -> (full: bool)
    ensures
        full == (room(*buf) == 0),
{
    buf.is_full()
}

/// `ReadBuf::len`: the number of bytes that were read and wait to be decoded.
#[verifier::external_body]
pub(crate) fn read_buf_len(buf: &ReadBuf<Vec<u8>>) -> (len: usize)
    ensures
        len == unread(*buf).len(),
{
    buf.len()
}

/// Assigns through `ReadBuf::stream_state_mut`: the buffer keeps its bytes.
#[verifier::external_body]
pub(crate) fn read_buf_set_state(buf: &mut ReadBuf<Vec<u8>>, state: StreamState)
    ensures
        read_state(*final(buf)) == state,
        unread(*final(buf)) == unread(*old(buf)),
{
    *buf.stream_state_mut() = state;
}

/// The buffered I/O channel of a connection: a stream, the bytes that were
/// read from it, and the bytes that are to be written to it.
pub struct BufferedIo<T> {
    stream: T,
    rbuf: ReadBuf<Vec<u8>>,
    wbuf: WriteBuf<Vec<u8>>,
}

impl<T> BufferedIo<T> {
    /// The stream.
    pub closed spec fn stream(self) -> T {
        self.stream
    }

    /// The read buffer.
    pub closed spec fn read_buf(self) -> ReadBuf<Vec<u8>> {
        self.rbuf
    }

    /// The write buffer.
    pub closed spec fn spec_write_buf(self) -> WriteBuf<Vec<u8>> {
        self.wbuf
    }

    /// Whether either side of the stream has met its end.
    pub open spec fn spec_is_eos(self) -> bool {
        read_state(self.read_buf()) == StreamState::Eos || write_state(self.spec_write_buf())
            == StreamState::Eos
    }

    /// Whether no further I/O can make progress now: reading would block,
    /// and nothing is left to write or writing would block too.
    pub open spec fn spec_would_block(self) -> bool {
        read_state(self.read_buf()) == StreamState::WouldBlock && (unsent(
            self.spec_write_buf(),
        ).len() == 0 || write_state(self.spec_write_buf()) == StreamState::WouldBlock)
    }

    /// Whether the writing is stalled: the write buffer is full, and
    /// writing to the stream would block.
    pub open spec fn spec_write_stalled(self) -> bool {
        room(self.spec_write_buf()) == 0 && write_state(self.spec_write_buf())
            == StreamState::WouldBlock
    }

    /// Makes a channel with empty buffers of the given sizes.
    pub fn new(stream: T, read_buf_size: usize, write_buf_size: usize) -> (io: Self)
        ensures
            io.stream() == stream,
            read_state(io.read_buf()) == StreamState::Normal,
            unread(io.read_buf()) == Seq::<u8>::empty(),
            read_room(io.read_buf()) == read_buf_size,
            write_state(io.spec_write_buf()) == StreamState::Normal,
            unsent(io.spec_write_buf()) == Seq::<u8>::empty(),
            room(io.spec_write_buf()) == write_buf_size,
            !io.spec_is_eos(),
            !io.spec_would_block(),
    {
        BufferedIo {
            stream,
            rbuf: read_buf_new(read_buf_size),
            wbuf: write_buf_new(write_buf_size),
        }
    }

    /// Returns `true` if the stream has reached its end, otherwise `false`.
    pub fn is_eos(&self) -> (r: bool)
        ensures
            r == self.spec_is_eos(),
    {
        let read_eos = match read_buf_state(&self.rbuf) {
            StreamState::Eos => true,
            _ => false,
        };
        let write_eos = match write_buf_state(&self.wbuf) {
            StreamState::Eos => true,
            _ => false,
        };
        read_eos || write_eos
    }

    /// Returns `true` if the last I/O on the stream would block, otherwise `false`.
    pub fn would_block(&self) -> (r: bool)
        ensures
            r == self.spec_would_block(),
    {
        let read_blocks = match read_buf_state(&self.rbuf) {
            StreamState::WouldBlock => true,
            _ => false,
        };
        let write_blocks = match write_buf_state(&self.wbuf) {
            StreamState::WouldBlock => true,
            _ => false,
        };
        read_blocks && (write_buf_is_empty(&self.wbuf) || write_blocks)
    }

    /// Returns `true` if the write buffer is full and the last write to the
    /// stream would block, otherwise `false`.
    pub fn write_stalled(&self) -> (r: bool)
        ensures
            r == self.spec_write_stalled(),
    {
        let blocks = match write_buf_state(&self.wbuf) {
            StreamState::WouldBlock => true,
            _ => false,
        };
        write_buf_is_full(&self.wbuf) && blocks
    }

    /// Returns a mutable reference to the read buffer.
    pub fn read_buf_mut(&mut self) -> (buf: &mut ReadBuf<Vec<u8>>)
        ensures
            *buf == old(self).read_buf(),
            final(self).read_buf() == *final(buf),
            final(self).spec_write_buf() == old(self).spec_write_buf(),
            final(self).stream() == old(self).stream(),
    {
        &mut self.rbuf
    }

    /// Returns a mutable reference to the write buffer.
    pub fn write_buf_mut(&mut self) -> (buf: &mut WriteBuf<Vec<u8>>)
        ensures
            *buf == old(self).spec_write_buf(),
            final(self).spec_write_buf() == *final(buf),
            final(self).read_buf() == old(self).read_buf(),
            final(self).stream() == old(self).stream(),
    {
        &mut self.wbuf
    }

    /// Returns mutable references to the stream, the read buffer and the
    /// write buffer, for the I/O between them.
    pub fn parts_mut(&mut self) -> (parts: (&mut T, &mut ReadBuf<Vec<u8>>, &mut WriteBuf<Vec<u8>>))
        ensures
            *parts.0 == old(self).stream(),
            *parts.1 == old(self).read_buf(),
            *parts.2 == old(self).spec_write_buf(),
            final(self).stream() == *final(parts.0),
            final(self).read_buf() == *final(parts.1),
            final(self).spec_write_buf() == *final(parts.2),
    {
        (&mut self.stream, &mut self.rbuf, &mut self.wbuf)
    }

    /// Returns a reference to the stream.
    pub fn stream_ref(&self) -> (stream: &T)
        ensures
            *stream == self.stream(),
    {
        &self.stream
    }

    /// Takes ownership of the channel, and returns the stream.
    pub fn into_stream(self) -> (stream: T)
        ensures
            stream == self.stream(),
    {
        self.stream
    }

    /// Returns a reference to the write buffer.
    pub fn write_buf(&self) -> (buf: &WriteBuf<Vec<u8>>)
        ensures
            *buf == self.spec_write_buf(),
    {
        &self.wbuf
    }
}

/// A decoder that may meet the end of the stream before it has begun an item.
///
/// A connection that is opened and closed without a byte has sent no
/// truncated request: until the decoder has consumed a byte of an item, it is
/// not told that the stream has ended.
pub struct MaybeEos<D> {
    inner: D,
    started: bool,
}

impl<D> MaybeEos<D> {
    /// The inner decoder.
    pub closed spec fn inner(self) -> D {
        self.inner
    }

    /// Whether the inner decoder has consumed a byte of the item that it is decoding.
    pub closed spec fn started(self) -> bool {
        self.started
    }

    /// Wraps `inner`, which has not begun an item.
    pub fn new(inner: D) -> (decoder: Self)
        ensures
            decoder.inner() == inner,
            !decoder.started(),
    {
        MaybeEos { inner, started: false }
    }

    /// Whether the inner decoder is told that the end of the stream is
    /// reached, where it is reached or not: only once an item has begun.
    pub fn tells_end(&self, end_reached: bool) -> (told: bool)
        ensures
            told == (self.started() && end_reached),
    {
        self.started && end_reached
    }

    /// Takes note of what the inner decoder did with the bytes that it was
    /// given: it consumed `size` of them, and `completed` an item or not.
    pub fn decoded(&mut self, size: usize, completed: bool)
        ensures
            final(self).inner() == old(self).inner(),
            final(self).started() == (!completed && (old(self).started() || size > 0)),
    {
        if completed {
            self.started = false;
        } else {
            self.started = self.started || size > 0;
        }
    }

    /// Returns a reference to the inner decoder.
    pub fn inner_ref(&self) -> (inner: &D)
        ensures
            *inner == self.inner(),
    {
        &self.inner
    }

    /// Returns a mutable reference to the inner decoder.
    pub fn inner_mut(&mut self) -> (inner: &mut D)
        ensures
            *inner == old(self).inner(),
            final(self).inner() == *final(inner),
            final(self).started() == old(self).started(),
    {
        &mut self.inner
    }
}

/// An encoder that is given its item when it is first asked for bytes.
pub struct Lazy<E, I> {
    item: Option<I>,
    inner: E,
}

impl<E, I> Lazy<E, I> {
    /// The inner encoder.
    pub closed spec fn inner(self) -> E {
        self.inner
    }

    /// The item that the inner encoder has not been given yet.
    pub closed spec fn item(self) -> Option<I> {
        self.item
    }

    /// Wraps `inner`, which is to encode `item`.
    pub fn new(inner: E, item: I) -> (encoder: Self)
        ensures
            encoder.inner() == inner,
            encoder.item() == Some(item),
    {
        Lazy { item: Some(item), inner }
    }

    /// Takes the item that the inner encoder is to be started with, if it
    /// has not been started.
    pub fn take_item(&mut self) -> (item: Option<I>)
        ensures
            item == old(self).item(),
            final(self).item() is None,
            final(self).inner() == old(self).inner(),
    {
        self.item.take()
    }

    /// Whether nothing is left to encode, where the inner encoder is idle or not.
    pub fn is_idle(&self, inner_is_idle: bool) -> (idle: bool)
        ensures
            idle == (self.item() is None && inner_is_idle),
    {
        self.item.is_none() && inner_is_idle
    }

    /// The number of bytes that the encoding will take, where the inner
    /// encoder asks for `inner`: unknown until the inner encoder has its item.
    pub fn requiring_bytes(&self, inner: ByteCount) -> (count: ByteCount)
        ensures
            count == (if self.item() is Some {
                ByteCount::Unknown
            } else {
                inner
            }),
    {
        if self.item.is_some() {
            ByteCount::Unknown
        } else {
            inner
        }
    }

    /// Returns a reference to the inner encoder.
    pub fn inner_ref(&self) -> (inner: &E)
        ensures
            *inner == self.inner(),
    {
        &self.inner
    }

    /// Returns a mutable reference to the inner encoder.
    pub fn inner_mut(&mut self) -> (inner: &mut E)
        ensures
            *inner == old(self).inner(),
            final(self).inner() == *final(inner),
            final(self).item() == old(self).item(),
    {
        &mut self.inner
    }
}

} // verus!
