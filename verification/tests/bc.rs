use bytecodec::io::StreamState;
use bytecodec::ByteCount;
use fibers_http_server::bc::{BufferedIo, Lazy, MaybeEos};
use std::io::{self, Read, Write};

/// A stream that has `input` to read, and then blocks or ends.
struct Scripted {
    input: Vec<u8>,
    ends: bool,
    takes: bool,
    written: Vec<u8>,
}

impl Read for Scripted {
    fn read(&mut self, buf: &mut [u8]) -> io::Result<usize> {
        if self.input.is_empty() {
            if self.ends {
                return Ok(0);
            }
            return Err(io::Error::new(io::ErrorKind::WouldBlock, "no input"));
        }
        let n = buf.len().min(self.input.len());
        buf[..n].copy_from_slice(&self.input[..n]);
        self.input.drain(..n);
        Ok(n)
    }
}

impl Write for Scripted {
    fn write(&mut self, buf: &[u8]) -> io::Result<usize> {
        if !self.takes {
            return Err(io::Error::new(io::ErrorKind::WouldBlock, "no room"));
        }
        self.written.extend_from_slice(buf);
        Ok(buf.len())
    }

    fn flush(&mut self) -> io::Result<()> {
        Ok(())
    }
}

fn scripted(input: &[u8], ends: bool, takes: bool) -> Scripted {
    Scripted { input: input.to_vec(), ends, takes, written: Vec::new() }
}

fn execute_io(io: &mut BufferedIo<Scripted>) {
    let (stream, rbuf, wbuf) = io.parts_mut();
    rbuf.fill(&mut *stream).unwrap();
    wbuf.flush(&mut *stream).unwrap();
}

#[test]
fn new_channel_is_neither_at_its_end_nor_blocked() {
    let io = BufferedIo::new(scripted(b"", false, true), 16, 32);
    assert!(!io.is_eos());
    assert!(!io.would_block());
    assert!(io.write_buf().is_empty());
    assert_eq!(io.write_buf().room(), 32);
    assert_eq!(io.write_buf().stream_state(), StreamState::Normal);
    assert!(io.stream_ref().input.is_empty());
}

#[test]
fn buffers_have_the_sizes_asked_for() {
    let mut io = BufferedIo::new(scripted(b"", false, true), 16, 32);
    assert_eq!(io.read_buf_mut().capacity(), 16);
    assert_eq!(io.read_buf_mut().len(), 0);
    assert_eq!(io.write_buf_mut().capacity(), 32);
    let empty = BufferedIo::new(scripted(b"", false, true), 0, 0);
    assert_eq!(empty.write_buf().room(), 0);
    assert!(empty.into_stream().takes);
}

#[test]
fn channel_would_block_when_reading_blocks_and_nothing_is_to_write() {
    let mut io = BufferedIo::new(scripted(b"abc", false, true), 16, 16);
    execute_io(&mut io);
    assert_eq!(io.read_buf_mut().len(), 3);
    assert_eq!(io.read_buf_mut().stream_state(), StreamState::WouldBlock);
    assert!(io.would_block());
    assert!(!io.is_eos());
}

#[test]
fn channel_does_not_block_while_bytes_can_be_written() {
    let mut io = BufferedIo::new(scripted(b"", false, true), 16, 16);
    execute_io(&mut io);
    assert!(io.would_block());
    io.write_buf_mut().write_all(b"xyz").unwrap();
    // reading would block, but the write buffer holds bytes and the stream took the last ones
    assert!(!io.would_block());
    execute_io(&mut io);
    assert!(io.write_buf().is_empty());
    assert!(io.would_block());
    assert_eq!(io.stream_ref().written, b"xyz".to_vec());
}

#[test]
fn channel_would_block_when_both_sides_block() {
    let mut io = BufferedIo::new(scripted(b"", false, false), 16, 16);
    io.write_buf_mut().write_all(b"xyz").unwrap();
    execute_io(&mut io);
    assert_eq!(io.write_buf().stream_state(), StreamState::WouldBlock);
    assert!(!io.write_buf().is_empty());
    assert!(io.would_block());
    assert!(!io.is_eos());
}

#[test]
fn writing_is_stalled_when_the_buffer_is_full_and_the_stream_blocks() {
    let mut io = BufferedIo::new(scripted(b"", false, false), 16, 4);
    assert!(!io.write_stalled());
    io.write_buf_mut().write_all(b"wx").unwrap();
    execute_io(&mut io);
    // the stream blocks, but the buffer has room
    assert_eq!(io.write_buf().stream_state(), StreamState::WouldBlock);
    assert!(!io.write_stalled());
    io.write_buf_mut().write_all(b"yz").unwrap();
    assert!(io.write_buf().is_full());
    assert!(io.write_stalled());
    // a full buffer whose bytes the stream takes is not stalled
    let mut io = BufferedIo::new(scripted(b"", false, true), 16, 4);
    io.write_buf_mut().write_all(b"wxyz").unwrap();
    assert!(io.write_buf().is_full());
    assert!(!io.write_stalled());
    // a buffer without room is full from the start
    let mut none = BufferedIo::new(scripted(b"", false, false), 16, 0);
    assert!(!none.write_stalled());
    execute_io(&mut none);
    assert!(!none.write_stalled());
}

#[test]
fn channel_does_not_block_while_the_read_buffer_is_full() {
    let mut io = BufferedIo::new(scripted(b"abcdef", false, true), 4, 16);
    execute_io(&mut io);
    assert_eq!(io.read_buf_mut().len(), 4);
    assert_eq!(io.read_buf_mut().stream_state(), StreamState::Normal);
    assert!(!io.would_block());
}

#[test]
fn channel_is_at_its_end_when_the_stream_is() {
    let mut io = BufferedIo::new(scripted(b"abc", true, true), 16, 16);
    execute_io(&mut io);
    assert_eq!(io.read_buf_mut().stream_state(), StreamState::Eos);
    assert!(io.is_eos());
    assert!(!io.would_block());
}

#[test]
fn maybe_eos_hides_the_end_until_an_item_has_begun() {
    let mut decoder = MaybeEos::new(7u8);
    assert_eq!(*decoder.inner_ref(), 7);
    // not started: the end is hidden
    assert!(!decoder.tells_end(true));
    assert!(!decoder.tells_end(false));

    // no byte consumed: still not started
    decoder.decoded(0, false);
    assert!(!decoder.tells_end(true));

    // a byte consumed: started, the end is told
    decoder.decoded(1, false);
    assert!(decoder.tells_end(true));
    assert!(!decoder.tells_end(false));
    decoder.decoded(0, false);
    assert!(decoder.tells_end(true));

    // an item completed: the next one has not begun
    decoder.decoded(3, true);
    assert!(!decoder.tells_end(true));
    *decoder.inner_mut() = 9;
    assert_eq!(*decoder.inner_ref(), 9);
}

#[test]
fn lazy_gives_its_item_once() {
    let mut encoder = Lazy::new("inner", 42u32);
    assert!(!encoder.is_idle(true));
    assert!(!encoder.is_idle(false));
    assert_eq!(encoder.requiring_bytes(ByteCount::Finite(3)), ByteCount::Unknown);
    assert_eq!(encoder.take_item(), Some(42));
    assert_eq!(encoder.take_item(), None);
    assert!(encoder.is_idle(true));
    assert!(!encoder.is_idle(false));
    assert_eq!(encoder.requiring_bytes(ByteCount::Finite(3)), ByteCount::Finite(3));
    assert_eq!(encoder.requiring_bytes(ByteCount::Infinite), ByteCount::Infinite);
    assert_eq!(*encoder.inner_mut(), "inner");
}
