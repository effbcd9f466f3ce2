//! The debug scheme: what is written to it goes out over the serial line,
//! and what comes in over the line can be read from it.

use crate::context::event::Trigger;
use crate::scheme::SchemeId;
use crate::sync::wait_queue::{
    left_after, must_suspend, received_count, received_into, Received, WaitQueue,
};
use syscall::error::Error;
use vstd::prelude::*;

verus! {

/// The error of a scheme operation, as `syscall` defines it. The library
/// hands such values on and never looks inside.
#[verifier::external_type_specification]
#[verifier::external_body]
pub struct ExError(Error);

/// The bits of the flag that announces data to read.
pub const EVENT_READ_BITS: usize = 1;

/// The number of the flag `syscall::flag::EVENT_READ`, read off the flag
/// by its method `bits`. The crate defines the flag as the number 1, which
/// is what the contract says.
#[verifier::external_body]
fn event_read() -> (flags: usize)
    ensures
        flags == EVENT_READ_BITS,
{
    syscall::flag::EVENT_READ.bits()
}

/// The path of the scheme: `debug:`.
pub open spec fn scheme_path() -> Seq<u8> {
    seq![0x64u8, 0x65u8, 0x62u8, 0x75u8, 0x67u8, 0x3au8]
}

/// Number of bytes of the scheme's path that fit into `capacity` bytes.
pub open spec fn path_count(capacity: nat) -> nat {
    if capacity < scheme_path().len() {
        capacity
    } else {
        scheme_path().len()
    }
}

/// An empty input queue.
fn init_input() -> (input: WaitQueue<u8>)
    ensures
        input@ == Seq::<u8>::empty(),
{
    WaitQueue::new()
}

/// The debug scheme. It holds the bytes that came in and were not read
/// yet, and the bytes that were written and still have to be handed to
/// the serial port.
pub struct DebugScheme {
    scheme_id: SchemeId,
    input: WaitQueue<u8>,
    output: Vec<u8>,
}

/// Adds `b` to the input of `scheme` and returns the event that tells its
/// readers so: the scheme's number, file 0, the flag for data to read and
/// the number of bytes that wait now.
pub fn debug_input(scheme: &mut DebugScheme, b: u8) -> (event: Trigger)
    ensures
        final(scheme).input() == old(scheme).input().push(b),
        final(scheme).output() == old(scheme).output(),
        final(scheme).scheme_id() == old(scheme).scheme_id(),
        event == (Trigger {
            scheme: old(scheme).scheme_id(),
            id: 0,
            flags: EVENT_READ_BITS,
            data: (old(scheme).input().len() + 1) as usize,
        }),
{
    let len = scheme.input.send(b);
    Trigger { scheme: scheme.scheme_id, id: 0, flags: event_read(), data: len }
}

impl DebugScheme {
    /// The number under which the scheme is registered.
    pub closed spec fn scheme_id(&self) -> SchemeId {
        self.scheme_id
    }

    /// The bytes that came in and were not read yet, oldest first.
    pub closed spec fn input(&self) -> Seq<u8> {
        self.input@
    }

    /// The bytes that were written and not yet taken for the serial port,
    /// oldest first.
    pub closed spec fn output(&self) -> Seq<u8> {
        self.output@
    }

    /// The scheme as registered under `scheme_id`, with nothing read and
    /// nothing written.
    pub fn new(scheme_id: SchemeId) -> (scheme: DebugScheme)
        ensures
            scheme.scheme_id() == scheme_id,
            scheme.input() == Seq::<u8>::empty(),
            scheme.output() == Seq::<u8>::empty(),
    {
        DebugScheme { scheme_id, input: init_input(), output: Vec::new() }
    }

    /// Opens the scheme: any path, by anybody, gives handle 0.
    pub fn open(&self, _path: &[u8], _flags: usize, _uid: u32, _gid: u32) -> (handle: Result<
        usize,
        Error,
    >)
        ensures
            handle matches Ok(n) && n == 0,
    {
        Ok(0)
    }

    /// Duplicates a handle: the new one is handle 0 as well.
    pub fn dup(&self, _file: usize, _buf: &[u8]) -> (handle: Result<usize, Error>)
        ensures
            handle matches Ok(n) && n == 0,
    {
        Ok(0)
    }

    /// Reads input into `buf`: the oldest bytes, as many as there are and
    /// `buf` has room for. Without input, and with room in `buf`, the
    /// caller is told to suspend until input comes.
    pub fn read(&mut self, _file: usize, buf: &mut [u8]) -> (count: Result<Received, Error>)
        ensures
            final(self).scheme_id() == old(self).scheme_id(),
            final(self).output() == old(self).output(),
            must_suspend(old(self).input(), old(buf)@.len(), true) ==> {
                &&& count matches Ok(received) && received == Received::Suspend
                &&& final(self).input() == old(self).input()
                &&& final(buf)@ == old(buf)@
            },
            !must_suspend(old(self).input(), old(buf)@.len(), true) ==> {
                &&& count matches Ok(received) && received == Received::Count(
                    received_count(old(self).input(), old(buf)@.len()) as usize,
                )
                &&& final(self).input() == left_after(old(self).input(), old(buf)@.len())
                &&& final(buf)@ == received_into(old(self).input(), old(buf)@)
            },
    {
        Ok(self.input.receive_into(buf, true))
    }

    /// Writes `buffer` to the serial line: every byte of it, in order, is
    /// added to the output, and the count is the length of `buffer`.
    pub fn write(&mut self, _file: usize, buffer: &[u8]) -> (count: Result<usize, Error>)
        ensures
            final(self).output() == old(self).output() + buffer@,
            final(self).input() == old(self).input(),
            final(self).scheme_id() == old(self).scheme_id(),
            count matches Ok(n) && n == buffer@.len(),
    {
        let mut i: usize = 0;
        while i < buffer.len()
            invariant
                i <= buffer@.len(),
                self.output@ == old(self).output@ + buffer@.take(i as int),
                self.input == old(self).input,
                self.scheme_id == old(self).scheme_id,
            decreases buffer@.len() - i,
        {
            self.output.push(buffer[i]);
            assert(buffer@.take(i + 1) =~= buffer@.take(i as int).push(buffer@[i as int]));
            i += 1;
        }
        assert(buffer@.take(i as int) =~= buffer@);
        Ok(buffer.len())
    }

    /// Takes the output: the bytes written since the last call, in order.
    /// The caller sends them to the serial port.
    pub fn take_output(&mut self) -> (bytes: Vec<u8>)
        ensures
            bytes@ == old(self).output(),
            final(self).output() == Seq::<u8>::empty(),
            final(self).input() == old(self).input(),
            final(self).scheme_id() == old(self).scheme_id(),
    {
        let mut bytes: Vec<u8> = Vec::new();
        std::mem::swap(&mut self.output, &mut bytes);
        bytes
    }

    /// Subscribes to events: nothing is recorded and the call succeeds.
    pub fn fevent(&self, _file: usize, _flags: usize) -> (token: Result<usize, Error>)
        ensures
            token matches Ok(n) && n == 0,
    {
        Ok(0)
    }

    /// Writes the scheme's path to the front of `buf`, as much of it as
    /// fits, and returns the number of bytes written.
    pub fn fpath(&self, _id: usize, buf: &mut [u8]) -> (count: Result<usize, Error>)
        ensures
            count matches Ok(n) && n == path_count(old(buf)@.len()),
            final(buf)@ == scheme_path().take(path_count(old(buf)@.len()) as int) + old(buf)@.skip(
                path_count(old(buf)@.len()) as int,
            ),
    {
        let mut i: usize = 0;
        let scheme_path: [u8; 6] = [0x64, 0x65, 0x62, 0x75, 0x67, 0x3a];
        assert(scheme_path@ =~= self::scheme_path());
        while i < buf.len() && i < scheme_path.len()
            invariant
                buf@.len() == old(buf)@.len(),
                i <= buf@.len(),
                i <= 6,
                scheme_path@ == self::scheme_path(),
                buf@ == self::scheme_path().take(i as int) + old(buf)@.skip(i as int),
            decreases 6 - i,
        {
            buf[i] = scheme_path[i];
            i += 1;
        }
        Ok(i)
    }

    /// Flushes the file: nothing is buffered behind a handle, so there is
    /// nothing to do.
    pub fn fsync(&self, _file: usize) -> (done: Result<usize, Error>)
        ensures
            done matches Ok(n) && n == 0,
    {
        Ok(0)
    }

    /// Closes the file: a handle holds nothing, so any may be closed, and
    /// more than once.
    pub fn close(&self, _file: usize) -> (done: Result<usize, Error>)
        ensures
            done matches Ok(n) && n == 0,
    {
        Ok(0)
    }
}

} // verus!
