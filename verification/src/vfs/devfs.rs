//! Device nodes: `/dev/null`, `/dev/zero` and the serial console.

use vstd::prelude::*;
use crate::abi::S_IFCHR;
use crate::drivers::serial::SerialPort;
use crate::vfs::ramfs::{FileType, Stat};

verus! {

/// `/dev/null`: reads end at once, writes are swallowed.
pub struct DevNull;

/// `/dev/zero`: reads give zero bytes, writes are swallowed.
pub struct DevZero;

/// `/dev/console` and `/dev/tty`: reads take received serial bytes, writes
/// go to the serial port.
pub struct DevConsole;

/// What a read from the console comes to.
#[derive(Debug, Clone, Copy, PartialEq, Eq, Structural)]
pub enum ConsoleRead {
    /// This many bytes were placed at the front of the buffer.
    Done(usize),
    /// Nothing is buffered yet: wait for input and read again.
    Again,
}

/// Status of a device node: a character device, mode 0666.
pub open spec fn device_stat() -> Stat {
    Stat { st_mode: S_IFCHR | 0o666, st_uid: 0, st_gid: 0, st_size: 0 }
}

impl DevNull {
    /// A character device.
    pub fn file_type(&self) -> (r: FileType)
        ensures
            r == FileType::CharacterDevice,
    {
        FileType::CharacterDevice
    }

    /// Reads nothing.
    pub fn read(&self, buf: &mut Vec<u8>) -> (r: usize)
        ensures
            r == 0,
            final(buf)@ == old(buf)@,
    {
        0
    }

    /// Takes all `len` bytes.
    pub fn write(&self, len: usize) -> (r: Result<usize, i32>)
        ensures
            r == Ok::<usize, i32>(len),
    {
        Ok(len)
    }

    /// See `device_stat`.
    pub fn stat(&self) -> (r: Stat)
        ensures
            r == device_stat(),
    {
        Stat { st_mode: S_IFCHR | 0o666, st_uid: 0, st_gid: 0, st_size: 0 }
    }
}

impl DevZero {
    /// A character device.
    pub fn file_type(&self) -> (r: FileType)
        ensures
            r == FileType::CharacterDevice,
    {
        FileType::CharacterDevice
    }

    /// Fills the whole buffer with zeros and returns its length.
    pub fn read(&self, buf: &mut Vec<u8>) -> (r: usize)
        ensures
            r == old(buf)@.len(),
            final(buf)@ == Seq::new(old(buf)@.len(), |i: int| 0u8),
    {
        let mut i: usize = 0;
        let ghost len = buf@.len();
        while i < buf.len()
            invariant
                buf@.len() == len,
                0 <= i <= len,
                forall|j: int| 0 <= j < i ==> buf@[j] == 0u8,
            decreases len - i,
        {
            buf.set(i, 0u8);
            i += 1;
        }
        proof {
            assert(buf@ =~= Seq::new(len, |i: int| 0u8));
        }
        buf.len()
    }

    /// Takes all `len` bytes.
    pub fn write(&self, len: usize) -> (r: Result<usize, i32>)
        ensures
            r == Ok::<usize, i32>(len),
    {
        Ok(len)
    }

    /// See `device_stat`.
    pub fn stat(&self) -> (r: Stat)
        ensures
            r == device_stat(),
    {
        Stat { st_mode: S_IFCHR | 0o666, st_uid: 0, st_gid: 0, st_size: 0 }
    }
}

impl DevConsole {
    /// A character device.
    pub fn file_type(&self) -> (r: FileType)
        ensures
            r == FileType::CharacterDevice,
    {
        FileType::CharacterDevice
    }

    /// Reads the oldest received bytes that fit into the front of `buf`. An
    /// empty buffer reads nothing at once; with nothing received the reader
    /// waits (`Again`).
    pub fn read(&self, buf: &mut Vec<u8>, serial: &mut SerialPort) -> (r: ConsoleRead)
        requires
            old(serial).wf(),
        ensures
            final(serial).wf(),
            final(serial).port_of() == old(serial).port_of(),
            final(buf)@.len() == old(buf)@.len(),
            ({
                let n = if old(buf)@.len() < old(serial)@.len() { old(buf)@.len() } else { old(serial)@.len() };
                &&& old(buf)@.len() > 0 && n == 0 ==> r == ConsoleRead::Again
                &&& !(old(buf)@.len() > 0 && n == 0) ==> r == ConsoleRead::Done(n as usize)
                &&& final(buf)@.subrange(0, n as int) == old(serial)@.subrange(0, n as int)
                &&& final(buf)@.subrange(n as int, old(buf)@.len() as int) == old(buf)@.subrange(n as int, old(buf)@.len() as int)
                &&& final(serial)@ == old(serial)@.subrange(n as int, old(serial)@.len() as int)
            }),
    {
        let empty = buf.len() == 0;
        let n = serial.read_bytes(buf);
        if n > 0 || empty {
            ConsoleRead::Done(n)
        } else {
            ConsoleRead::Again
        }
    }

    /// Takes all `len` bytes (they go to the serial port).
    pub fn write(&self, len: usize) -> (r: Result<usize, i32>)
        ensures
            r == Ok::<usize, i32>(len),
    {
        Ok(len)
    }

    /// See `device_stat`.
    pub fn stat(&self) -> (r: Stat)
        ensures
            r == device_stat(),
    {
        Stat { st_mode: S_IFCHR | 0o666, st_uid: 0, st_gid: 0, st_size: 0 }
    }
}

} // verus!
