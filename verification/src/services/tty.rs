//! The terminal line discipline: canonical line editing with echo.

use vstd::prelude::*;
use crate::abi::{EAGAIN, ECHO, ICANON, ISIG, S_IFCHR};
use crate::vfs::ramfs::Stat;

verus! {

/// Terminal settings (the local modes are what the discipline reads).
#[derive(Debug, Clone, Copy, PartialEq, Eq, Structural)]
pub struct Termios {
    pub c_iflag: u32,
    pub c_oflag: u32,
    pub c_cflag: u32,
    pub c_lflag: u32,
    pub c_line: u8,
}

/// Backspace.
pub const BACKSPACE: u8 = 0x08;
/// Delete.
pub const DELETE: u8 = 0x7F;
/// Carriage return.
pub const CR: u8 = 0x0D;
/// Line feed.
pub const LF: u8 = 0x0A;

/// The line being edited and the completed input.
pub struct LineDiscipline {
    /// The current, unfinished line.
    pub input_buffer: Vec<u8>,
    /// Completed input ready for readers.
    pub canonical_queue: Vec<u8>,
    pub termios: Termios,
}

/// The effect of one typed byte on `(line, queue)` in canonical mode, and
/// what is echoed.
pub open spec fn spec_canonical(line: Seq<u8>, queue: Seq<u8>, c: u8, echo: bool) -> (Seq<u8>, Seq<u8>, Option<u8>) {
    if c == BACKSPACE || c == DELETE {
        if line.len() > 0 {
            (line.drop_last(), queue, if echo { Some(BACKSPACE) } else { None })
        } else {
            (line, queue, None)
        }
    } else if c == CR || c == LF {
        (Seq::empty(), queue + line.push(LF), if echo { Some(LF) } else { None })
    } else {
        (line.push(c), queue, if echo { Some(c) } else { None })
    }
}

/// In canonical mode both line endings complete the line: typing CR
/// (0x0D) or LF (0x0A) queues the line being edited followed by one LF,
/// leaves the line empty and echoes an LF when echo is on.
pub proof fn lemma_line_end_completes_line(line: Seq<u8>, queue: Seq<u8>, echo: bool)
    ensures
        spec_canonical(line, queue, 0x0A, echo) == (Seq::<u8>::empty(), queue + line + seq![0x0Au8],
            if echo { Some(0x0Au8) } else { None }),
        spec_canonical(line, queue, 0x0D, echo) == (Seq::<u8>::empty(), queue + line + seq![0x0Au8],
            if echo { Some(0x0Au8) } else { None }),
{
    assert(line.push(LF) =~= line + seq![0x0Au8]);
    assert(queue + line.push(LF) =~= queue + line + seq![0x0Au8]);
}

/// In canonical mode any other byte is appended to the line and the
/// completed input is untouched; an erase removes the last byte typed, so
/// typing such a byte and erasing it gives the line back.
pub proof fn lemma_type_then_erase(line: Seq<u8>, queue: Seq<u8>, c: u8, echo: bool)
    requires
        c != 0x08 && c != 0x7F && c != 0x0D && c != 0x0A,
    ensures
        spec_canonical(line, queue, c, echo).0 == line.push(c),
        spec_canonical(line, queue, c, echo).1 == queue,
        spec_canonical(line.push(c), queue, 0x08, echo).0 == line,
        spec_canonical(line.push(c), queue, 0x7F, echo).0 == line,
        spec_canonical(line.push(c), queue, 0x08, echo).1 == queue,
{
    assert(line.push(c).drop_last() =~= line);
}

/// Echo in canonical mode: nothing with echo off; with echo on, an
/// ordinary byte echoes itself, a line end an LF, and an erase a backspace
/// (0x08) when it removed a byte. Erasing on an empty line changes
/// nothing.
pub proof fn lemma_canonical_echo(line: Seq<u8>, queue: Seq<u8>, c: u8, echo: bool)
    ensures
        !echo ==> spec_canonical(line, queue, c, echo).2 is None,
        echo && c != 0x08 && c != 0x7F && c != 0x0D && c != 0x0A ==> spec_canonical(line, queue, c, echo).2 == Some(c),
        echo && (c == 0x08 || c == 0x7F) ==>
            spec_canonical(line, queue, c, echo).2 == (if line.len() > 0 { Some(0x08u8) } else { None }),
        (c == 0x08 || c == 0x7F) && line.len() == 0 ==>
            spec_canonical(line, queue, c, echo).0 == line && spec_canonical(line, queue, c, echo).1 == queue,
{
}

impl LineDiscipline {
    /// Canonical mode with echo and signals, nothing typed.
    pub fn new() -> (r: Self)
        ensures
            r.input_buffer@ == Seq::<u8>::empty(),
            r.canonical_queue@ == Seq::<u8>::empty(),
            r.termios == (Termios { c_iflag: 0, c_oflag: 0, c_cflag: 0, c_lflag: ECHO | ICANON | ISIG, c_line: 0 }),
    {
        LineDiscipline {
            input_buffer: Vec::new(),
            canonical_queue: Vec::new(),
            termios: Termios { c_iflag: 0, c_oflag: 0, c_cflag: 0, c_lflag: ECHO | ICANON | ISIG, c_line: 0 },
        }
    }

    /// Handles one typed byte and returns the byte to echo, if any. In
    /// canonical mode backspace/delete erase the last byte of the line
    /// (echoing a backspace when one was erased), CR or LF complete the
    /// line (queued with a LF), and other bytes extend the line. Outside
    /// canonical mode every byte is queued at once.
    pub fn push_char(&mut self, c: u8) -> (echoed: Option<u8>)
        ensures
            final(self).termios == old(self).termios,
            ({
                let echo = old(self).termios.c_lflag & ECHO != 0;
                if old(self).termios.c_lflag & ICANON != 0 {
                    let t = spec_canonical(old(self).input_buffer@, old(self).canonical_queue@, c, echo);
                    &&& final(self).input_buffer@ == t.0
                    &&& final(self).canonical_queue@ == t.1
                    &&& echoed == t.2
                } else {
                    &&& final(self).input_buffer@ == old(self).input_buffer@
                    &&& final(self).canonical_queue@ == old(self).canonical_queue@.push(c)
                    &&& echoed == if echo { Some(c) } else { None }
                }
            }),
    {
        let is_canon = (self.termios.c_lflag & ICANON) != 0;
        let is_echo = (self.termios.c_lflag & ECHO) != 0;
        if is_canon {
            if c == BACKSPACE || c == DELETE {
                if self.input_buffer.pop().is_some() && is_echo {
                    Some(BACKSPACE)
                } else {
                    None
                }
            } else if c == CR || c == LF {
                self.input_buffer.push(LF);
                let mut i: usize = 0;
                let ghost q0 = self.canonical_queue@;
                while i < self.input_buffer.len()
                    invariant
                        i <= self.input_buffer@.len(),
                        self.input_buffer@ == old(self).input_buffer@.push(LF),
                        self.canonical_queue@ == q0 + self.input_buffer@.take(i as int),
                        self.termios == old(self).termios,
                    decreases self.input_buffer@.len() - i,
                {
                    let b = self.input_buffer[i];
                    self.canonical_queue.push(b);
                    proof {
                        assert(self.input_buffer@.take(i as int + 1) =~= self.input_buffer@.take(i as int).push(b));
                    }
                    i += 1;
                }
                proof {
                    assert(self.input_buffer@.take(self.input_buffer@.len() as int) =~= self.input_buffer@);
                }
                self.input_buffer.clear();
                if is_echo { Some(LF) } else { None }
            } else {
                self.input_buffer.push(c);
                if is_echo { Some(c) } else { None }
            }
        } else {
            self.canonical_queue.push(c);
            if is_echo { Some(c) } else { None }
        }
    }

    /// A terminal read: `EAGAIN` with no completed input, otherwise moves
    /// `min(buf.len(), queued)` bytes, oldest first, into `buf`.
    pub fn read(&mut self, buf: &mut Vec<u8>) -> (r: Result<usize, i32>)
        ensures
            final(self).input_buffer@ == old(self).input_buffer@,
            final(self).termios == old(self).termios,
            final(buf)@.len() == old(buf)@.len(),
            old(self).canonical_queue@.len() == 0 ==> r == Err::<usize, i32>(EAGAIN)
                && final(self).canonical_queue@ == old(self).canonical_queue@ && final(buf)@ == old(buf)@,
            old(self).canonical_queue@.len() > 0 ==> {
                let q = old(self).canonical_queue@;
                let n = if old(buf)@.len() < q.len() { old(buf)@.len() } else { q.len() };
                &&& r == Ok::<usize, i32>(n as usize)
                &&& final(buf)@ == q.subrange(0, n as int) + old(buf)@.subrange(n as int, old(buf)@.len() as int)
                &&& final(self).canonical_queue@ == q.subrange(n as int, q.len() as int)
            },
    {
        if self.canonical_queue.len() == 0 {
            return Err(EAGAIN);
        }
        let to_read = if buf.len() < self.canonical_queue.len() { buf.len() } else { self.canonical_queue.len() };
        let ghost q = self.canonical_queue@;
        let ghost b0 = buf@;
        let mut k: usize = 0;
        while k < to_read
            invariant
                k <= to_read,
                to_read <= b0.len(),
                to_read <= q.len(),
                self.canonical_queue@ == q.subrange(k as int, q.len() as int),
                buf@ == q.subrange(0, k as int) + b0.subrange(k as int, b0.len() as int),
                self.input_buffer@ == old(self).input_buffer@,
                self.termios == old(self).termios,
            decreases to_read - k,
        {
            let b = self.canonical_queue.remove(0);
            buf.set(k, b);
            proof {
                assert(self.canonical_queue@ =~= q.subrange(k as int + 1, q.len() as int));
                assert(buf@ =~= q.subrange(0, k as int + 1) + b0.subrange(k as int + 1, b0.len() as int));
            }
            k += 1;
        }
        Ok(to_read)
    }
}

/// What `fstat` reports for the terminal: a character device, mode 0620.
pub fn tty_stat() -> (r: Stat)
    ensures
        r == (Stat { st_mode: S_IFCHR | 0o620, st_uid: 0, st_gid: 0, st_size: 0 }),
{
    Stat { st_mode: S_IFCHR | 0o620, st_uid: 0, st_gid: 0, st_size: 0 }
}

} // verus!
