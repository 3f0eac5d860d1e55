//! The 16550 UART's software receive ring.
//!
//! Bytes drained from the hardware FIFO go into a ring of `RX_BUF_SIZE`
//! slots (one slot stays empty, so it holds at most `RX_BUF_SIZE - 1`);
//! when it is full, new bytes are dropped. Readers take bytes oldest first.

use vstd::prelude::*;

verus! {

/// COM1 I/O base port.
pub const COM1: u16 = 0x3F8;
/// Slots in the receive ring.
pub const RX_BUF_SIZE: usize = 2048;

/// `after` is the ring's content `before` once `byte` arrived: appended
/// when there is room, dropped when the ring is full.
pub open spec fn received(before: Seq<u8>, after: Seq<u8>, byte: u8) -> bool {
    &&& before.len() < RX_BUF_SIZE - 1 ==> after == before.push(byte)
    &&& before.len() >= RX_BUF_SIZE - 1 ==> after == before
}

/// `after` is the ring's content `before` once a one-byte read returned
/// `r`: the oldest byte, taken out, or nothing from an empty ring.
pub open spec fn took(before: Seq<u8>, after: Seq<u8>, r: Option<u8>) -> bool {
    &&& before.len() == 0 ==> r is None && after == before
    &&& before.len() > 0 ==> r == Some(before[0]) && after == before.drop_first()
}

/// First in, first out: two bytes that arrive at an empty ring come out of
/// the next two reads in the order they arrived, and the ring is empty
/// again.
pub proof fn lemma_first_in_first_out(
    s0: Seq<u8>, s1: Seq<u8>, s2: Seq<u8>, s3: Seq<u8>, s4: Seq<u8>,
    a: u8, b: u8, r1: Option<u8>, r2: Option<u8>,
)
    requires
        s0.len() == 0,
        received(s0, s1, a),
        received(s1, s2, b),
        took(s2, s3, r1),
        took(s3, s4, r2),
    ensures
        r1 == Some(a),
        r2 == Some(b),
        s4.len() == 0,
{
    assert(s2 == seq![a, b]);
    assert(s3 =~= seq![b]);
}

/// A serial port and its receive ring.
pub struct SerialPort {
    port: u16,
    rx_buf: Vec<u8>,
    rx_head: usize,
    rx_tail: usize,
}

impl SerialPort {
    /// The I/O base port.
    pub closed spec fn port_of(&self) -> u16 {
        self.port
    }

    /// The buffered bytes, oldest first.
    pub closed spec fn view(&self) -> Seq<u8> {
        if self.rx_tail <= self.rx_head {
            self.rx_buf@.subrange(self.rx_tail as int, self.rx_head as int)
        } else {
            self.rx_buf@.subrange(self.rx_tail as int, RX_BUF_SIZE as int) + self.rx_buf@.subrange(0, self.rx_head as int)
        }
    }

    /// The ring indices are in range.
    pub closed spec fn wf(&self) -> bool {
        &&& self.rx_buf@.len() == RX_BUF_SIZE
        &&& self.rx_head < RX_BUF_SIZE
        &&& self.rx_tail < RX_BUF_SIZE
    }

    /// A port at I/O base `port` with an empty ring.
    pub fn new(port: u16) -> (r: Self)
        ensures
            r.wf(),
            r.port_of() == port,
            r@ == Seq::<u8>::empty(),
    {
        let mut buf: Vec<u8> = Vec::new();
        let mut i: usize = 0;
        while i < RX_BUF_SIZE
            invariant
                i <= RX_BUF_SIZE,
                buf@.len() == i,
            decreases RX_BUF_SIZE - i,
        {
            buf.push(0u8);
            i += 1;
        }
        let r = SerialPort { port, rx_buf: buf, rx_head: 0, rx_tail: 0 };
        proof {
            assert(r@ =~= Seq::<u8>::empty());
        }
        r
    }

    /// The I/O base port.
    pub fn port(&self) -> (r: u16)
        ensures
            r == self.port_of(),
    {
        self.port
    }

    proof fn lemma_len(&self)
        requires
            self.wf(),
        ensures
            self@.len() == if self.rx_tail <= self.rx_head {
                self.rx_head - self.rx_tail
            } else {
                RX_BUF_SIZE - self.rx_tail + self.rx_head
            },
            self@.len() < RX_BUF_SIZE,
    {
    }

    /// Stores one byte drained from the hardware FIFO; it is dropped when
    /// the ring is full.
    pub fn push_received(&mut self, byte: u8)
        requires
            old(self).wf(),
        ensures
            final(self).wf(),
            final(self).port_of() == old(self).port_of(),
            old(self)@.len() < RX_BUF_SIZE - 1 ==> final(self)@ == old(self)@.push(byte),
            old(self)@.len() == RX_BUF_SIZE - 1 ==> final(self)@ == old(self)@,
            received(old(self)@, final(self)@, byte),
    {
        proof {
            self.lemma_len();
        }
        let next_head = (self.rx_head + 1) % RX_BUF_SIZE;
        if next_head != self.rx_tail {
            self.rx_buf.set(self.rx_head, byte);
            self.rx_head = next_head;
            proof {
                let o = old(self);
                if o.rx_tail <= o.rx_head {
                    if next_head == 0 {
                        assert(self@ =~= o@.push(byte));
                    } else {
                        assert(self@ =~= o@.push(byte));
                    }
                } else {
                    assert(self@ =~= o@.push(byte));
                }
            }
        } else {
            proof {
                self.lemma_len();
            }
        }
    }

    /// Takes the oldest buffered byte, if any.
    pub fn read_byte(&mut self) -> (r: Option<u8>)
        requires
            old(self).wf(),
        ensures
            final(self).wf(),
            final(self).port_of() == old(self).port_of(),
            old(self)@.len() == 0 ==> r is None && final(self)@ == old(self)@,
            old(self)@.len() > 0 ==> r == Some(old(self)@[0]) && final(self)@ == old(self)@.drop_first(),
            took(old(self)@, final(self)@, r),
    {
        proof {
            self.lemma_len();
        }
        if self.rx_tail != self.rx_head {
            let byte = self.rx_buf[self.rx_tail];
            self.rx_tail = (self.rx_tail + 1) % RX_BUF_SIZE;
            proof {
                assert(self@ =~= old(self)@.drop_first());
            }
            Some(byte)
        } else {
            None
        }
    }

    /// Moves buffered bytes into `buf`, oldest first, until `buf` is full or
    /// the ring is empty; returns how many were moved.
    pub fn read_bytes(&mut self, buf: &mut Vec<u8>) -> (count: usize)
        requires
            old(self).wf(),
        ensures
            final(self).wf(),
            final(self).port_of() == old(self).port_of(),
            count == if old(buf)@.len() < old(self)@.len() { old(buf)@.len() } else { old(self)@.len() },
            final(buf)@.len() == old(buf)@.len(),
            final(buf)@.subrange(0, count as int) == old(self)@.subrange(0, count as int),
            final(buf)@.subrange(count as int, old(buf)@.len() as int) == old(buf)@.subrange(count as int, old(buf)@.len() as int),
            final(self)@ == old(self)@.subrange(count as int, old(self)@.len() as int),
    {
        let mut count: usize = 0;
        while count < buf.len() && self.rx_tail != self.rx_head
            invariant
                self.wf(),
                self.port_of() == old(self).port_of(),
                count <= old(buf)@.len(),
                count <= old(self)@.len(),
                buf@.len() == old(buf)@.len(),
                buf@.subrange(0, count as int) == old(self)@.subrange(0, count as int),
                buf@.subrange(count as int, buf@.len() as int) == old(buf)@.subrange(count as int, old(buf)@.len() as int),
                self@ == old(self)@.subrange(count as int, old(self)@.len() as int),
            decreases old(buf)@.len() - count,
        {
            proof {
                self.lemma_len();
            }
            let b = self.rx_buf[self.rx_tail];
            let ghost prev_buf = buf@;
            let ghost prev = self@;
            proof {
                assert(b == self@[0]);
                assert(prev_buf.subrange(count as int, prev_buf.len() as int)[0] == prev_buf[count as int]);
            }
            buf.set(count, b);
            self.rx_tail = (self.rx_tail + 1) % RX_BUF_SIZE;
            proof {
                assert(self@ =~= prev.drop_first());
                assert(buf@.subrange(0, count as int + 1) =~= old(self)@.subrange(0, count as int + 1)) by {
                    assert forall|j: int| 0 <= j < count + 1 implies buf@[j] == old(self)@[j] by {
                        if j < count {
                            assert(buf@[j] == prev_buf.subrange(0, count as int)[j]);
                        } else {
                            assert(prev[0] == old(self)@.subrange(count as int, old(self)@.len() as int)[0]);
                        }
                    }
                }
                assert(buf@.subrange(count as int + 1, buf@.len() as int) =~= old(buf)@.subrange(count as int + 1, old(buf)@.len() as int)) by {
                    assert forall|j: int| count + 1 <= j < buf@.len() implies buf@[j] == old(buf)@[j] by {
                        assert(prev_buf.subrange(count as int, prev_buf.len() as int)[j - count] == old(buf)@.subrange(count as int, old(buf)@.len() as int)[j - count]);
                    }
                }
                assert(self@ =~= old(self)@.subrange(count as int + 1, old(self)@.len() as int));
            }
            count += 1;
        }
        proof {
            self.lemma_len();
        }
        count
    }
}

} // verus!
