//! A fixed-capacity FIFO byte ring used by the vectored I/O path, and the
//! I/O counters.

use vstd::prelude::*;

verus! {

/// A byte FIFO of fixed capacity stored in a circular array.
pub struct RingBuffer {
    buffer: Vec<u8>,
    capacity: usize,
    read_pos: usize,
    write_pos: usize,
    size: usize,
}

impl RingBuffer {
    /// The internal invariant: positions inside the array and the write
    /// position `size` bytes after the read position, circularly.
    pub closed spec fn wf(&self) -> bool {
        &&& self.buffer@.len() == self.capacity
        &&& self.size <= self.capacity
        &&& if self.capacity == 0 {
            self.read_pos == 0 && self.write_pos == 0
        } else {
            &&& self.read_pos < self.capacity
            &&& self.write_pos < self.capacity
            &&& self.write_pos == (self.read_pos + self.size) % (self.capacity as int)
        }
    }

    /// The number of bytes the ring can hold.
    pub closed spec fn max_len(&self) -> nat {
        self.capacity as nat
    }

    /// The bytes held, oldest first.
    pub closed spec fn contents(&self) -> Seq<u8> {
        Seq::new(
            self.size as nat,
            |i: int| self.buffer@[(self.read_pos + i) % (self.capacity as int)],
        )
    }

    /// An empty ring of `capacity` bytes.
    pub fn new(capacity: usize) -> (r: Self)
        ensures
            r.wf(),
            r.max_len() == capacity,
            r.contents() == Seq::<u8>::empty(),
    {
        let r = RingBuffer { buffer: vec![0u8; capacity], capacity, read_pos: 0, write_pos: 0, size: 0 };
        if capacity > 0 {
            proof { lemma_mod_wrap(0, capacity as int); }
        }
        assert(r.contents() =~= Seq::<u8>::empty());
        r
    }

    /// Appends as much of `data` as fits and returns how many bytes that was:
    /// the smaller of `data.len()` and the free space.
    pub fn write(&mut self, data: &[u8]) -> (n: usize)
        requires
            old(self).wf(),
        ensures
            final(self).wf(),
            final(self).max_len() == old(self).max_len(),
            n as int == if data@.len() < old(self).max_len() - old(self).contents().len() {
                data@.len() as int
            } else {
                old(self).max_len() - old(self).contents().len()
            },
            final(self).contents() == old(self).contents() + data@.take(n as int),
    {
        let available = self.capacity - self.size;
        let to_write = if data.len() < available {
            data.len()
        } else {
            available
        };
        if to_write == 0 {
            assert(data@.take(0) =~= Seq::<u8>::empty());
            assert(self.contents() + data@.take(0) =~= self.contents());
            return 0;
        }
        let ghost old_contents = self.contents();
        let cap = self.capacity;
        let mut i: usize = 0;
        while i < to_write
            invariant
                self.buffer@.len() == cap,
                self.capacity == cap,
                cap > 0,
                self.size + to_write <= cap,
                self.read_pos < cap,
                self.write_pos < cap,
                self.write_pos == (self.read_pos + self.size) % (cap as int),
                i <= to_write,
                to_write <= data@.len(),
                old_contents == Seq::new(
                    self.size as nat,
                    |k: int| self.buffer@[(self.read_pos + k) % (cap as int)],
                ),
                forall|k: int|
                    0 <= k < i ==> #[trigger] self.buffer@[(self.write_pos + k) % (cap as int)]
                        == data@[k],
            decreases to_write - i,
        {
            let ghost before = self.buffer@;
            let idx: usize = if i < cap - self.write_pos {
                self.write_pos + i
            } else {
                i - (cap - self.write_pos)
            };
            proof { lemma_mod_wrap(self.write_pos + i, cap as int); }
            self.buffer.set(idx, data[i]);
            proof {
                assert forall|k: int| 0 <= k < self.size implies #[trigger] self.buffer@[(self.read_pos + k) % (cap as int)]
                    == before[(self.read_pos + k) % (cap as int)] by {
                    lemma_ring_disjoint(self.read_pos as int, self.size as int, i as int, k, cap as int);
                }
                assert forall|k: int| 0 <= k < i + 1 implies #[trigger] self.buffer@[(self.write_pos + k) % (cap as int)]
                    == data@[k] by {
                    if k < i {
                        lemma_mod_distinct(self.write_pos as int, k, i as int, cap as int);
                    }
                }
                assert(old_contents =~= Seq::new(
                    self.size as nat,
                    |k: int| self.buffer@[(self.read_pos + k) % (cap as int)],
                ));
            }
            i = i + 1;
        }
        let new_size = self.size + to_write;
        let new_write = if to_write < cap - self.write_pos {
            self.write_pos + to_write
        } else {
            to_write - (cap - self.write_pos)
        };
        proof {
            lemma_mod_wrap(self.write_pos + to_write, cap as int);
            assert forall|k: int| 0 <= k < new_size implies #[trigger] self.buffer@[(self.read_pos + k) % (cap as int)]
                == (old_contents + data@.take(to_write as int))[k] by {
                if k >= self.size {
                    lemma_mod_shift(self.read_pos as int, self.size as int, k - self.size, cap as int);
                }
            }
            lemma_mod_shift(self.read_pos as int, self.size as int, to_write as int, cap as int);
        }
        self.size = new_size;
        self.write_pos = new_write;
        assert(self.contents() =~= old_contents + data@.take(to_write as int));
        to_write
    }

    /// Moves the oldest bytes into the front of `buf`, as many as fit and are
    /// held, and returns how many; the rest of `buf` is left as it was.
    pub fn read(&mut self, buf: &mut [u8]) -> (n: usize)
        requires
            old(self).wf(),
        ensures
            final(self).wf(),
            final(self).max_len() == old(self).max_len(),
            n as int == if old(buf)@.len() < old(self).contents().len() {
                old(buf)@.len() as int
            } else {
                old(self).contents().len() as int
            },
            final(buf)@ == old(self).contents().take(n as int) + old(buf)@.skip(n as int),
            final(self).contents() == old(self).contents().skip(n as int),
    {
        let to_read = if buf.len() < self.size {
            buf.len()
        } else {
            self.size
        };
        if to_read == 0 {
            assert(buf@ =~= self.contents().take(0) + buf@.skip(0));
            assert(self.contents() =~= self.contents().skip(0));
            return 0;
        }
        let ghost old_contents = self.contents();
        let ghost old_buf = buf@;
        let cap = self.capacity;
        let mut i: usize = 0;
        while i < to_read
            invariant
                self.buffer@.len() == cap,
                self.capacity == cap,
                cap > 0,
                to_read <= self.size,
                self.size <= cap,
                self.read_pos < cap,
                to_read <= buf@.len(),
                buf@.len() == old_buf.len(),
                i <= to_read,
                old_contents == Seq::new(
                    self.size as nat,
                    |k: int| self.buffer@[(self.read_pos + k) % (cap as int)],
                ),
                forall|k: int| 0 <= k < i ==> #[trigger] buf@[k] == old_contents[k],
                forall|k: int| i <= k < buf@.len() ==> #[trigger] buf@[k] == old_buf[k],
            decreases to_read - i,
        {
            let idx: usize = if i < cap - self.read_pos {
                self.read_pos + i
            } else {
                i - (cap - self.read_pos)
            };
            proof { lemma_mod_wrap(self.read_pos + i, cap as int); }
            buf[i] = self.buffer[idx];
            i = i + 1;
        }
        let new_read = if to_read < cap - self.read_pos {
            self.read_pos + to_read
        } else {
            to_read - (cap - self.read_pos)
        };
        proof {
            lemma_mod_wrap(self.read_pos + to_read, cap as int);
            assert forall|k: int| 0 <= k < self.size - to_read implies
                #[trigger] self.buffer@[(new_read + k) % (cap as int)] == old_contents[k + to_read] by {
                lemma_mod_shift(self.read_pos as int, to_read as int, k, cap as int);
            }
            lemma_mod_shift(self.read_pos as int, to_read as int, (self.size - to_read) as int, cap as int);
        }
        self.read_pos = new_read;
        self.size = self.size - to_read;
        assert(self.contents() =~= old_contents.skip(to_read as int));
        assert(buf@ =~= old_contents.take(to_read as int) + old_buf.skip(to_read as int));
        to_read
    }

    /// Number of bytes held.
    pub fn available(&self) -> (n: usize)
        requires
            self.wf(),
        ensures
            n == self.contents().len(),
    {
        self.size
    }

    /// Free space left, in bytes.
    pub fn capacity(&self) -> (n: usize)
        requires
            self.wf(),
        ensures
            n == self.max_len() - self.contents().len(),
    {
        self.capacity - self.size
    }
}

proof fn lemma_mod_wrap(x: int, m: int)
    requires
        m > 0,
        0 <= x < 2 * m,
    ensures
        x % m == if x < m { x } else { x - m },
{
    if x < m {
        vstd::arithmetic::div_mod::lemma_small_mod(x as nat, m as nat);
    } else {
        vstd::arithmetic::div_mod::lemma_small_mod((x - m) as nat, m as nat);
        vstd::arithmetic::div_mod::lemma_mod_sub_multiples_vanish(x, m);
    }
}

proof fn lemma_mod_shift(a: int, s: int, k: int, m: int)
    requires
        m > 0,
        0 <= a < m,
        0 <= s,
        0 <= k,
    ensures
        (((a + s) % m) + k) % m == (a + (s + k)) % m,
{
    vstd::arithmetic::div_mod::lemma_add_mod_noop_right(k, a + s, m);
    assert(k + (a + s) % m == ((a + s) % m) + k);
    assert(k + (a + s) == a + (s + k));
}

proof fn lemma_mod_distinct(w: int, k: int, i: int, m: int)
    requires
        m > 0,
        0 <= k < i < m,
        0 <= w,
    ensures
        (w + k) % m != (w + i) % m,
{
    vstd::arithmetic::div_mod::lemma_fundamental_div_mod(w + k, m);
    vstd::arithmetic::div_mod::lemma_fundamental_div_mod(w + i, m);
    let q1 = (w + k) / m;
    let q2 = (w + i) / m;
    if (w + k) % m == (w + i) % m {
        assert(m * q2 - m * q1 == i - k);
        assert(false) by (nonlinear_arith)
            requires
                m * q2 - m * q1 == i - k,
                0 < i - k < m,
                m > 0,
        {
            if q2 - q1 >= 1 {
                assert(m * (q2 - q1) >= m);
            } else {
                assert(m * (q2 - q1) <= 0);
            }
        }
    }
}

/// The slot written `i` places after the write position is not one of the
/// `size` held slots, while the ring is not full.
proof fn lemma_ring_disjoint(r: int, size: int, i: int, k: int, m: int)
    requires
        m > 0,
        0 <= r < m,
        0 <= k < size,
        0 <= i,
        size + i < m,
    ensures
        (r + k) % m != (((r + size) % m) + i) % m,
{
    lemma_mod_shift(r, size, i, m);
    lemma_mod_distinct(r, k, size + i, m);
}

} // verus!

verus! {

/// I/O counters. Every count wraps around at 2^64, as the atomic adds of
/// the server do.
#[derive(Debug, Default)]
pub struct IOMetrics {
    pub bytes_read: u64,
    pub bytes_written: u64,
    pub messages_read: u64,
    pub messages_written: u64,
    pub read_operations: u64,
    pub write_operations: u64,
    pub vectored_writes: u64,
    pub zero_copy_reads: u64,
}

/// `a + b` modulo 2^64.
pub open spec fn wrap_add_u64(a: u64, b: int) -> u64 {
    ((a + b) % 0x1_0000_0000_0000_0000) as u64
}

impl IOMetrics {
    /// All counters at zero.
    pub fn new() -> (m: Self)
        ensures
            m.bytes_read == 0 && m.bytes_written == 0 && m.messages_read == 0
                && m.messages_written == 0 && m.read_operations == 0 && m.write_operations == 0
                && m.vectored_writes == 0 && m.zero_copy_reads == 0,
    {
        IOMetrics {
            bytes_read: 0,
            bytes_written: 0,
            messages_read: 0,
            messages_written: 0,
            read_operations: 0,
            write_operations: 0,
            vectored_writes: 0,
            zero_copy_reads: 0,
        }
    }

    /// Counts one read of `bytes` bytes.
    pub fn record_read(&mut self, bytes: usize)
        ensures
            final(self).bytes_read == wrap_add_u64(old(self).bytes_read, bytes as int),
            final(self).read_operations == wrap_add_u64(old(self).read_operations, 1),
            final(self).bytes_written == old(self).bytes_written,
            final(self).write_operations == old(self).write_operations,
            final(self).vectored_writes == old(self).vectored_writes,
            final(self).zero_copy_reads == old(self).zero_copy_reads,
            final(self).messages_read == old(self).messages_read,
            final(self).messages_written == old(self).messages_written,
    {
        self.bytes_read = self.bytes_read.wrapping_add(bytes as u64);
        self.read_operations = self.read_operations.wrapping_add(1);
    }

    /// Counts one write of `bytes` bytes.
    pub fn record_write(&mut self, bytes: usize)
        ensures
            final(self).bytes_written == wrap_add_u64(old(self).bytes_written, bytes as int),
            final(self).write_operations == wrap_add_u64(old(self).write_operations, 1),
            final(self).bytes_read == old(self).bytes_read,
            final(self).read_operations == old(self).read_operations,
            final(self).vectored_writes == old(self).vectored_writes,
            final(self).zero_copy_reads == old(self).zero_copy_reads,
            final(self).messages_read == old(self).messages_read,
            final(self).messages_written == old(self).messages_written,
    {
        self.bytes_written = self.bytes_written.wrapping_add(bytes as u64);
        self.write_operations = self.write_operations.wrapping_add(1);
    }

    /// Counts one vectored write.
    pub fn record_vectored_write(&mut self)
        ensures
            final(self).vectored_writes == wrap_add_u64(old(self).vectored_writes, 1),
            final(self).bytes_read == old(self).bytes_read,
            final(self).bytes_written == old(self).bytes_written,
            final(self).read_operations == old(self).read_operations,
            final(self).write_operations == old(self).write_operations,
            final(self).zero_copy_reads == old(self).zero_copy_reads,
            final(self).messages_read == old(self).messages_read,
            final(self).messages_written == old(self).messages_written,
    {
        self.vectored_writes = self.vectored_writes.wrapping_add(1);
    }

    /// Counts one zero-copy read.
    pub fn record_zero_copy_read(&mut self)
        ensures
            final(self).zero_copy_reads == wrap_add_u64(old(self).zero_copy_reads, 1),
            final(self).bytes_read == old(self).bytes_read,
            final(self).bytes_written == old(self).bytes_written,
            final(self).read_operations == old(self).read_operations,
            final(self).write_operations == old(self).write_operations,
            final(self).vectored_writes == old(self).vectored_writes,
            final(self).messages_read == old(self).messages_read,
            final(self).messages_written == old(self).messages_written,
    {
        self.zero_copy_reads = self.zero_copy_reads.wrapping_add(1);
    }
}

} // verus!
