use vstd::prelude::*;

verus! {

/// Number of bytes in the storage of a [`RingByteBuffer`].
pub const TEST_BUFFER_SIZE: usize = 8192;

/// A fixed-size ring of bytes with a read cursor and a write cursor.
///
/// The bytes from the read cursor up to the write cursor (going round the
/// end of the storage) are the queued bytes; they are the buffer's view.
pub struct RingByteBuffer {
    buffer: [u8; TEST_BUFFER_SIZE],
    write: usize,
    read: usize,
}

/// Number of queued bytes for the given cursors.
pub open spec fn queued_len(write: int, read: int) -> int {
    if write >= read {
        write - read
    } else {
        TEST_BUFFER_SIZE - read + write
    }
}

/// End (exclusive) of the free slot that starts at the write cursor.
pub open spec fn free_slot_end(write: int, read: int) -> int {
    if write >= read {
        TEST_BUFFER_SIZE as int
    } else {
        read - 1
    }
}

/// How many bytes `write` can store before its free slot runs dry, for a read
/// cursor other than 0 (with the read cursor at 0, `write` never runs dry).
pub open spec fn write_room(write: int, read: int) -> int {
    if write >= read {
        TEST_BUFFER_SIZE - write + read - 1
    } else {
        read - 1 - write
    }
}

/// What `queue_size` computes from the cursors.
pub open spec fn queue_size_formula(write: int, read: int) -> int {
    if write >= read {
        write - read
    } else {
        TEST_BUFFER_SIZE - (read - write) - 1
    }
}

impl View for RingByteBuffer {
    type V = Seq<u8>;

    closed spec fn view(&self) -> Seq<u8> {
        Seq::new(
            queued_len(self.write as int, self.read as int) as nat,
            |i: int| self.buffer@[(self.read + i) % (TEST_BUFFER_SIZE as int)],
        )
    }
}

proof fn lemma_mod_shift(a: int, b: int)
    requires
        a >= 0,
        b >= 0,
    ensures
        ((a % (TEST_BUFFER_SIZE as int)) + b) % (TEST_BUFFER_SIZE as int) == (a + b) % (
        TEST_BUFFER_SIZE as int),
{
    vstd::arithmetic::div_mod::lemma_add_mod_noop(a, b, TEST_BUFFER_SIZE as int);
    vstd::arithmetic::div_mod::lemma_mod_twice(b, TEST_BUFFER_SIZE as int);
    vstd::arithmetic::div_mod::lemma_add_mod_noop(a % (TEST_BUFFER_SIZE as int), b, TEST_BUFFER_SIZE as int);
    vstd::arithmetic::div_mod::lemma_mod_twice(a, TEST_BUFFER_SIZE as int);
}

proof fn lemma_mod_distinct(a: int, b: int)
    requires
        a >= 0,
        a < b,
        b - a < TEST_BUFFER_SIZE,
    ensures
        a % (TEST_BUFFER_SIZE as int) != b % (TEST_BUFFER_SIZE as int),
{
    vstd::arithmetic::div_mod::lemma_fundamental_div_mod(a, TEST_BUFFER_SIZE as int);
    vstd::arithmetic::div_mod::lemma_fundamental_div_mod(b, TEST_BUFFER_SIZE as int);
    if a % (TEST_BUFFER_SIZE as int) == b % (TEST_BUFFER_SIZE as int) {
        let qa = a / (TEST_BUFFER_SIZE as int);
        let qb = b / (TEST_BUFFER_SIZE as int);
        assert((qb - qa) * (TEST_BUFFER_SIZE as int) == b - a) by (nonlinear_arith)
            requires
                a == (TEST_BUFFER_SIZE as int) * qa + a % (TEST_BUFFER_SIZE as int),
                b == (TEST_BUFFER_SIZE as int) * qb + b % (TEST_BUFFER_SIZE as int),
                a % (TEST_BUFFER_SIZE as int) == b % (TEST_BUFFER_SIZE as int),
        ;
        assert(false) by (nonlinear_arith)
            requires
                (qb - qa) * 8192 == b - a,
                0 < b - a < 8192,
        ;
    }
}

proof fn lemma_small_mod(a: int)
    requires
        0 <= a < 2 * TEST_BUFFER_SIZE,
    ensures
        a % (TEST_BUFFER_SIZE as int) == if a < TEST_BUFFER_SIZE {
            a
        } else {
            a - TEST_BUFFER_SIZE
        },
{
    if a < TEST_BUFFER_SIZE {
        vstd::arithmetic::div_mod::lemma_small_mod(a as nat, TEST_BUFFER_SIZE as nat);
    } else {
        vstd::arithmetic::div_mod::lemma_small_mod((a - TEST_BUFFER_SIZE) as nat, TEST_BUFFER_SIZE as nat);
        vstd::arithmetic::div_mod::lemma_mod_sub_multiples_vanish(a, TEST_BUFFER_SIZE as int);
    }
}

impl RingByteBuffer {
    /// Position of the write cursor.
    pub closed spec fn write_pos(&self) -> int {
        self.write as int
    }

    /// Position of the read cursor.
    pub closed spec fn read_pos(&self) -> int {
        self.read as int
    }

    /// All bytes of the storage, queued or not.
    pub closed spec fn storage(&self) -> Seq<u8> {
        self.buffer@
    }

    /// Both cursors lie inside the storage of `TEST_BUFFER_SIZE` bytes.
    pub open spec fn wf(&self) -> bool {
        &&& 0 <= self.write_pos() < TEST_BUFFER_SIZE
        &&& 0 <= self.read_pos() < TEST_BUFFER_SIZE
        &&& self.storage().len() == TEST_BUFFER_SIZE
    }

    /// The buffer after `consume(n)`.
    pub closed spec fn consumed(&self, n: int) -> RingByteBuffer {
        RingByteBuffer {
            buffer: self.buffer,
            write: self.write,
            read: ((self.read + n) % (TEST_BUFFER_SIZE as int)) as usize,
        }
    }

    /// The buffer after `produce(n)`.
    pub closed spec fn produced(&self, n: int) -> RingByteBuffer {
        RingByteBuffer {
            buffer: self.buffer,
            write: ((self.write + n) % (TEST_BUFFER_SIZE as int)) as usize,
            read: self.read,
        }
    }

    /// The `n` storage bytes from the write cursor on, going round the end.
    pub closed spec fn bytes_after_write(&self, n: int) -> Seq<u8> {
        Seq::new(n as nat, |i: int| self.buffer@[(self.write + i) % (TEST_BUFFER_SIZE as int)])
    }

    /// An empty buffer, both cursors at the start of zeroed storage.
    pub fn new() -> (r: RingByteBuffer)
        ensures
            r.wf(),
            r.write_pos() == 0,
            r.read_pos() == 0,
            r.storage() == Seq::new(TEST_BUFFER_SIZE as nat, |i: int| 0u8),
            r@ == Seq::<u8>::empty(),
    {
        let r = RingByteBuffer { buffer: [0u8;TEST_BUFFER_SIZE], write: 0, read: 0 };
        assert(r.storage() =~= Seq::new(TEST_BUFFER_SIZE as nat, |i: int| 0u8));
        assert(r@ =~= Seq::<u8>::empty());
        r
    }

    /// The distance between the cursors, as the buffer computes it: when the
    /// queued bytes wrap round the end of the storage this is one less than
    /// their number.
    pub fn queue_size(&self) -> (r: usize)
        requires
            self.wf(),
        ensures
            r == queue_size_formula(self.write_pos(), self.read_pos()),
            self.write_pos() >= self.read_pos() ==> r == self@.len(),
            self.write_pos() < self.read_pos() ==> r == self@.len() - 1,
    {
        if self.write >= self.read {
            self.write - self.read
        } else {
            TEST_BUFFER_SIZE - (self.read - self.write) - 1
        }
    }

    /// Whether no byte is queued.
    pub fn is_empty(&self) -> (r: bool)
        requires
            self.wf(),
        ensures
            r == (self.write_pos() == self.read_pos()),
            r == (self@.len() == 0),
    {
        self.write == self.read
    }

    /// Whether the write cursor stands just behind the read cursor.
    pub fn is_full(&self) -> (r: bool)
        requires
            self.wf(),
        ensures
            r == ((self.write_pos() + 1) % (TEST_BUFFER_SIZE as int) == self.read_pos()),
            r == (self@.len() == TEST_BUFFER_SIZE - 1),
    {
        proof {
            lemma_small_mod(self.write + 1);
        }
        (self.write + 1) % TEST_BUFFER_SIZE == self.read
    }

    /// The storage from the write cursor to the end of the storage, or, when
    /// the write cursor is behind the read cursor, up to the byte before the
    /// one that precedes the read cursor.
    pub fn get_free_slot(&mut self) -> (r: &mut [u8])
        requires
            old(self).wf(),
        ensures
            r@ == old(self).storage().subrange(
                old(self).write_pos(),
                free_slot_end(old(self).write_pos(), old(self).read_pos()),
            ),
            final(self).wf(),
            final(self).write_pos() == old(self).write_pos(),
            final(self).read_pos() == old(self).read_pos(),
            final(self).storage() == old(self).storage().subrange(0, old(self).write_pos())
                + final(r)@ + old(self).storage().subrange(
                free_slot_end(old(self).write_pos(), old(self).read_pos()),
                TEST_BUFFER_SIZE as int,
            ),
    {
        let w = self.write;
        let rd = self.read;
        let s: &mut [u8] = &mut self.buffer;
        let (_before, after) = s.split_at_mut(w);
        if w >= rd {
            after
        } else {
            let (slot, _rest) = after.split_at_mut(rd - 1 - w);
            slot
        }
    }

    /// Moves the write cursor `written` bytes on, round the end of the storage.
    pub fn produce(&mut self, written: usize)
        requires
            old(self).wf(),
            old(self).write_pos() + written <= usize::MAX,
        ensures
            *final(self) == old(self).produced(written as int),
            final(self).wf(),
            final(self).write_pos() == (old(self).write_pos() + written) % (TEST_BUFFER_SIZE as int),
            final(self).read_pos() == old(self).read_pos(),
            final(self).storage() == old(self).storage(),
            written <= TEST_BUFFER_SIZE - 1 - old(self)@.len() ==> final(self)@ == old(self)@
                + old(self).bytes_after_write(written as int),
    {
        self.write = (self.write + written) % TEST_BUFFER_SIZE;
        proof {
            self.lemma_produced_view(*old(self), written as int);
        }
    }

    proof fn lemma_produced_view(self, prev: RingByteBuffer, n: int)
        requires
            prev.wf(),
            0 <= n,
            self == prev.produced(n),
        ensures
            self.wf(),
            n <= TEST_BUFFER_SIZE - 1 - prev@.len() ==> self@ == prev@ + prev.bytes_after_write(n),
    {
        let l = TEST_BUFFER_SIZE as int;
        assert(0 <= (prev.write + n) % l < l) by {
            vstd::arithmetic::div_mod::lemma_mod_bound(prev.write + n, l);
        }
        if n <= TEST_BUFFER_SIZE - 1 - prev@.len() {
            let len = queued_len(prev.write as int, prev.read as int);
            // the write cursor sits `len` bytes after the read cursor
            assert(prev.write as int == (prev.read + len) % l) by {
                lemma_small_mod(prev.read + len);
            }
            assert(self.write as int == (prev.read + len + n) % l) by {
                lemma_mod_shift(prev.read + len, n);
            }
            lemma_small_mod(prev.read + len + n);
            assert(queued_len(self.write as int, self.read as int) == len + n);
            let expected = prev@ + prev.bytes_after_write(n);
            assert forall|i: int| 0 <= i < len + n implies #[trigger] self@[i] == expected[i] by {
                if i >= len {
                    lemma_mod_shift(prev.read + len, i - len);
                }
            }
            assert(self@ =~= expected);
        }
    }

    /// The queued bytes from the read cursor up to the write cursor or, when
    /// they wrap round, up to the end of the storage.
    pub fn get_data(&self) -> (r: &[u8])
        requires
            self.wf(),
        ensures
            self.write_pos() >= self.read_pos() ==> r@ == self.storage().subrange(
                self.read_pos(),
                self.write_pos(),
            ),
            self.write_pos() < self.read_pos() ==> r@ == self.storage().subrange(
                self.read_pos(),
                TEST_BUFFER_SIZE as int,
            ),
            r@ == self@.subrange(0, r@.len() as int),
            r@.len() == 0 <==> self@.len() == 0,
            self.write_pos() >= self.read_pos() ==> r@ == self@,
    {
        let r = if self.write >= self.read {
            &self.buffer[self.read..self.write]
        } else {
            &self.buffer[self.read..TEST_BUFFER_SIZE]
        };
        proof {
            assert forall|i: int| 0 <= i < r@.len() implies #[trigger] r@[i] == self@[i] by {
                lemma_small_mod(self.read + i);
            }
            assert(r@ =~= self@.subrange(0, r@.len() as int));
        }
        r
    }

    /// Moves the read cursor `read` bytes on, round the end of the storage.
    pub fn consume(&mut self, read: usize)
        requires
            old(self).wf(),
            old(self).read_pos() + read <= usize::MAX,
        ensures
            *final(self) == old(self).consumed(read as int),
            final(self).wf(),
            final(self).read_pos() == (old(self).read_pos() + read) % (TEST_BUFFER_SIZE as int),
            final(self).write_pos() == old(self).write_pos(),
            final(self).storage() == old(self).storage(),
            read <= old(self)@.len() ==> final(self)@ == old(self)@.skip(read as int),
    {
        self.read = (self.read + read) % TEST_BUFFER_SIZE;
        proof {
            self.lemma_consumed_view(*old(self), read as int);
        }
    }

    /// Whether `write` can store `n` bytes before its free slot runs dry: always
    /// with the read cursor at 0, else up to the byte before the read cursor.
    pub open spec fn can_take(&self, n: int) -> bool {
        self.read_pos() == 0 || n <= write_room(self.write_pos(), self.read_pos())
    }

    /// Whether `write` can take `n` bytes (see `can_take`).
    pub fn accepts(&self, n: usize) -> (r: bool)
        requires
            self.wf(),
        ensures
            r == self.can_take(n as int),
    {
        if self.read == 0 {
            true
        } else if self.write >= self.read {
            n <= TEST_BUFFER_SIZE - self.write + self.read - 1
        } else {
            n <= self.read - 1 - self.write
        }
    }

    /// Copies all of `src` into the ring, slot after free slot, and returns how
    /// many bytes it stored (all of them). The `n` bytes land at the `n`
    /// positions from the write cursor on, round the end of the storage; when
    /// more bytes than the storage holds are written (the read cursor is then
    /// at 0), the later ones overwrite the earlier ones.
    pub fn write(&mut self, src: &[u8]) -> (written: usize)
        requires
            old(self).wf(),
            old(self).can_take(src@.len() as int),
        ensures
            written == src@.len(),
            final(self).wf(),
            final(self).read_pos() == old(self).read_pos(),
            final(self).write_pos() == (old(self).write_pos() + src@.len()) % (
            TEST_BUFFER_SIZE as int),
            forall|i: int|
                0 <= i < src@.len() && src@.len() - TEST_BUFFER_SIZE <= i ==> #[trigger] final(self).storage()[(
                old(self).write_pos() + i) % (TEST_BUFFER_SIZE as int)] == src@[i],
            forall|d: int|
                src@.len() <= d < TEST_BUFFER_SIZE ==> #[trigger] final(self).storage()[(old(self).write_pos()
                    + d) % (TEST_BUFFER_SIZE as int)] == old(self).storage()[(old(self).write_pos()
                    + d) % (TEST_BUFFER_SIZE as int)],
            src@.len() <= TEST_BUFFER_SIZE - 1 - old(self)@.len() ==> final(self)@ == old(self)@
                + src@,
    {
        let ghost w0 = self.write as int;
        let ghost s0 = self.buffer@;
        let ghost l = TEST_BUFFER_SIZE as int;
        let n = src.len();
        let mut written: usize = 0;
        while written < n
            invariant
                self.wf(),
                n == src@.len(),
                written <= n,
                self.read == old(self).read,
                w0 == old(self).write,
                s0 == old(self).buffer@,
                l == TEST_BUFFER_SIZE,
                self.write as int == (w0 + written) % l,
                self.read == 0 || n - written <= write_room(self.write as int, self.read as int),
                forall|i: int|
                    0 <= i < written && written - l <= i ==> #[trigger] self.buffer@[(w0 + i) % l]
                        == src@[i],
                forall|d: int|
                    written <= d < l ==> #[trigger] self.buffer@[(w0 + d) % l] == s0[(w0 + d) % l],
            decreases n - written,
        {
            let ghost before = self.buffer@;
            let ghost w = self.write as int;
            let ghost fe = free_slot_end(self.write as int, self.read as int);
            let dst = self.get_free_slot();
            let remaining = n - written;
            let k = if dst.len() < remaining {
                dst.len()
            } else {
                remaining
            };
            assert(k > 0);
            let mut j: usize = 0;
            while j < k
                invariant
                    j <= k,
                    k <= dst@.len(),
                    written + k <= n,
                    n == src@.len(),
                    forall|t: int| 0 <= t < j ==> dst@[t] == src@[written + t],
                    forall|t: int| j <= t < dst@.len() ==> dst@[t] == before[w + t],
                    dst@.len() == fe - w,
                decreases k - j,
            {
                dst[j] = src[written + j];
                j = j + 1;
            }
            proof {
                assert(self.buffer@ == before.subrange(0, w) + dst@ + before.subrange(fe, l));
                lemma_small_mod(w + k);
                lemma_mod_shift(w0 + written, k as int);
                assert forall|i: int|
                    0 <= i < written + k && written + k - l <= i implies #[trigger] self.buffer@[(w0
                        + i) % l] == src@[i] by {
                    if i >= written {
                        lemma_mod_shift(w0 + written, i - written);
                        lemma_small_mod(w + (i - written));
                    } else {
                        assert(before[(w0 + i) % l] == src@[i]);
                        // the position of byte i is none of the positions just written
                        let p = (w0 + i) % l;
                        assert(p < w || p >= w + k) by {
                            if w <= p < w + k {
                                let t = p - w;
                                lemma_mod_shift(w0 + written, t);
                                lemma_small_mod(w + t);
                                lemma_mod_distinct(w0 + i, w0 + written + t);
                            }
                        }
                    }
                }
                assert forall|d: int|
                    written + k <= d < l implies #[trigger] self.buffer@[(w0 + d) % l] == s0[(w0
                        + d) % l] by {
                    assert(before[(w0 + d) % l] == s0[(w0 + d) % l]);
                    let p = (w0 + d) % l;
                    assert(p < w || p >= w + k) by {
                        if w <= p < w + k {
                            let t = p - w;
                            lemma_mod_shift(w0 + written, t);
                            lemma_small_mod(w + t);
                            lemma_mod_distinct(w0 + written + t, w0 + d);
                        }
                    }
                }
            }
            self.produce(k);
            written = written + k;
        }
        proof {
            if n <= TEST_BUFFER_SIZE - 1 - old(self)@.len() {
                self.lemma_written_view(*old(self), src@);
            }
        }
        written
    }

    proof fn lemma_written_view(self, prev: RingByteBuffer, data: Seq<u8>)
        requires
            prev.wf(),
            self.wf(),
            data.len() <= TEST_BUFFER_SIZE - 1 - prev@.len(),
            self.read == prev.read,
            self.write as int == (prev.write + data.len()) % (TEST_BUFFER_SIZE as int),
            forall|i: int|
                0 <= i < data.len() ==> #[trigger] self.buffer@[(prev.write + i) % (
                TEST_BUFFER_SIZE as int)] == data[i],
            forall|d: int|
                data.len() <= d < TEST_BUFFER_SIZE ==> #[trigger] self.buffer@[(prev.write + d) % (
                TEST_BUFFER_SIZE as int)] == prev.buffer@[(prev.write + d) % (
                TEST_BUFFER_SIZE as int)],
        ensures
            self@ == prev@ + data,
    {
        let l = TEST_BUFFER_SIZE as int;
        let len = queued_len(prev.write as int, prev.read as int);
        let n = data.len() as int;
        lemma_small_mod(prev.read + len);
        assert(prev.write as int == (prev.read + len) % l);
        lemma_mod_shift(prev.read + len, n);
        lemma_small_mod(prev.read + len + n);
        assert(queued_len(self.write as int, self.read as int) == len + n);
        let expected = prev@ + data;
        assert forall|i: int| 0 <= i < len + n implies #[trigger] self@[i] == expected[i] by {
            if i >= len {
                lemma_mod_shift(prev.read + len, i - len);
                assert(self.buffer@[(prev.write + (i - len)) % l] == data[i - len]);
            } else {
                // byte i sits l - len + i positions after the write cursor
                let d = l - len + i;
                lemma_mod_shift(prev.read + len, d);
                vstd::arithmetic::div_mod::lemma_mod_add_multiples_vanish(prev.read + i, l);
                assert(self.buffer@[(prev.write + d) % l] == prev.buffer@[(prev.write + d) % l]);
            }
        }
        assert(self@ =~= expected);
    }

    proof fn lemma_consumed_view(self, prev: RingByteBuffer, n: int)
        requires
            prev.wf(),
            0 <= n,
            self == prev.consumed(n),
        ensures
            self.wf(),
            n <= prev@.len() ==> self@ == prev@.skip(n),
    {
        let l = TEST_BUFFER_SIZE as int;
        assert(0 <= (prev.read + n) % l < l) by {
            vstd::arithmetic::div_mod::lemma_mod_bound(prev.read + n, l);
        }
        if n <= prev@.len() {
            let len = queued_len(prev.write as int, prev.read as int);
            lemma_small_mod(prev.read + n);
            lemma_small_mod(prev.read + len);
            assert(queued_len(self.write as int, self.read as int) == len - n);
            assert forall|i: int| 0 <= i < len - n implies #[trigger] self@[i] == prev@[n + i] by {
                lemma_mod_shift(prev.read + n, i);
            }
            assert(self@ =~= prev@.skip(n));
        }
    }
}

/// Bytes appended behind the queued ones come back, in order, once the
/// bytes queued before them have been consumed.
pub proof fn lemma_written_bytes_read_back(before: RingByteBuffer, data: Seq<u8>, after: RingByteBuffer)
    requires
        before.wf(),
        after.wf(),
        after@ == before@ + data,
    ensures
        after.consumed(before@.len() as int)@ == data,
{
    let n = before@.len() as int;
    after.consumed(n).lemma_consumed_view(after, n);
    assert((before@ + data).skip(n) =~= data);
}

/// A step of a history of a ring buffer: `produce(n)` or `consume(n)`.
pub enum RingOp {
    Produce(nat),
    Consume(nat),
}

/// The buffer after one step.
pub open spec fn apply_op(b: RingByteBuffer, op: RingOp) -> RingByteBuffer {
    match op {
        RingOp::Produce(n) => b.produced(n as int),
        RingOp::Consume(n) => b.consumed(n as int),
    }
}

/// The buffer after a history of steps, the first step first.
pub open spec fn run_ops(b: RingByteBuffer, ops: Seq<RingOp>) -> RingByteBuffer
    decreases ops.len(),
{
    if ops.len() == 0 {
        b
    } else {
        apply_op(run_ops(b, ops.drop_last()), ops.last())
    }
}

/// Every step of the history stays within the buffer: a `produce` within the
/// free room (the storage less one byte less the queued bytes), a `consume`
/// within the queued bytes.
pub open spec fn ops_in_bounds(b: RingByteBuffer, ops: Seq<RingOp>) -> bool {
    forall|i: int|
        0 <= i < ops.len() ==> match #[trigger] ops[i] {
            RingOp::Produce(n) => n <= TEST_BUFFER_SIZE - 1 - run_ops(b, ops.take(i))@.len(),
            RingOp::Consume(n) => n <= run_ops(b, ops.take(i))@.len(),
        }
}

/// Bytes produced over a history.
pub open spec fn produced_total(ops: Seq<RingOp>) -> nat
    decreases ops.len(),
{
    if ops.len() == 0 {
        0
    } else {
        produced_total(ops.drop_last()) + match ops.last() {
            RingOp::Produce(n) => n,
            RingOp::Consume(_) => 0,
        }
    }
}

/// Bytes consumed over a history.
pub open spec fn consumed_total(ops: Seq<RingOp>) -> nat
    decreases ops.len(),
{
    if ops.len() == 0 {
        0
    } else {
        consumed_total(ops.drop_last()) + match ops.last() {
            RingOp::Produce(_) => 0,
            RingOp::Consume(n) => n,
        }
    }
}

/// Over a history whose steps stay within the buffer, the buffer holds the
/// bytes produced less the bytes consumed (on top of what it held), never
/// more than one byte less than its storage; so `is_full` holds exactly when
/// 8191 more bytes were produced than consumed from an empty buffer.
pub proof fn lemma_history_counts(b: RingByteBuffer, ops: Seq<RingOp>)
    requires
        b.wf(),
        b@.len() <= TEST_BUFFER_SIZE - 1,
        ops_in_bounds(b, ops),
    ensures
        run_ops(b, ops).wf(),
        run_ops(b, ops)@.len() == b@.len() + produced_total(ops) - consumed_total(ops),
        run_ops(b, ops)@.len() <= TEST_BUFFER_SIZE - 1,
    decreases ops.len(),
{
    if ops.len() > 0 {
        let prefix = ops.drop_last();
        assert forall|i: int| 0 <= i < prefix.len() implies match #[trigger] prefix[i] {
            RingOp::Produce(n) => n <= TEST_BUFFER_SIZE - 1 - run_ops(b, prefix.take(i))@.len(),
            RingOp::Consume(n) => n <= run_ops(b, prefix.take(i))@.len(),
        } by {
            assert(prefix.take(i) =~= ops.take(i));
            assert(prefix[i] == ops[i]);
        }
        lemma_history_counts(b, prefix);
        let pre = run_ops(b, prefix);
        let last_i = ops.len() - 1;
        assert(ops.take(last_i) =~= prefix);
        assert(ops[last_i] == ops.last());
        match ops.last() {
            RingOp::Produce(n) => {
                pre.produced(n as int).lemma_produced_view(pre, n as int);
            },
            RingOp::Consume(n) => {
                pre.consumed(n as int).lemma_consumed_view(pre, n as int);
            },
        }
    }
}

/// Consuming everything that is queued empties the buffer.
pub proof fn lemma_consume_all_empties(b: RingByteBuffer)
    requires
        b.wf(),
    ensures
        b.consumed(b@.len() as int)@.len() == 0,
        b.consumed(b@.len() as int).write_pos() == b.consumed(b@.len() as int).read_pos(),
{
    let n = b@.len() as int;
    b.consumed(n).lemma_consumed_view(b, n);
    lemma_small_mod(b.read + n);
}

} // verus!
