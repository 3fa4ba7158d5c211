//! The last bytes of the replication stream, kept in a ring.
use vstd::prelude::*;

verus! {

/// A ring of the last `len` bytes of the stream. The next byte goes to `write_idx`.
pub struct ReplicationBacklog {
    pub buffer: Vec<u8>,
    pub write_idx: usize,
    pub len: usize,
    pub max_size: usize,
    pub first_byte_offset: u64,
}

/// The last bytes of a sequence, at most `k` of them.
pub open spec fn tail(s: Seq<u8>, k: nat) -> Seq<u8> {
    if s.len() <= k {
        s
    } else {
        s.skip(s.len() - k)
    }
}

/// The place in a ring of `size` that lies `back` behind `at`.
pub open spec fn place(at: int, size: int, back: int) -> int {
    if back <= at {
        at - back
    } else {
        at + size - back
    }
}

/// `a - b`, or zero where that is less than zero.
pub open spec fn monus(a: u64, b: nat) -> int {
    if a >= b {
        a - b
    } else {
        0
    }
}

impl View for ReplicationBacklog {
    type V = Seq<u8>;

    /// The bytes that are kept, the oldest first.
    open spec fn view(&self) -> Seq<u8> {
        Seq::new(
            self.len as nat,
            |i: int|
                self.buffer@[place(self.write_idx as int, self.max_size as int, self.len - i)],
        )
    }
}

/// A backlog before and after bytes of the stream whose last one has the offset `offset`: it keeps
/// the last that fit, and notes the offset of the first of them. No bytes change nothing.
pub open spec fn appended(
    before: ReplicationBacklog,
    after: ReplicationBacklog,
    data: Seq<u8>,
    offset: u64,
) -> bool {
    &&& after.wf()
    &&& data.len() == 0 ==> after == before
    &&& after.max_size == before.max_size
    &&& after@ == tail(before@ + data, before.max_size as nat)
    &&& after.first_byte_offset == if data.len() == 0 {
        before.first_byte_offset as int
    } else {
        monus(offset, after@.len()) + 1
    }
}

impl ReplicationBacklog {
    /// The ring is as long as it says, and no more is kept than goes in.
    pub open spec fn wf(&self) -> bool {
        &&& self.buffer@.len() == self.max_size
        &&& self.len <= self.max_size
        &&& self.write_idx < self.max_size || (self.max_size == 0 && self.write_idx == 0)
    }

    /// Whether the stream from `target` on can be sent, when `current` is the offset of its last
    /// byte.
    pub open spec fn reaches(&self, target: u64, current: u64) -> bool {
        if target > current + 1 {
            false
        } else if self.len == 0 {
            target == current + 1
        } else {
            target >= self.first_byte_offset
        }
    }

    /// The stream from `target` on, when `current` is the offset of its last byte.
    pub open spec fn diff(&self, target: u64, current: u64) -> Option<Seq<u8>> {
        if !self.reaches(target, current) || current + 1 - target > self.len {
            None
        } else {
            Some(self@.skip(self.len - (current + 1 - target)))
        }
    }

    /// A ring for `max_size` bytes, with none in it.
    pub fn new(max_size: usize) -> (r: Self)
        ensures
            r.wf(),
            r@ == Seq::<u8>::empty(),
            r.buffer@ == Seq::new(max_size as nat, |i: int| 0u8),
            r.write_idx == 0,
            r.max_size == max_size,
            r.first_byte_offset == 1,
    {
        let r = ReplicationBacklog {
            buffer: vec![0u8; max_size],
            write_idx: 0,
            len: 0,
            max_size,
            first_byte_offset: 1,
        };
        assert(r@ =~= Seq::<u8>::empty());
        assert(r.buffer@ =~= Seq::new(max_size as nat, |i: int| 0u8));
        r
    }

    /// How many bytes are kept.
    pub fn len(&self) -> (r: usize)
        ensures
            r == self@.len(),
    {
        self.len
    }

    /// Whether no byte is kept.
    pub fn is_empty(&self) -> (r: bool)
        ensures
            r == (self@.len() == 0),
    {
        self.len == 0
    }

    /// Keeps bytes of the stream whose last one has the offset `current_master_offset`; the oldest
    /// give way where there is no room.
    pub fn append(&mut self, data: &[u8], current_master_offset: u64)
        requires
            old(self).wf(),
            old(self).max_size > 0 || current_master_offset < u64::MAX,
        ensures
            appended(*old(self), *final(self), data@, current_master_offset),
    {
        let n: usize = data.len();
        if n == 0 {
            assert(old(self)@ + data@ =~= old(self)@);
            return;
        }
        let ghost before = self@;
        if n >= self.max_size {
            let from: usize = n - self.max_size;
            let mut i: usize = 0;
            while i < self.max_size
                invariant
                    i <= self.max_size,
                    n == data.len(),
                    from + self.max_size == n,
                    self.max_size == old(self).max_size,
                    self.buffer@.len() == self.max_size,
                    forall|k: int| 0 <= k < i ==> self.buffer@[k] == data@[from + k],
                decreases self.max_size - i,
            {
                self.buffer.set(i, data[from + i]);
                i += 1;
            }
            self.write_idx = 0;
            self.len = self.max_size;
            self.first_byte_offset = current_master_offset.saturating_sub(self.max_size as u64) + 1;
            assert(self@ =~= tail(before + data@, self.max_size as nat));
            return;
        }
        let size: usize = self.max_size;
        let start: usize = self.write_idx;
        let mut at: usize = start;
        let mut i: usize = 0;
        while i < n
            invariant
                i <= n,
                n == data.len(),
                n < size,
                start < size,
                at < size,
                at == if start + i < size {
                    start + i
                } else {
                    start + i - size
                },
                self.buffer@.len() == size,
                self.max_size == size,
                self.len == old(self).len,
                forall|k: int| 0 <= k < i ==> self.buffer@[place(at as int, size as int, i - k)] == data@[k],
                forall|k: int|
                    i < k <= size ==> self.buffer@[place(at as int, size as int, k)]
                        == #[trigger] old(self).buffer@[place(
                        start as int,
                        size as int,
                        k - i,
                    )],
            decreases n - i,
        {
            let ghost earlier = self.buffer@;
            let ghost was = at as int;
            self.buffer.set(at, data[i]);
            at = if at + 1 < size {
                at + 1
            } else {
                0
            };
            proof {
                assert forall|k: int| 0 <= k < i + 1 implies self.buffer@[place(
                    at as int,
                    size as int,
                    i + 1 - k,
                )] == data@[k] by {
                    assert(place(at as int, size as int, i + 1 - k) == place(
                        was,
                        size as int,
                        i - k,
                    ));
                    if k < i {
                        assert(earlier[place(was, size as int, i - k)] == data@[k]);
                    }
                }
                assert forall|k: int| i + 1 < k <= size implies self.buffer@[place(
                    at as int,
                    size as int,
                    k,
                )] == #[trigger] old(self).buffer@[place(
                    start as int,
                    size as int,
                    k - (i + 1),
                )] by {
                    assert(place(at as int, size as int, k) == place(was, size as int, k - 1));
                    assert(earlier[place(was, size as int, k - 1)] == old(self).buffer@[place(
                        start as int,
                        size as int,
                        (k - 1) - i,
                    )]);
                }
            }
            i += 1;
        }
        self.write_idx = at;
        let room: usize = size - self.len;
        self.len = if n < room {
            self.len + n
        } else {
            size
        };
        self.first_byte_offset = current_master_offset.saturating_sub(self.len as u64) + 1;
        proof {
            let whole = before + data@;
            let kept = tail(whole, size as nat);
            assert(self.len == kept.len());
            assert forall|j: int| 0 <= j < self.len implies self@[j] == kept[j] by {
                let back = self.len - j;
                if back <= n {
                    assert(self.buffer@[place(at as int, size as int, n - (n - back))] == data@[n
                        - back]);
                    assert(kept[j] == whole[whole.len() - back]);
                } else {
                    assert(self.buffer@[place(at as int, size as int, back)]
                        == old(self).buffer@[place(start as int, size as int, back - n)]);
                    assert(kept[j] == whole[whole.len() - back]);
                    assert(whole[whole.len() - back] == before[before.len() - (back - n)]);
                }
            }
            assert(self@ =~= kept);
        }
    }

    /// Whether the stream from `target_offset` on can be sent.
    pub fn can_partial_sync(&self, target_offset: u64, current_master_offset: u64) -> (r: bool)
        requires
            current_master_offset < u64::MAX,
        ensures
            r == self.reaches(target_offset, current_master_offset),
    {
        if target_offset > current_master_offset + 1 {
            return false;
        }
        if self.len == 0 {
            return target_offset == current_master_offset + 1;
        }
        target_offset >= self.first_byte_offset
    }

    /// The stream from `target_offset` on, if it can be sent.
    pub fn get_diff(&self, target_offset: u64, current_master_offset: u64) -> (r: Option<Vec<u8>>)
        requires
            self.wf(),
            current_master_offset < u64::MAX,
        ensures
            match r {
                Some(d) => self.diff(target_offset, current_master_offset) == Some(d@),
                None => self.diff(target_offset, current_master_offset) is None,
            },
    {
        if !self.can_partial_sync(target_offset, current_master_offset) {
            return None;
        }
        if target_offset == current_master_offset + 1 {
            let none: Vec<u8> = Vec::new();
            assert(none@ =~= self@.skip(self.len as int));
            return Some(none);
        }
        let wanted: u64 = current_master_offset + 1 - target_offset;
        if wanted > self.len as u64 {
            return None;
        }
        let diff_len: usize = wanted as usize;
        let mut at: usize = if diff_len <= self.write_idx {
            self.write_idx - diff_len
        } else {
            self.max_size - (diff_len - self.write_idx)
        };
        let mut out: Vec<u8> = Vec::new();
        let mut i: usize = 0;
        while i < diff_len
            invariant
                self.wf(),
                0 < diff_len <= self.len,
                i <= diff_len,
                out@.len() == i,
                i < diff_len ==> at == place(
                    self.write_idx as int,
                    self.max_size as int,
                    diff_len - i,
                ),
                forall|k: int| 0 <= k < i ==> out@[k] == self@[self.len - diff_len + k],
            decreases diff_len - i,
        {
            out.push(self.buffer[at]);
            at = if at + 1 < self.max_size {
                at + 1
            } else {
                0
            };
            i += 1;
        }
        assert(out@ =~= self@.skip(self.len - diff_len));
        Some(out)
    }
}

/// A backlog that records a stream: it keeps its last bytes, and knows the offset of the first of
/// them. Offsets count from one.
pub open spec fn records(b: ReplicationBacklog, stream: Seq<u8>) -> bool {
    &&& b.wf()
    &&& b@ == tail(stream, b.max_size as nat)
    &&& b.first_byte_offset == stream.len() - b@.len() + 1
}

/// A backlog that records a stream goes on to record it when bytes are appended at its end.
pub proof fn law_append_records(
    before: ReplicationBacklog,
    after: ReplicationBacklog,
    stream: Seq<u8>,
    data: Seq<u8>,
)
    requires
        records(before, stream),
        stream.len() + data.len() <= u64::MAX,
        appended(before, after, data, (stream.len() + data.len()) as u64),
    ensures
        records(after, stream + data),
{
    let k = before.max_size as nat;
    let whole = stream + data;
    if data.len() == 0 {
        assert(whole =~= stream);
        assert(before@ + data =~= before@);
    } else {
        assert(after@ =~= tail(whole, k));
    }
}

/// What a replica is sent to catch up is what it lacks: of a recorded stream, the bytes from the
/// offset that it asks for up to the last, whenever the backlog still keeps them and never
/// otherwise.
pub proof fn law_diff_is_what_is_missing(b: ReplicationBacklog, stream: Seq<u8>, target: u64)
    requires
        records(b, stream),
        stream.len() < u64::MAX,
    ensures
        b.diff(target, stream.len() as u64) == if stream.len() - b@.len() + 1 <= target
            <= stream.len() + 1 {
            Some(stream.skip(target - 1))
        } else {
            None
        },
{
    let current = stream.len() as u64;
    if b.reaches(target, current) && current + 1 - target <= b.len {
        assert(b@.skip(b.len - (current + 1 - target)) =~= stream.skip(target - 1));
    }
}

} // verus!
