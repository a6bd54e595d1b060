use vstd::prelude::*;
use vstd::arithmetic::div_mod::{lemma_div_is_ordered, lemma_div_multiples_vanish, lemma_div_multiples_vanish_fancy};
use crate::codec::{append_bytes, BinaryEntry};
use crate::flow::StreamFlow;
use crate::stream::{initial_model, probed_model, recorded_model, SeekTarget, Stage, StreamAction, StreamIn, StreamModel};

verus! {

/// The entry stored `pos` bytes into `file`.
pub open spec fn entry_at<T: BinaryEntry>(file: Seq<u8>, pos: int) -> T {
    T::spec_decode(file.subrange(pos, pos + T::spec_size()))
}

/// Where a window of `n` entries of `size` bytes begins in a file of `len`
/// bytes: back from the end where a backward window fits in the file, and
/// otherwise at the start.
pub open spec fn window_start(len: nat, size: nat, direction: StreamFlow, n: nat) -> int {
    if direction == StreamFlow::Backward && size * n <= len {
        len - size * n
    } else {
        0
    }
}

/// The entries that a stream of `until_entry` entries returns from `file`:
/// none for a count that is not positive; otherwise the whole entries that
/// follow the window's start, at most `until_entry` of them, in file order.
pub open spec fn stream_spec<T: BinaryEntry>(file: Seq<u8>, direction: StreamFlow, until_entry: int) -> Seq<T> {
    if until_entry <= 0 {
        Seq::empty()
    } else {
        let size = T::spec_size();
        let n = until_entry as nat;
        let base = window_start(file.len(), size, direction, n);
        let whole = (file.len() - base) / size as int;
        let count = if n <= whole { n as int } else { whole };
        Seq::new(count as nat, |i: int| entry_at::<T>(file, base + size * i))
    }
}

/// How a stream over `file` stands against what it will return, at each step.
spec fn tracks<T: BinaryEntry>(m: StreamModel<T>, file: Seq<u8>, direction: StreamFlow, until_entry: int) -> bool {
    let size = T::spec_size();
    let n = m.until;
    let base = window_start(file.len(), size, direction, n);
    &&& m.wf()
    &&& m.entry_size == size
    &&& n == if until_entry <= 0 { 0 } else { until_entry }
    &&& m.stage == Stage::Probe ==> direction == StreamFlow::Backward
    &&& m.stage != Stage::Probe ==> (m.mode == StreamFlow::Backward <==> (direction
        == StreamFlow::Backward && size * n <= file.len()))
    &&& forall|i: int| 0 <= i < m.entries.len() ==> #[trigger] m.entries[i] == entry_at::<T>(file, base + size * i)
    &&& m.stage == Stage::Read ==> base + size * m.entries.len() <= file.len()
    &&& m.stage == Stage::Done ==> m.entries =~= stream_spec::<T>(file, direction, until_entry)
}

/// One read keeps a stream over `file` on track, given that what was read is
/// the entry at the stream's current position, where a whole one is there.
proof fn lemma_read_step<T: BinaryEntry>(
    m: StreamModel<T>,
    file: Seq<u8>,
    direction: StreamFlow,
    until_entry: int,
    found: Option<T>,
)
    requires
        tracks(m, file, direction, until_entry),
        m.stage == Stage::Read,
        file.len() <= u64::MAX,
        ({
            let p = window_start(file.len(), m.entry_size, direction, m.until) + m.entry_size
                * m.entries.len();
            &&& found is Some <==> p + m.entry_size <= file.len()
            &&& found matches Some(v) ==> v == entry_at::<T>(file, p)
        }),
    ensures
        tracks(recorded_model(m, found), file, direction, until_entry),
{
    let size = m.entry_size;
    let n = m.until;
    let index = m.entries.len();
    let len = file.len();
    let base = window_start(len, size, direction, n);
    let next = recorded_model(m, found);
    let spec = stream_spec::<T>(file, direction, until_entry);
    assert(size * (index + 1) == size * index + size) by (nonlinear_arith);
    if m.mode == StreamFlow::Backward {
        assert(size * n == size * index + size * (n - index)) by (nonlinear_arith);
        assert(size * (n - index) >= size) by (nonlinear_arith)
            requires
                index < n,
                size > 0,
        ;
        lemma_div_multiples_vanish(n as int, size as int);
    }
    match found {
        None => {
            assert(m.mode == StreamFlow::Forward);
            lemma_div_multiples_vanish_fancy(index as int, len - size * index, size as int);
            assert(next.entries =~= spec);
        },
        Some(_) => {
            if next.stage == Stage::Done {
                assert(index + 1 == n);
                if m.mode == StreamFlow::Forward {
                    lemma_div_is_ordered((size * n) as int, len as int, size as int);
                    lemma_div_multiples_vanish(n as int, size as int);
                }
                assert(next.entries =~= spec);
            }
        },
    }
}

/// Runs a stream over the bytes of an in-memory record file.
fn stream_over<T: BinaryEntry>(file: &[u8], direction: StreamFlow, until_entry: i64) -> (r: Vec<T>)
    ensures
        r@ == stream_spec::<T>(file@, direction, until_entry as int),
{
    let ghost f = file@;
    let size = T::entry_size();
    let len = file.len();
    let mut s = match StreamIn::<T>::new(direction, until_entry, size) {
        Ok(s) => s,
        Err(_) => {
            return Vec::new();
        },
    };
    loop
        invariant
            tracks(s@, f, direction, until_entry as int),
            len == f.len(),
            file@ == f,
        ensures
            s@.entries == stream_spec::<T>(f, direction, until_entry as int),
        decreases s@.steps_left(),
    {
        let ghost before = s@;
        let ghost base = window_start(f.len(), before.entry_size, direction, before.until);
        match s.action() {
            StreamAction::Finish => {
                break;
            },
            StreamAction::Probe(window) => {
                s.probed(window <= len as u64);
            },
            StreamAction::Read(target) => {
                let ghost index = before.entries.len() as int;
                let found: Option<T> = match target {
                    SeekTarget::Start(pos) => {
                        if pos <= len as u64 {
                            T::entry_read(vstd::slice::slice_subrange(file, pos as usize, len))
                        } else {
                            None
                        }
                    },
                    SeekTarget::End(back) => {
                        if back <= len as u64 {
                            T::entry_read(
                                vstd::slice::slice_subrange(file, len - back as usize, len),
                            )
                        } else {
                            None
                        }
                    },
                };
                proof {
                    let size = before.entry_size;
                    let n = before.until;
                    let p = base + size * index;
                    if before.mode == StreamFlow::Backward {
                        assert(size * n == size * index + size * (n - index)) by (nonlinear_arith);
                    }
                    let rest = f.subrange(p, f.len() as int);
                    if found is Some {
                        assert(rest.subrange(0, size as int) =~= f.subrange(p, p + size));
                    }
                    lemma_read_step(before, f, direction, until_entry as int, found);
                }
                s.record(found);
            },
        }
    }
    s.into_entries()
}

/// A record file: entries stored one after another, with no header and no
/// framing, read back a window at a time.
pub trait BinaryChunkStream: Sized {
    /// The bytes the file holds.
    spec fn stored(&self) -> Seq<u8>;

    /// Writes an entry into the reusable buffer, appends the whole buffer to
    /// the file, and leaves the buffer empty.
    fn entry_write<T: BinaryEntry>(&mut self, buffer_out: &mut Vec<u8>, data_in: T)
        ensures
            final(self).stored() == old(self).stored() + old(buffer_out)@ + T::spec_encode(
                data_in,
            ),
            final(buffer_out)@ == Seq::<u8>::empty(),
    ;

    /// Reads up to `until_entry` entries in the given direction. The file is
    /// left as it was and the entries depend on its bytes alone, so the same
    /// read repeated gives the same entries.
    fn stream_in<T: BinaryEntry>(&mut self, direction: StreamFlow, until_entry: i64) -> (r: Vec<
        T,
    >)
        ensures
            final(self).stored() == old(self).stored(),
            r@ == stream_spec::<T>(old(self).stored(), direction, until_entry as int),
    ;

    /// Reads the last `until_entry` entries, oldest first.
    fn tail<T: BinaryEntry>(&mut self, until_entry: i64) -> (r: Vec<T>)
        ensures
            final(self).stored() == old(self).stored(),
            r@ == stream_spec::<T>(old(self).stored(), StreamFlow::Backward, until_entry as int),
    ;

    /// Reads the first `until_entry` entries.
    fn head<T: BinaryEntry>(&mut self, until_entry: i64) -> (r: Vec<T>)
        ensures
            final(self).stored() == old(self).stored(),
            r@ == stream_spec::<T>(old(self).stored(), StreamFlow::Forward, until_entry as int),
    ;
}

/// A record file held in memory.
impl BinaryChunkStream for Vec<u8> {
    open spec fn stored(&self) -> Seq<u8> {
        self@
    }

    fn entry_write<T: BinaryEntry>(&mut self, buffer_out: &mut Vec<u8>, data_in: T) {
        T::entry_write(data_in, buffer_out);
        append_bytes(self, buffer_out.as_slice());
        buffer_out.clear();
        assert(self@ == old(self)@ + old(buffer_out)@ + T::spec_encode(data_in));
    }

    fn stream_in<T: BinaryEntry>(&mut self, direction: StreamFlow, until_entry: i64) -> (r: Vec<T>) {
        stream_over(self.as_slice(), direction, until_entry)
    }

    fn tail<T: BinaryEntry>(&mut self, until_entry: i64) -> (r: Vec<T>) {
        self.stream_in(StreamFlow::Backward, until_entry)
    }

    fn head<T: BinaryEntry>(&mut self, until_entry: i64) -> (r: Vec<T>) {
        self.stream_in(StreamFlow::Forward, until_entry)
    }
}

/// A count that is not positive reads nothing, in either direction, and the
/// stream it starts asks for no seek at all.
pub proof fn lemma_no_count_reads_nothing<T: BinaryEntry>(
    file: Seq<u8>,
    direction: StreamFlow,
    until_entry: int,
    entry_size: nat,
)
    requires
        until_entry <= 0,
    ensures
        stream_spec::<T>(file, direction, until_entry) == Seq::<T>::empty(),
        initial_model::<T>(direction, until_entry, entry_size).action() == StreamAction::Finish,
{
}

/// Where the file holds at least `n` whole entries, the head of `n` is its
/// first `n` entries, in file order.
pub proof fn lemma_head_first_entries<T: BinaryEntry>(file: Seq<u8>, n: int)
    requires
        0 < n,
        T::spec_size() * n <= file.len(),
    ensures
        stream_spec::<T>(file, StreamFlow::Forward, n) == Seq::new(
            n as nat,
            |i: int| entry_at::<T>(file, T::spec_size() * i),
        ),
{
    let size = T::spec_size();
    T::lemma_size_positive();
    lemma_div_is_ordered(size * n, file.len() as int, size as int);
    lemma_div_multiples_vanish(n, size as int);
    assert(stream_spec::<T>(file, StreamFlow::Forward, n) =~= Seq::new(
        n as nat,
        |i: int| entry_at::<T>(file, size * i),
    ));
}

/// Where the file holds `k` whole entries and nothing more, and `n` is at
/// most `k`, the tail of `n` is its last `n` entries, oldest first.
pub proof fn lemma_tail_last_entries<T: BinaryEntry>(file: Seq<u8>, k: int, n: int)
    requires
        0 < n <= k,
        file.len() == T::spec_size() * k,
    ensures
        stream_spec::<T>(file, StreamFlow::Backward, n) == Seq::new(
            n as nat,
            |i: int| entry_at::<T>(file, T::spec_size() * (k - n + i)),
        ),
{
    let size = T::spec_size();
    T::lemma_size_positive();
    assert(size * n <= size * k) by (nonlinear_arith)
        requires
            n <= k,
    ;
    assert(size * k - size * n == size * (k - n)) by (nonlinear_arith);
    lemma_div_multiples_vanish(n, size as int);
    let got = stream_spec::<T>(file, StreamFlow::Backward, n);
    let want = Seq::new(n as nat, |i: int| entry_at::<T>(file, size * (k - n + i)));
    assert forall|i: int| 0 <= i < n implies #[trigger] got[i] == want[i] by {
        assert(size * (k - n) + size * i == size * (k - n + i)) by (nonlinear_arith);
    }
    assert(got =~= want);
}

/// Where `n` is more than the number of whole entries in the file, head and
/// tail both return every whole entry, in file order.
pub proof fn lemma_short_file_returns_all<T: BinaryEntry>(file: Seq<u8>, n: int)
    requires
        (file.len() as int) / (T::spec_size() as int) < n,
    ensures
        stream_spec::<T>(file, StreamFlow::Forward, n) == Seq::new(
            ((file.len() as int) / (T::spec_size() as int)) as nat,
            |i: int| entry_at::<T>(file, T::spec_size() * i),
        ),
        stream_spec::<T>(file, StreamFlow::Backward, n) == stream_spec::<T>(
            file,
            StreamFlow::Forward,
            n,
        ),
{
    let size = T::spec_size();
    T::lemma_size_positive();
    let k = (file.len() as int) / (size as int);
    assert(file.len() < size * n) by {
        vstd::arithmetic::div_mod::lemma_fundamental_div_mod(file.len() as int, size as int);
        assert(size * (k + 1) <= size * n) by (nonlinear_arith)
            requires
                k + 1 <= n,
                size > 0,
        ;
        assert(size * (k + 1) == size * k + size) by (nonlinear_arith);
    }
    assert(stream_spec::<T>(file, StreamFlow::Forward, n) =~= Seq::new(
        k as nat,
        |i: int| entry_at::<T>(file, size * i),
    ));
}

} // verus!
