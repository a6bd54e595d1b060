use vstd::prelude::*;
use crate::flow::StreamFlow;

verus! {

/// A seek, as the holder of the file performs it.
#[derive(Clone, Copy, Debug, PartialEq, Eq, Structural)]
pub enum SeekTarget {
    /// This many bytes after the start of the file.
    Start(u64),
    /// This many bytes before the end of the file.
    End(u64),
}

/// What the holder of the file does next for a stream.
#[derive(Clone, Copy, Debug, PartialEq, Eq, Structural)]
pub enum StreamAction {
    /// Try to seek this many bytes before the end of the file and report
    /// whether the seek worked.
    Probe(u64),
    /// Seek to the target, read one entry there, and report it, or report
    /// that none could be read.
    Read(SeekTarget),
    /// The stream is over; its entries are ready.
    Finish,
}

/// Where a stream stands.
#[derive(Clone, Copy, Debug, PartialEq, Eq, Structural)]
pub enum Stage {
    /// Waiting to learn whether the backward window fits in the file.
    Probe,
    /// Reading entries.
    Read,
    /// Done.
    Done,
}

/// A stream that cannot be set up.
#[derive(Clone, Copy, Debug, PartialEq, Eq, Structural)]
pub enum StreamError {
    /// Entries of size zero cannot be told apart, so no window can be laid
    /// over them.
    ZeroEntrySize,
}

/// A stream as the contracts see it.
pub struct StreamModel<T> {
    /// The direction in which positions are taken: from the start of the
    /// file, or back from its end.
    pub mode: StreamFlow,
    pub entry_size: nat,
    /// How many entries are asked for (zero where the count was not positive).
    pub until: nat,
    pub stage: Stage,
    /// The entries read so far, in the order read.
    pub entries: Seq<T>,
}

impl<T> StreamModel<T> {
    /// The byte span that the requested entries cover.
    pub open spec fn window(self) -> nat {
        self.entry_size * self.until
    }

    pub open spec fn wf(self) -> bool {
        &&& self.entry_size > 0
        &&& self.entries.len() <= self.until
        &&& self.stage != Stage::Done ==> self.entries.len() < self.until
        &&& self.mode == StreamFlow::Backward ==> self.window() <= u64::MAX
        &&& self.stage != Stage::Done && self.mode == StreamFlow::Forward ==> self.entry_size
            * self.entries.len() <= u64::MAX
        &&& self.stage == Stage::Probe ==> self.mode == StreamFlow::Backward && self.entries.len()
            == 0
    }

    /// What the holder of the file does next.
    pub open spec fn action(self) -> StreamAction {
        match self.stage {
            Stage::Done => StreamAction::Finish,
            Stage::Probe => StreamAction::Probe(self.window() as u64),
            Stage::Read => if self.mode == StreamFlow::Backward {
                StreamAction::Read(
                    SeekTarget::End((self.entry_size * (self.until - self.entries.len())) as u64),
                )
            } else {
                StreamAction::Read(SeekTarget::Start((self.entry_size * self.entries.len()) as u64))
            },
        }
    }

    /// A measure that every step lowers.
    pub open spec fn steps_left(self) -> nat {
        match self.stage {
            Stage::Done => 0,
            Stage::Read => (self.until - self.entries.len() + 1) as nat,
            Stage::Probe => self.until + 2,
        }
    }
}

/// The stream that a request starts: nothing is read for a count that is not
/// positive; a backward request first probes whether its window fits in the
/// file, unless no file could hold it.
pub open spec fn initial_model<T>(direction: StreamFlow, until_entry: int, entry_size: nat) -> StreamModel<T> {
    let until: nat = if until_entry <= 0 { 0 } else { until_entry as nat };
    let backward = direction == StreamFlow::Backward && entry_size * until <= u64::MAX;
    StreamModel {
        mode: if backward { StreamFlow::Backward } else { StreamFlow::Forward },
        entry_size,
        until,
        stage: if until == 0 { Stage::Done } else if backward { Stage::Probe } else { Stage::Read },
        entries: Seq::empty(),
    }
}

/// The stream after the probe: it keeps reading back from the end only where
/// the window fitted, and otherwise reads from the start of the file.
pub open spec fn probed_model<T>(m: StreamModel<T>, fits: bool) -> StreamModel<T> {
    StreamModel {
        mode: if fits { StreamFlow::Backward } else { StreamFlow::Forward },
        stage: Stage::Read,
        ..m
    }
}

/// The stream after a read: a missing entry ends it; a found one is kept,
/// and the stream ends once the count is reached, or where the next position
/// from the start would not fit in a file offset.
pub open spec fn recorded_model<T>(m: StreamModel<T>, entry: Option<T>) -> StreamModel<T> {
    match entry {
        None => StreamModel { stage: Stage::Done, ..m },
        Some(v) => {
            let entries = m.entries.push(v);
            let over = entries.len() >= m.until || (m.mode == StreamFlow::Forward && m.entry_size
                * entries.len() > u64::MAX);
            StreamModel { stage: if over { Stage::Done } else { Stage::Read }, entries, ..m }
        },
    }
}

/// Reads a window of entries: it decides each seek and read, which the
/// holder of the file performs and reports back. Positions are taken afresh
/// from the start or from the end of the file at every entry.
pub struct StreamIn<T> {
    mode: StreamFlow,
    entry_size: u64,
    until: u64,
    stage: Stage,
    entries: Vec<T>,
}

impl<T> View for StreamIn<T> {
    type V = StreamModel<T>;

    closed spec fn view(&self) -> StreamModel<T> {
        StreamModel {
            mode: self.mode,
            entry_size: self.entry_size as nat,
            until: self.until as nat,
            stage: self.stage,
            entries: self.entries@,
        }
    }
}

impl<T> StreamIn<T> {
    /// Starts a stream of `until_entry` entries of `entry_size` bytes each.
    pub fn new(direction: StreamFlow, until_entry: i64, entry_size: u64) -> (r: Result<
        StreamIn<T>,
        StreamError,
    >)
        ensures
            entry_size == 0 <==> r is Err,
            r matches Ok(s) ==> s@ == initial_model::<T>(direction, until_entry as int, entry_size as nat)
                && s@.wf(),
    {
        if entry_size == 0 {
            return Err(StreamError::ZeroEntrySize);
        }
        let until: u64 = if until_entry <= 0 {
            0
        } else {
            until_entry as u64
        };
        let backward = match direction {
            StreamFlow::Backward => entry_size.checked_mul(until).is_some(),
            StreamFlow::Forward => false,
        };
        let s = StreamIn {
            mode: if backward {
                StreamFlow::Backward
            } else {
                StreamFlow::Forward
            },
            entry_size,
            until,
            stage: if until == 0 {
                Stage::Done
            } else if backward {
                Stage::Probe
            } else {
                Stage::Read
            },
            entries: Vec::new(),
        };
        Ok(s)
    }

    /// What the holder of the file does next.
    pub fn action(&self) -> (r: StreamAction)
        requires
            self@.wf(),
        ensures
            r == self@.action(),
    {
        match self.stage {
            Stage::Done => StreamAction::Finish,
            Stage::Probe => StreamAction::Probe(self.entry_size * self.until),
            Stage::Read => {
                let index = self.entries.len() as u64;
                match self.mode {
                    StreamFlow::Backward => {
                        proof {
                            assert(self.entry_size * (self.until - index) <= self.entry_size
                                * self.until) by (nonlinear_arith)
                                requires
                                    index <= self.until,
                            ;
                        }
                        StreamAction::Read(
                            SeekTarget::End(self.entry_size * (self.until - index)),
                        )
                    },
                    StreamFlow::Forward => StreamAction::Read(
                        SeekTarget::Start(self.entry_size * index),
                    ),
                }
            },
        }
    }

    /// Reports whether the probe's seek worked.
    pub fn probed(&mut self, fits: bool)
        requires
            old(self)@.wf(),
            old(self)@.stage == Stage::Probe,
        ensures
            final(self)@ == probed_model(old(self)@, fits),
            final(self)@.wf(),
    {
        self.mode = if fits {
            StreamFlow::Backward
        } else {
            StreamFlow::Forward
        };
        self.stage = Stage::Read;
    }

    /// Reports the entry that was read at the last target, or that none
    /// could be read there.
    pub fn record(&mut self, entry: Option<T>)
        requires
            old(self)@.wf(),
            old(self)@.stage == Stage::Read,
        ensures
            final(self)@ == recorded_model(old(self)@, entry),
            final(self)@.wf(),
            final(self)@.steps_left() < old(self)@.steps_left(),
    {
        match entry {
            None => {
                self.stage = Stage::Done;
            },
            Some(v) => {
                self.entries.push(v);
                let count = self.entries.len() as u64;
                let over = count >= self.until || match self.mode {
                    StreamFlow::Forward => self.entry_size.checked_mul(count).is_none(),
                    StreamFlow::Backward => false,
                };
                if over {
                    self.stage = Stage::Done;
                }
            },
        }
    }

    /// The entries read, in the order read.
    pub fn into_entries(self) -> (r: Vec<T>)
        ensures
            r@ == self@.entries,
    {
        self.entries
    }
}

} // verus!
