//! In-memory implementations of the capability interfaces.
//!
//! Each one records every operation it accepts, and the bus and pin can be
//! told to reject their n-th operation, so a test can observe exactly what
//! the controller transmitted and how it behaves when an underlying write
//! fails partway through a sequence.

use vstd::prelude::*;

use crate::ports::ControlPin;
use crate::ports::Delayer;
use crate::ports::SerialBus;

verus! {

/// Serial sink that keeps every accepted byte run and optionally rejects
/// the n-th write (counting from zero).
pub struct RecordingBus {
    writes: Vec<Vec<u8>>,
    fail_at: Option<usize>,
}

impl RecordingBus {
    /// A bus that accepts every write.
    pub fn new() -> (r: RecordingBus)
        ensures
            r.frames() == Seq::<Seq<u8>>::empty(),
    {
        let r = RecordingBus { writes: Vec::new(), fail_at: None };
        proof {
            assert(r.frames() =~= Seq::<Seq<u8>>::empty());
        }
        r
    }

    /// A bus that rejects its `n`-th write and accepts every other one.
    pub fn failing_at(n: usize) -> (r: RecordingBus)
        ensures
            r.frames() == Seq::<Seq<u8>>::empty(),
    {
        let r = RecordingBus { writes: Vec::new(), fail_at: Some(n) };
        proof {
            assert(r.frames() =~= Seq::<Seq<u8>>::empty());
        }
        r
    }

    /// The accepted byte runs, oldest first.
    pub fn writes(&self) -> (r: &Vec<Vec<u8>>)
        ensures
            r@.map_values(|w: Vec<u8>| w@) == self.frames(),
    {
        &self.writes
    }
}

impl SerialBus for RecordingBus {
    type BusError = ();

    closed spec fn frames(&self) -> Seq<Seq<u8>> {
        self.writes@.map_values(|w: Vec<u8>| w@)
    }

    fn write(&mut self, bytes: &[u8]) -> (r: Result<(), ()>) {
        let due = match self.fail_at {
            Some(n) => n == self.writes.len(),
            None => false,
        };
        if due {
            Err(())
        } else {
            let run: Vec<u8> = vstd::slice::slice_to_vec(bytes);
            self.writes.push(run);
            proof {
                assert(self.frames() =~= old(self).frames().push(bytes@));
            }
            Ok(())
        }
    }
}

/// Binary output line that keeps every level successfully driven and
/// optionally rejects the n-th level change (counting from zero).
pub struct RecordingPin {
    driven: Vec<bool>,
    fail_at: Option<usize>,
}

impl RecordingPin {
    /// A line that accepts every level change.
    pub fn new() -> (r: RecordingPin)
        ensures
            r.levels() == Seq::<bool>::empty(),
    {
        RecordingPin { driven: Vec::new(), fail_at: None }
    }

    /// A line that rejects its `n`-th level change and accepts every other.
    pub fn failing_at(n: usize) -> (r: RecordingPin)
        ensures
            r.levels() == Seq::<bool>::empty(),
    {
        RecordingPin { driven: Vec::new(), fail_at: Some(n) }
    }

    /// The driven levels, oldest first.
    pub fn driven(&self) -> (r: &Vec<bool>)
        ensures
            r@ == self.levels(),
    {
        &self.driven
    }

    fn drive(&mut self, level: bool) -> (r: Result<(), ()>)
        ensures
            r is Ok ==> final(self).levels() == old(self).levels().push(level),
            r is Err ==> final(self).levels() == old(self).levels(),
    {
        let due = match self.fail_at {
            Some(n) => n == self.driven.len(),
            None => false,
        };
        if due {
            Err(())
        } else {
            self.driven.push(level);
            Ok(())
        }
    }
}

impl ControlPin for RecordingPin {
    type PinError = ();

    closed spec fn levels(&self) -> Seq<bool> {
        self.driven@
    }

    fn set_low(&mut self) -> (r: Result<(), ()>) {
        self.drive(false)
    }

    fn set_high(&mut self) -> (r: Result<(), ()>) {
        self.drive(true)
    }
}

/// Delay source that only records the requested waits.
pub struct RecordingDelay {
    waits: Vec<u32>,
}

impl RecordingDelay {
    /// A delay source with an empty record.
    pub fn new() -> (r: RecordingDelay)
        ensures
            r.waited() == Seq::<u32>::empty(),
    {
        RecordingDelay { waits: Vec::new() }
    }

    /// The requested waits in microseconds, oldest first.
    pub fn waits(&self) -> (r: &Vec<u32>)
        ensures
            r@ == self.waited(),
    {
        &self.waits
    }
}

impl Delayer for RecordingDelay {
    closed spec fn waited(&self) -> Seq<u32> {
        self.waits@
    }

    fn delay_us(&mut self, us: u32) {
        self.waits.push(us);
    }
}

} // verus!
