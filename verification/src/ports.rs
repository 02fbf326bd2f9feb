//! Capability interfaces the controller is wired to.
//!
//! The transport is out of the driver's hands: callers supply a serial write
//! sink, two binary output lines (command/data select and reset) and a delay
//! source. Each interface carries a ghost trace of what it has accepted, so
//! the controller's contracts can state exactly which bytes, levels and
//! waits an operation produces. An implementation decides for itself when a
//! write fails; the contracts only pin down what each outcome means for the
//! trace.

use vstd::prelude::*;

verus! {

/// Half-duplex serial write sink (the bus the display chip listens on).
pub trait SerialBus: Sized {
    /// The error an implementation reports for a failed write.
    type BusError;

    /// Every byte run accepted so far, oldest first. The default body is
    /// never meaningful; a verifying implementation supplies its own.
    open spec fn frames(&self) -> Seq<Seq<u8>> {
        Seq::empty()
    }

    /// Writes one byte run. On success the run is appended to the trace;
    /// a failed write transmits nothing.
    fn write(&mut self, bytes: &[u8]) -> (r: Result<(), Self::BusError>)
        ensures
            r is Ok ==> final(self).frames() == old(self).frames().push(bytes@),
            r is Err ==> final(self).frames() == old(self).frames(),
    ;
}

/// Binary output line (command/data select or reset).
pub trait ControlPin: Sized {
    /// The error an implementation reports for a failed level change.
    type PinError;

    /// Every level successfully driven so far, oldest first. The default
    /// body is never meaningful; a verifying implementation supplies its own.
    open spec fn levels(&self) -> Seq<bool> {
        Seq::empty()
    }

    /// Drives the line low. On success `false` is appended to the trace;
    /// after a failure the trace records no new level.
    fn set_low(&mut self) -> (r: Result<(), Self::PinError>)
        ensures
            r is Ok ==> final(self).levels() == old(self).levels().push(false),
            r is Err ==> final(self).levels() == old(self).levels(),
    ;

    /// Drives the line high. On success `true` is appended to the trace;
    /// after a failure the trace records no new level.
    fn set_high(&mut self) -> (r: Result<(), Self::PinError>)
        ensures
            r is Ok ==> final(self).levels() == old(self).levels().push(true),
            r is Err ==> final(self).levels() == old(self).levels(),
    ;
}

/// Blocking time source used while pulsing the reset line.
pub trait Delayer: Sized {
    /// Every wait performed so far, in microseconds, oldest first. The
    /// default body is never meaningful; a verifying implementation supplies
    /// its own.
    open spec fn waited(&self) -> Seq<u32> {
        Seq::empty()
    }

    /// Blocks for at least `us` microseconds.
    fn delay_us(&mut self, us: u32)
        ensures
            final(self).waited() == old(self).waited().push(us),
    ;
}

} // verus!
