//! The capabilities the transmitter drives — a digital output sink and a
//! blocking timing source — and an in-memory double of them. The two
//! capabilities stand behind one trait so that everything the transmitter
//! does is a single ordered trace, and the contracts can speak of how the
//! output's level changes interleave with the delays.

use vstd::prelude::*;
use crate::events::Event;

verus! {

/// Raised by a port when the digital output cannot be driven to the
/// requested level (a hardware fault).
#[derive(Clone, Copy, Debug, PartialEq, Eq, Structural)]
pub struct SinkError;

/// What the transmitter needs from its surroundings: a digital output that
/// can be asserted and deasserted, either of which may fail, and a blocking
/// millisecond timer, which cannot.
///
/// `log` is the abstract trace of actions the port has performed so far;
/// each method states how one call extends it. `always_succeeds` marks ports
/// on which the output never fails (an in-memory double, say): on such a
/// port every operation is owed success.
pub trait Port {
    /// The actions performed so far, oldest first.
    spec fn log(&self) -> Seq<Event>;

    /// Whether every operation on this port is guaranteed to succeed.
    spec fn always_succeeds(&self) -> bool;

    /// Drive the output to its active level.
    fn set_active(&mut self) -> (r: Result<(), SinkError>)
        ensures
            r is Ok ==> final(self).log() == old(self).log().push(Event::Assert),
            r is Err ==> final(self).log() == old(self).log(),
            old(self).always_succeeds() ==> r is Ok && final(self).always_succeeds(),
    ;

    /// Drive the output to its inactive level.
    fn set_inactive(&mut self) -> (r: Result<(), SinkError>)
        ensures
            r is Ok ==> final(self).log() == old(self).log().push(Event::Deassert),
            r is Err ==> final(self).log() == old(self).log(),
            old(self).always_succeeds() ==> r is Ok && final(self).always_succeeds(),
    ;

    /// Block for at least `ms` milliseconds.
    fn delay_ms(&mut self, ms: u16)
        ensures
            final(self).log() == old(self).log().push(Event::Delay(ms)),
            old(self).always_succeeds() ==> final(self).always_succeeds(),
    ;
}

/// An in-memory double of the hardware: it records every action instead of
/// performing it, and can be told to fail a chosen level change, so a
/// transmission can be replayed and inspected.
pub struct RecordingPort {
    events: Vec<Event>,
    asserts_before_failure: Option<u64>,
    deasserts_before_failure: Option<u64>,
}

impl RecordingPort {
    /// How many more asserts succeed before one fails; `None` if none ever
    /// fails.
    pub closed spec fn assert_failure(&self) -> Option<u64> {
        self.asserts_before_failure
    }

    /// How many more deasserts succeed before one fails; `None` if none
    /// ever fails.
    pub closed spec fn deassert_failure(&self) -> Option<u64> {
        self.deasserts_before_failure
    }

    /// A port on which every operation succeeds.
    pub fn new() -> (r: RecordingPort)
        ensures
            r.log() == Seq::<Event>::empty(),
            r.always_succeeds(),
    {
        RecordingPort {
            events: Vec::new(),
            asserts_before_failure: None,
            deasserts_before_failure: None,
        }
    }

    /// A port whose `set_active` fails once `n` asserts have succeeded;
    /// everything else succeeds.
    pub fn failing_on_assert(n: u64) -> (r: RecordingPort)
        ensures
            r.log() == Seq::<Event>::empty(),
            r.assert_failure() == Some(n),
            r.deassert_failure() is None,
    {
        RecordingPort {
            events: Vec::new(),
            asserts_before_failure: Some(n),
            deasserts_before_failure: None,
        }
    }

    /// A port whose `set_inactive` fails once `n` deasserts have succeeded;
    /// everything else succeeds.
    pub fn failing_on_deassert(n: u64) -> (r: RecordingPort)
        ensures
            r.log() == Seq::<Event>::empty(),
            r.assert_failure() is None,
            r.deassert_failure() == Some(n),
    {
        RecordingPort {
            events: Vec::new(),
            asserts_before_failure: None,
            deasserts_before_failure: Some(n),
        }
    }

    /// The recorded actions, oldest first.
    pub fn events(&self) -> (r: &Vec<Event>)
        ensures
            r@ == self.log(),
    {
        &self.events
    }
}

impl Port for RecordingPort {
    closed spec fn log(&self) -> Seq<Event> {
        self.events@
    }

    closed spec fn always_succeeds(&self) -> bool {
        self.asserts_before_failure is None && self.deasserts_before_failure is None
    }

    fn set_active(&mut self) -> (r: Result<(), SinkError>)
        ensures
            final(self).deassert_failure() == old(self).deassert_failure(),
            old(self).assert_failure() is None ==> r is Ok
                && final(self).assert_failure() is None,
            old(self).assert_failure() == Some(0u64) ==> r is Err
                && final(self).assert_failure() == Some(0u64),
            old(self).assert_failure() matches Some(k) ==> (k > 0 ==> r is Ok
                && final(self).assert_failure() == Some((k - 1) as u64)),
    {
        if let Some(k) = self.asserts_before_failure {
            if k == 0 {
                return Err(SinkError);
            }
            self.asserts_before_failure = Some(k - 1);
        }
        self.events.push(Event::Assert);
        Ok(())
    }

    fn set_inactive(&mut self) -> (r: Result<(), SinkError>)
        ensures
            final(self).assert_failure() == old(self).assert_failure(),
            old(self).deassert_failure() is None ==> r is Ok
                && final(self).deassert_failure() is None,
            old(self).deassert_failure() == Some(0u64) ==> r is Err
                && final(self).deassert_failure() == Some(0u64),
            old(self).deassert_failure() matches Some(k) ==> (k > 0 ==> r is Ok
                && final(self).deassert_failure() == Some((k - 1) as u64)),
    {
        if let Some(k) = self.deasserts_before_failure {
            if k == 0 {
                return Err(SinkError);
            }
            self.deasserts_before_failure = Some(k - 1);
        }
        self.events.push(Event::Deassert);
        Ok(())
    }

    fn delay_ms(&mut self, ms: u16)
        ensures
            final(self).assert_failure() == old(self).assert_failure(),
            final(self).deassert_failure() == old(self).deassert_failure(),
    {
        self.events.push(Event::Delay(ms));
    }
}

} // verus!
