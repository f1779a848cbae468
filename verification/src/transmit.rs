//! The transmitter: a straight-line fold over the message that drives a
//! port through the waveform the model in `events` prescribes.

use vstd::prelude::*;
use crate::events::{
    Event, char_events, count_asserts, count_deasserts, count_signals, is_signal,
    lemma_counts_concat, lemma_signal_pairs, message_events,
    DASH_MS, DOT_MS, LETTER_GAP_MS, PAUSE_MS, WORD_GAP_MS,
};
use crate::port::{Port, SinkError};

verus! {

/// The one failure the transmitter can report: the output sink refused to
/// change level. The port's own error is absorbed into this uniform kind.
#[derive(Clone, Copy, Debug, PartialEq, Eq, Structural)]
pub enum TransmitError {
    SinkError,
}

/// The actions left behind by a dot or dash whose closing deassert failed:
/// the assert and the asserted-time delay went out, nothing more.
pub open spec fn interrupted_signal_events(c: char) -> Seq<Event> {
    if c == '.' {
        seq![Event::Assert, Event::Delay(DOT_MS)]
    } else if c == '-' {
        seq![Event::Assert, Event::Delay(DASH_MS)]
    } else {
        Seq::empty()
    }
}

/// Render one character on the port: a dot or dash as an assert, a timed
/// delay and a deassert, a letter or word gap as its delay alone, any other
/// character as nothing; then the unconditional inter-element pause.
///
/// Only a dot or dash can fail, and a failed level change leaves the port's
/// log either untouched or holding the interrupted signal's first half.
pub fn transmit_char<P: Port>(port: &mut P, c: char) -> (r: Result<(), TransmitError>)
    ensures
        r is Ok ==> final(port).log() == old(port).log() + char_events(c),
        r is Err ==> is_signal(c) && (final(port).log() == old(port).log()
            || final(port).log() == old(port).log() + interrupted_signal_events(c)),
        old(port).always_succeeds() ==> r is Ok && final(port).always_succeeds(),
        !is_signal(c) ==> r is Ok,
{
    if c == '.' || c == '-' {
        let on_ms: u16 = if c == '.' { DOT_MS } else { DASH_MS };
        if port.set_active().is_err() {
            return Err(TransmitError::SinkError);
        }
        port.delay_ms(on_ms);
        if port.set_inactive().is_err() {
            proof {
                assert(port.log() =~= old(port).log() + interrupted_signal_events(c));
            }
            return Err(TransmitError::SinkError);
        }
    } else if c == ' ' {
        port.delay_ms(LETTER_GAP_MS);
    } else if c == '/' {
        port.delay_ms(WORD_GAP_MS);
    }
    port.delay_ms(PAUSE_MS);
    proof {
        assert(port.log() =~= old(port).log() + char_events(c));
    }
    Ok(())
}

/// Transmit a pre-encoded message, character by character and in order.
///
/// On success the port has performed exactly the message's waveform,
/// `message_events`, appended to whatever it had done before. On a sink
/// failure the transmission stops at the failing dot or dash: the port has
/// performed the waveform of some proper prefix of the message, plus at most
/// the interrupted signal's first half, and nothing of any later character.
/// A port that never fails, and any message free of dots and dashes, is owed
/// success.
pub fn transmit<P: Port>(port: &mut P, message: &str) -> (r: Result<(), TransmitError>)
    ensures
        r is Ok ==> final(port).log() == old(port).log() + message_events(message@),
        r is Err ==> exists|i: int|
            0 <= i < message@.len() && is_signal(#[trigger] message@[i])
            && (final(port).log() == old(port).log() + message_events(message@.take(i))
                || final(port).log() == old(port).log() + message_events(message@.take(i))
                    + interrupted_signal_events(message@[i])),
        old(port).always_succeeds() ==> r is Ok && final(port).always_succeeds(),
        (forall|i: int| 0 <= i < message@.len() ==> !is_signal(#[trigger] message@[i])) ==> r is Ok,
{
    let len: usize = message.unicode_len();
    let mut idx: usize = 0;
    while idx < len
        invariant
            idx <= len,
            len == message@.len(),
            port.log() == old(port).log() + message_events(message@.take(idx as int)),
            old(port).always_succeeds() ==> port.always_succeeds(),
        decreases len - idx,
    {
        let c = message.get_char(idx);
        let ghost done = message@.take(idx as int);
        proof {
            assert(message@.take(idx as int + 1).drop_last() =~= done);
            assert(message@.take(idx as int + 1).last() == c);
        }
        match transmit_char(port, c) {
            Ok(()) => {},
            Err(e) => {
                proof {
                    assert(is_signal(message@[idx as int]));
                    assert(port.log() == old(port).log() + message_events(done)
                        || port.log() == old(port).log() + message_events(done)
                            + interrupted_signal_events(message@[idx as int]));
                }
                return Err(e);
            },
        }
        proof {
            assert(port.log() =~= old(port).log() + message_events(message@.take(idx as int + 1)));
        }
        idx = idx + 1;
    }
    proof {
        assert(message@.take(len as int) =~= message@);
    }
    Ok(())
}

/// Two successful transmissions of the same message append the same actions
/// to their ports' logs, whatever the ports were and whatever they had done
/// before: the waveform is a function of the message alone.
pub proof fn lemma_transmit_repeatable(
    pre1: Seq<Event>,
    post1: Seq<Event>,
    pre2: Seq<Event>,
    post2: Seq<Event>,
    msg: Seq<char>,
)
    requires
        post1 == pre1 + message_events(msg),
        post2 == pre2 + message_events(msg),
    ensures
        post1.skip(pre1.len() as int) == post2.skip(pre2.len() as int),
{
    assert(post1.skip(pre1.len() as int) =~= message_events(msg));
    assert(post2.skip(pre2.len() as int) =~= message_events(msg));
}

/// A successful transmission asserts the output exactly once, and deasserts
/// it exactly once, for each dot or dash of the message, and never for any
/// other character.
pub proof fn lemma_transmit_pairs(pre: Seq<Event>, post: Seq<Event>, msg: Seq<char>)
    requires
        post == pre + message_events(msg),
    ensures
        count_asserts(post) - count_asserts(pre) == count_signals(msg),
        count_deasserts(post) - count_deasserts(pre) == count_signals(msg),
{
    lemma_signal_pairs(msg);
    lemma_counts_concat(pre, message_events(msg));
}

} // verus!
