//! The mathematical model of a transmission: the sequence of observable
//! actions (output level changes and blocking delays) that rendering a
//! Morse-coded message must produce.

use vstd::prelude::*;

verus! {

/// The base time unit of the encoding, in milliseconds.
pub const UNIT_MS: u16 = 200;

/// How long the output stays asserted for a dot: one base unit.
pub const DOT_MS: u16 = 200;

/// How long the output stays asserted for a dash: three base units.
pub const DASH_MS: u16 = 600;

/// The gap rendered for a `' '` character (gap between letters): two and a
/// half base units.
pub const LETTER_GAP_MS: u16 = 500;

/// The gap rendered for a `'/'` character (gap between words): five base
/// units.
pub const WORD_GAP_MS: u16 = 1000;

/// The pause appended after every character, whatever it was: one base unit.
pub const PAUSE_MS: u16 = 200;

/// One observable action of a transmission: the output is driven to its
/// active level, driven to its inactive level, or left alone while the given
/// number of milliseconds elapses.
#[derive(Clone, Copy, Debug, PartialEq, Eq, Structural)]
pub enum Event {
    Assert,
    Deassert,
    Delay(u16),
}

/// The characters that drive the output: a dot or a dash. Every other
/// character leaves the output level alone.
pub open spec fn is_signal(c: char) -> bool {
    c == '.' || c == '-'
}

/// The actions a single character must produce, its trailing inter-element
/// pause included. A character outside the alphabet produces only the pause.
pub open spec fn char_events(c: char) -> Seq<Event> {
    if c == '.' {
        seq![Event::Assert, Event::Delay(DOT_MS), Event::Deassert, Event::Delay(PAUSE_MS)]
    } else if c == '-' {
        seq![Event::Assert, Event::Delay(DASH_MS), Event::Deassert, Event::Delay(PAUSE_MS)]
    } else if c == ' ' {
        seq![Event::Delay(LETTER_GAP_MS), Event::Delay(PAUSE_MS)]
    } else if c == '/' {
        seq![Event::Delay(WORD_GAP_MS), Event::Delay(PAUSE_MS)]
    } else {
        seq![Event::Delay(PAUSE_MS)]
    }
}

/// The actions a whole message must produce: each character's actions in
/// message order, with nothing in between.
pub open spec fn message_events(s: Seq<char>) -> Seq<Event>
    decreases s.len(),
{
    if s.len() == 0 {
        Seq::empty()
    } else {
        message_events(s.drop_last()) + char_events(s.last())
    }
}

/// How many of the events drive the output to its active level.
pub open spec fn count_asserts(es: Seq<Event>) -> int
    decreases es.len(),
{
    if es.len() == 0 {
        0
    } else if es.last() is Assert {
        count_asserts(es.drop_last()) + 1
    } else {
        count_asserts(es.drop_last())
    }
}

/// How many of the events drive the output to its inactive level.
pub open spec fn count_deasserts(es: Seq<Event>) -> int
    decreases es.len(),
{
    if es.len() == 0 {
        0
    } else if es.last() is Deassert {
        count_deasserts(es.drop_last()) + 1
    } else {
        count_deasserts(es.drop_last())
    }
}

/// How many dot and dash characters the message holds.
pub open spec fn count_signals(s: Seq<char>) -> int
    decreases s.len(),
{
    if s.len() == 0 {
        0
    } else if is_signal(s.last()) {
        count_signals(s.drop_last()) + 1
    } else {
        count_signals(s.drop_last())
    }
}

/// The milliseconds one event lets elapse.
pub open spec fn event_delay(e: Event) -> int {
    match e {
        Event::Delay(ms) => ms as int,
        _ => 0,
    }
}

/// The total milliseconds a sequence of events lets elapse.
pub open spec fn total_delay(es: Seq<Event>) -> int
    decreases es.len(),
{
    if es.len() == 0 {
        0
    } else {
        total_delay(es.drop_last()) + event_delay(es.last())
    }
}

/// The milliseconds one character's transmission lets elapse: the
/// character's own time plus the inter-element pause.
pub open spec fn char_duration(c: char) -> int {
    if c == '.' {
        DOT_MS + PAUSE_MS
    } else if c == '-' {
        DASH_MS + PAUSE_MS
    } else if c == ' ' {
        LETTER_GAP_MS + PAUSE_MS
    } else if c == '/' {
        WORD_GAP_MS + PAUSE_MS
    } else {
        PAUSE_MS as int
    }
}

/// The milliseconds a whole message's transmission lets elapse.
pub open spec fn message_duration(s: Seq<char>) -> int
    decreases s.len(),
{
    if s.len() == 0 {
        0
    } else {
        message_duration(s.drop_last()) + char_duration(s.last())
    }
}

/// The output level (`true` is asserted) after the events have run, starting
/// from the given level.
pub open spec fn level_after(start: bool, es: Seq<Event>) -> bool
    decreases es.len(),
{
    if es.len() == 0 {
        start
    } else {
        match es.last() {
            Event::Assert => true,
            Event::Deassert => false,
            Event::Delay(_) => level_after(start, es.drop_last()),
        }
    }
}

/// The durations are fixed multiples of one base unit: a dot and the
/// inter-element pause are one unit, a dash three, a word gap five, and the
/// letter gap five halves. These ratios must not drift.
pub proof fn lemma_timing_ratios()
    ensures
        DOT_MS == UNIT_MS,
        PAUSE_MS == UNIT_MS,
        DASH_MS == 3 * UNIT_MS,
        WORD_GAP_MS == 5 * UNIT_MS,
        2 * LETTER_GAP_MS == 5 * UNIT_MS,
{
}

/// Transmitting a concatenation is transmitting both parts back to back:
/// nothing stands between two adjacent characters' actions beyond each
/// character's own trailing pause.
pub proof fn lemma_message_events_concat(a: Seq<char>, b: Seq<char>)
    ensures
        message_events(a + b) == message_events(a) + message_events(b),
    decreases b.len(),
{
    if b.len() == 0 {
        assert(a + b =~= a);
        assert(message_events(a) + message_events(b) =~= message_events(a));
    } else {
        lemma_message_events_concat(a, b.drop_last());
        assert((a + b).drop_last() =~= a + b.drop_last());
        assert((a + b).last() == b.last());
        assert(message_events(a) + (message_events(b.drop_last()) + char_events(b.last()))
            =~= (message_events(a) + message_events(b.drop_last())) + char_events(b.last()));
    }
}

/// Counting level changes, and summing delays, distributes over
/// concatenation of event sequences.
pub proof fn lemma_counts_concat(a: Seq<Event>, b: Seq<Event>)
    ensures
        count_asserts(a + b) == count_asserts(a) + count_asserts(b),
        count_deasserts(a + b) == count_deasserts(a) + count_deasserts(b),
        total_delay(a + b) == total_delay(a) + total_delay(b),
    decreases b.len(),
{
    if b.len() == 0 {
        assert(a + b =~= a);
    } else {
        lemma_counts_concat(a, b.drop_last());
        assert((a + b).drop_last() =~= a + b.drop_last());
        assert((a + b).last() == b.last());
    }
}

/// Appending one event to a sequence changes each count by exactly that
/// event's contribution.
pub proof fn lemma_counts_push(es: Seq<Event>, e: Event)
    ensures
        count_asserts(es.push(e)) == count_asserts(es) + if e is Assert { 1int } else { 0int },
        count_deasserts(es.push(e)) == count_deasserts(es) + if e is Deassert { 1int } else { 0int },
        total_delay(es.push(e)) == total_delay(es) + event_delay(e),
{
    assert(es.push(e).drop_last() =~= es);
    assert(es.push(e).last() == e);
}

/// A single character's actions assert exactly once and deassert exactly
/// once when it is a dot or dash, and never otherwise; and they let elapse
/// the character's own time plus the inter-element pause.
pub proof fn lemma_char_counts(c: char)
    ensures
        count_asserts(char_events(c)) == if is_signal(c) { 1int } else { 0int },
        count_deasserts(char_events(c)) == if is_signal(c) { 1int } else { 0int },
        total_delay(char_events(c)) == char_duration(c),
{
    let s0 = Seq::<Event>::empty();
    if is_signal(c) {
        let on = Event::Delay(if c == '.' { DOT_MS } else { DASH_MS });
        let s1 = s0.push(Event::Assert);
        let s2 = s1.push(on);
        let s3 = s2.push(Event::Deassert);
        let s4 = s3.push(Event::Delay(PAUSE_MS));
        lemma_counts_push(s0, Event::Assert);
        lemma_counts_push(s1, on);
        lemma_counts_push(s2, Event::Deassert);
        lemma_counts_push(s3, Event::Delay(PAUSE_MS));
        assert(char_events(c) =~= s4);
    } else if c == ' ' || c == '/' {
        let gap = Event::Delay(if c == ' ' { LETTER_GAP_MS } else { WORD_GAP_MS });
        let s1 = s0.push(gap);
        let s2 = s1.push(Event::Delay(PAUSE_MS));
        lemma_counts_push(s0, gap);
        lemma_counts_push(s1, Event::Delay(PAUSE_MS));
        assert(char_events(c) =~= s2);
    } else {
        let s1 = s0.push(Event::Delay(PAUSE_MS));
        lemma_counts_push(s0, Event::Delay(PAUSE_MS));
        assert(char_events(c) =~= s1);
    }
}

/// A message's actions assert the output exactly once, and deassert it
/// exactly once, for each dot or dash character, and never for any other
/// character.
pub proof fn lemma_signal_pairs(s: Seq<char>)
    ensures
        count_asserts(message_events(s)) == count_signals(s),
        count_deasserts(message_events(s)) == count_signals(s),
    decreases s.len(),
{
    if s.len() != 0 {
        lemma_signal_pairs(s.drop_last());
        lemma_counts_concat(message_events(s.drop_last()), char_events(s.last()));
        lemma_char_counts(s.last());
    }
}

/// A message's actions let elapse exactly the sum of its characters'
/// durations: transmission time is a function of the message alone.
pub proof fn lemma_message_duration(s: Seq<char>)
    ensures
        total_delay(message_events(s)) == message_duration(s),
    decreases s.len(),
{
    if s.len() != 0 {
        lemma_message_duration(s.drop_last());
        lemma_counts_concat(message_events(s.drop_last()), char_events(s.last()));
        lemma_char_counts(s.last());
    }
}

/// A dot or dash returns the output to its inactive level before its pause;
/// any other character leaves the level where it stood.
pub proof fn lemma_char_level(start: bool, c: char)
    ensures
        level_after(start, char_events(c)) == if is_signal(c) { false } else { start },
{
    reveal_with_fuel(level_after, 5);
    let s0 = Seq::<Event>::empty();
    if is_signal(c) {
        let on = Event::Delay(if c == '.' { DOT_MS } else { DASH_MS });
        let s1 = s0.push(Event::Assert);
        let s2 = s1.push(on);
        let s3 = s2.push(Event::Deassert);
        let s4 = s3.push(Event::Delay(PAUSE_MS));
        assert(s4.drop_last() =~= s3);
        assert(s4.last() == Event::Delay(PAUSE_MS));
        assert(s3.last() == Event::Deassert);
        assert(level_after(start, s4) == false);
        assert(char_events(c) =~= s4);
    } else if c == ' ' || c == '/' {
        let gap = Event::Delay(if c == ' ' { LETTER_GAP_MS } else { WORD_GAP_MS });
        let s1 = s0.push(gap);
        let s2 = s1.push(Event::Delay(PAUSE_MS));
        assert(s2.drop_last() =~= s1);
        assert(s2.last() == Event::Delay(PAUSE_MS));
        assert(s1.drop_last() =~= s0);
        assert(s1.last() == gap);
        assert(level_after(start, s2) == start);
        assert(char_events(c) =~= s2);
    } else {
        let s1 = s0.push(Event::Delay(PAUSE_MS));
        assert(s1.drop_last() =~= s0);
        assert(s1.last() == Event::Delay(PAUSE_MS));
        assert(level_after(start, s1) == start);
        assert(char_events(c) =~= s1);
    }
}

/// The output level after a run of events splits at any seam.
pub proof fn lemma_level_concat(start: bool, a: Seq<Event>, b: Seq<Event>)
    ensures
        level_after(start, a + b) == level_after(level_after(start, a), b),
    decreases b.len(),
{
    if b.len() == 0 {
        assert(a + b =~= a);
    } else {
        lemma_level_concat(start, a, b.drop_last());
        assert((a + b).drop_last() =~= a + b.drop_last());
        assert((a + b).last() == b.last());
    }
}

/// A deasserted output stays deasserted across every whole character: a dot
/// or dash returns the level to inactive before the next character begins,
/// and no other character touches it.
pub proof fn lemma_message_leaves_output_deasserted(s: Seq<char>)
    ensures
        level_after(false, message_events(s)) == false,
    decreases s.len(),
{
    if s.len() != 0 {
        lemma_message_leaves_output_deasserted(s.drop_last());
        lemma_level_concat(false, message_events(s.drop_last()), char_events(s.last()));
        lemma_char_level(false, s.last());
    }
}

} // verus!
