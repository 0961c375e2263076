//! The poll-step state machine: change detection and announce decisions.

use vstd::prelude::*;
use crate::selection::Selection;
use crate::text::trim;
use crate::text::trimmed;

verus! {

/// Options of a poller run.
pub struct Config {
    /// Delay between samples, in milliseconds.
    pub poll_interval_ms: u64,
    /// Which selection buffer the clipboard reader is asked for.
    pub selection: Selection,
    /// Whether non-empty content already present on the first sample is spoken.
    pub speak_on_startup: bool,
}

impl Default for Config {
    /// 300 ms interval, the clipboard buffer, and startup content not spoken.
    fn default() -> (c: Config)
        ensures
            c.poll_interval_ms == 300,
            c.selection == Selection::Clipboard,
            !c.speak_on_startup,
    {
        Config { poll_interval_ms: 300, selection: Selection::Clipboard, speak_on_startup: false }
    }
}

/// What one poll step asks the surrounding program to do.
pub struct Outcome {
    /// Terminate the announce subprocess that is still running.
    pub interrupt: bool,
    /// Start a new announce subprocess with this text.
    pub speak: Option<String>,
}

/// The first sample is recorded silently: the poller has not recorded a value
/// yet, startup content is not to be spoken, and the sample is non-empty.
pub open spec fn spec_suppress(sos: bool, first_done: bool, last: Seq<char>, t: Seq<char>) -> bool {
    !first_done && !sos && t.len() > 0 && last.len() == 0
}

/// A step announces its sample: not suppressed, changed, and non-empty.
pub open spec fn spec_speaks(sos: bool, first_done: bool, last: Seq<char>, t: Seq<char>) -> bool {
    !spec_suppress(sos, first_done, last, t) && t != last && t.len() > 0
}

/// A step interrupts the previous announce: not suppressed, changed, and an
/// announce subprocess exists and is still alive.
pub open spec fn spec_interrupts(
    sos: bool,
    first_done: bool,
    last: Seq<char>,
    t: Seq<char>,
    has: bool,
    alive: bool,
) -> bool {
    !spec_suppress(sos, first_done, last, t) && t != last && has && alive
}

/// Whether an announce handle exists after a step.
pub open spec fn spec_next_has(
    sos: bool,
    first_done: bool,
    last: Seq<char>,
    t: Seq<char>,
    has: bool,
) -> bool {
    if spec_suppress(sos, first_done, last, t) {
        has
    } else if t != last {
        t.len() > 0
    } else {
        has
    }
}

/// The poller's state across loop iterations.
///
/// `has_announce` is a single handle slot: the poller never holds more than
/// one announce subprocess, and a step that starts a new one first decides to
/// interrupt a previous one that is still alive (see
/// [`lemma_interrupt_before_speak`]).
pub struct Poller {
    /// Whether startup content is spoken (configuration, constant over a run).
    pub speak_on_startup: bool,
    /// The most recently recorded trimmed sample.
    pub last_seen: String,
    /// Whether at least one sample has been taken.
    pub first_done: bool,
    /// Whether an announce subprocess handle exists (alive or exited).
    pub has_announce: bool,
}

impl Poller {
    /// A fresh poller: nothing recorded, no announce handle.
    pub fn new(speak_on_startup: bool) -> (p: Poller)
        ensures
            p.speak_on_startup == speak_on_startup,
            p.last_seen@ == Seq::<char>::empty(),
            !p.first_done,
            !p.has_announce,
    {
        Poller { speak_on_startup, last_seen: String::new(), first_done: false, has_announce: false }
    }

    /// One poll step.
    ///
    /// `raw` is the sample as read (it is trimmed here); `announce_alive`
    /// reports whether the announce subprocess of the current handle, if any,
    /// is still running.  The returned [`Outcome`] tells the surrounding loop
    /// what to do; the recorded value always becomes the trimmed sample.
    pub fn step(&mut self, raw: &str, announce_alive: bool) -> (o: Outcome)
        ensures
            o.interrupt == spec_interrupts(
                old(self).speak_on_startup,
                old(self).first_done,
                old(self).last_seen@,
                trimmed(raw@),
                old(self).has_announce,
                announce_alive,
            ),
            (o.speak is Some) == spec_speaks(
                old(self).speak_on_startup,
                old(self).first_done,
                old(self).last_seen@,
                trimmed(raw@),
            ),
            o.speak matches Some(s) ==> s@ == trimmed(raw@),
            final(self).last_seen@ == trimmed(raw@),
            final(self).first_done,
            final(self).has_announce == spec_next_has(
                old(self).speak_on_startup,
                old(self).first_done,
                old(self).last_seen@,
                trimmed(raw@),
                old(self).has_announce,
            ),
            final(self).speak_on_startup == old(self).speak_on_startup,
    {
        let t: String = trim(raw);
        let suppress: bool = !self.first_done && !self.speak_on_startup
            && !t.as_str().is_empty() && self.last_seen.as_str().is_empty();
        let changed: bool = t != self.last_seen;
        let mut interrupt: bool = false;
        let mut speak: Option<String> = None;
        if !suppress && changed {
            if self.has_announce && announce_alive {
                interrupt = true;
            }
            if !t.as_str().is_empty() {
                speak = Some(t.clone());
                self.has_announce = true;
            } else {
                self.has_announce = false;
            }
        }
        self.last_seen = t;
        self.first_done = true;
        Outcome { interrupt, speak }
    }
}

/// How many of the trimmed samples in `samples`, taken in order from a state
/// with recorded value `last`, are announced.
pub open spec fn speak_count(
    sos: bool,
    first_done: bool,
    last: Seq<char>,
    samples: Seq<Seq<char>>,
) -> nat
    decreases samples.len(),
{
    if samples.len() == 0 {
        0
    } else {
        (if spec_speaks(sos, first_done, last, samples[0]) {
            1nat
        } else {
            0nat
        }) + speak_count(sos, true, samples[0], samples.drop_first())
    }
}

/// How many of the trimmed samples in `samples` are transitions to a
/// non-empty value different from the prior recorded value `recorded`.
pub open spec fn transition_count(recorded: Seq<char>, samples: Seq<Seq<char>>) -> nat
    decreases samples.len(),
{
    if samples.len() == 0 {
        0
    } else {
        (if samples[0] != recorded && samples[0].len() > 0 {
            1nat
        } else {
            0nat
        }) + transition_count(samples[0], samples.drop_first())
    }
}

/// Law: a sample whose trimmed text equals the recorded value causes nothing:
/// no announce, no interruption, and the announce handle is unchanged.
pub proof fn lemma_unchanged_sample_silent(
    sos: bool,
    first_done: bool,
    last: Seq<char>,
    t: Seq<char>,
    has: bool,
    alive: bool,
)
    requires
        t == last,
    ensures
        !spec_speaks(sos, first_done, last, t),
        !spec_interrupts(sos, first_done, last, t, has, alive),
        spec_next_has(sos, first_done, last, t, has) == has,
{
}

/// Law: a step that announces while an announce subprocess is alive first
/// interrupts it, so announces never overlap.
pub proof fn lemma_interrupt_before_speak(
    sos: bool,
    first_done: bool,
    last: Seq<char>,
    t: Seq<char>,
    has: bool,
    alive: bool,
)
    ensures
        spec_speaks(sos, first_done, last, t) && has && alive ==> spec_interrupts(
            sos,
            first_done,
            last,
            t,
            has,
            alive,
        ),
{
}

/// Once a sample has been taken, every announce is exactly a transition of
/// the recorded value to a different non-empty text.
pub proof fn lemma_speaks_after_first(sos: bool, last: Seq<char>, samples: Seq<Seq<char>>)
    ensures
        speak_count(sos, true, last, samples) == transition_count(last, samples),
    decreases samples.len(),
{
    if samples.len() > 0 {
        lemma_speaks_after_first(sos, samples[0], samples.drop_first());
    }
}

/// Law: over any run from a fresh state, the number of announces equals the
/// number of transitions of the recorded value to a different non-empty text,
/// minus the one suppressed when startup content is not spoken and the first
/// sample is non-empty.
pub proof fn lemma_speak_count_matches_transitions(sos: bool, samples: Seq<Seq<char>>)
    ensures
        speak_count(sos, false, Seq::<char>::empty(), samples) + (if !sos && samples.len() > 0
            && samples[0].len() > 0 {
            1nat
        } else {
            0nat
        }) == transition_count(Seq::<char>::empty(), samples),
{
    if samples.len() > 0 {
        let t0 = samples[0];
        if t0.len() == 0 {
            assert(t0 =~= Seq::<char>::empty());
        }
        lemma_speaks_after_first(sos, t0, samples.drop_first());
    }
}

/// After a sample has been recorded, repeating it any number of times
/// announces nothing.
pub proof fn lemma_repeated_sample_silent(sos: bool, t: Seq<char>, n: nat)
    ensures
        speak_count(sos, true, t, Seq::new(n, |i: int| t)) == 0,
    decreases n,
{
    if n > 0 {
        let samples = Seq::new(n, |i: int| t);
        assert(samples.drop_first() =~= Seq::new((n - 1) as nat, |i: int| t));
        lemma_repeated_sample_silent(sos, t, (n - 1) as nat);
    }
}

/// Law: sampling identical content `n` times behaves as sampling it once:
/// the announce count is the same, and the recorded value ends the same.
pub proof fn lemma_repetition_idempotent(
    sos: bool,
    first_done: bool,
    last: Seq<char>,
    t: Seq<char>,
    n: nat,
)
    requires
        n >= 1,
    ensures
        speak_count(sos, first_done, last, Seq::new(n, |i: int| t)) == speak_count(
            sos,
            first_done,
            last,
            Seq::new(1nat, |i: int| t),
        ),
{
    let many = Seq::new(n, |i: int| t);
    let once = Seq::new(1nat, |i: int| t);
    assert(many[0] == t && once[0] == t);
    assert(many.drop_first() =~= Seq::new((n - 1) as nat, |i: int| t));
    assert(once.drop_first() =~= Seq::new(0nat, |i: int| t));
    lemma_repeated_sample_silent(sos, t, (n - 1) as nat);
    lemma_repeated_sample_silent(sos, t, 0nat);
}

} // verus!
