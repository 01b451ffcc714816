//! The tone patterns of the ringer: which tone plays, at what pitch, and
//! how it alternates between sound and silence.

use vstd::prelude::*;

verus! {

#[derive(Debug, Clone, Copy, PartialEq, Eq, Structural)]
pub enum RingTone {
    /// The tone of an incoming call.
    Incoming,
    /// The ringback tone of an outgoing call.
    Ringback,
}

/// The pitch of a tone in hertz.
pub open spec fn frequency_spec(tone: RingTone) -> u32 {
    match tone {
        RingTone::Incoming => 440,
        RingTone::Ringback => 425,
    }
}

/// The lengths in milliseconds of the steps of a tone's pattern; even
/// steps sound, odd steps are silent.
pub open spec fn cadence_spec(tone: RingTone) -> Seq<u32> {
    match tone {
        RingTone::Incoming => seq![400u32, 200, 400, 2000],
        RingTone::Ringback => seq![1000u32, 3000],
    }
}

/// Incoming calls ring at 440 Hz, ringback plays at 425 Hz.
pub fn frequency_hz(tone: RingTone) -> (f: u32)
    ensures
        f == frequency_spec(tone),
{
    match tone {
        RingTone::Incoming => 440,
        RingTone::Ringback => 425,
    }
}

/// Incoming: 0.4 s on, 0.2 s off, 0.4 s on, 2 s off. Ringback: 1 s on, 3 s off.
pub fn cadence_ms(tone: RingTone) -> (c: Vec<u32>)
    ensures
        c@ == cadence_spec(tone),
{
    match tone {
        RingTone::Incoming => {
            let c: Vec<u32> = vec![400, 200, 400, 2000];
            assert(c@ =~= cadence_spec(tone));
            c
        },
        RingTone::Ringback => {
            let c: Vec<u32> = vec![1000, 3000];
            assert(c@ =~= cadence_spec(tone));
            c
        },
    }
}

/// Where a ringer is in its pattern.
pub struct Cadence {
    steps: Vec<u32>,
    step: usize,
}

impl Cadence {
    /// The pattern of the ringer.
    pub closed spec fn steps(&self) -> Seq<u32> {
        self.steps@
    }

    /// The step that plays now.
    pub closed spec fn step(&self) -> nat {
        self.step as nat
    }

    /// The pattern is not empty and the current step lies in it.
    #[verifier::type_invariant]
    spec fn wf(&self) -> bool {
        self.steps@.len() > 0 && self.step < self.steps@.len()
    }

    /// A pattern that starts, sounding, at its first step.
    pub fn new(tone: RingTone) -> (c: Cadence)
        ensures
            c.steps() == cadence_spec(tone),
            c.step() == 0,
    {
        Cadence { steps: cadence_ms(tone), step: 0 }
    }

    /// How long the current step lasts, in milliseconds.
    pub fn delay_ms(&self) -> (d: u32)
        ensures
            self.step() < self.steps().len(),
            d == self.steps()[self.step() as int],
    {
        proof { use_type_invariant(self); }
        self.steps[self.step]
    }

    /// Moves to the next step, back to the first after the last; returns
    /// whether the new step sounds.
    pub fn advance(&mut self) -> (audible: bool)
        ensures
            final(self).steps() == old(self).steps(),
            final(self).step() == (old(self).step() + 1) % old(self).steps().len(),
            audible == (final(self).step() % 2 == 0),
    {
        proof { use_type_invariant(&*self); }
        let len = self.steps.len();
        let next = if self.step + 1 < len { self.step + 1 } else { 0 };
        proof {
            if self.step + 1 < len {
                vstd::arithmetic::div_mod::lemma_small_mod((self.step + 1) as nat, len as nat);
            } else {
                vstd::arithmetic::div_mod::lemma_mod_self_0(len as int);
            }
        }
        self.step = next;
        next % 2 == 0
    }
}

} // verus!
