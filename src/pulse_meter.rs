//! Duty-cycle measurement from alternating edge-capture timestamps.

use vstd::prelude::*;

use crate::ring_buffer::{last_n, lemma_seq_sum_nonneg, seq_sum, RingBuffer};

verus! {

/// Number of recent samples that a meter averages.
pub const SAMPLE_WINDOW: usize = 32;

/// The edge that the capture unit is to sense next.
#[derive(Clone, Copy, Debug, PartialEq, Eq, Structural)]
pub enum Edge {
    Rising,
    Falling,
}

/// Clock prescaler of the capture timer.
#[derive(Clone, Copy, Debug, PartialEq, Eq, Structural)]
pub enum Prescaler {
    Direct,
    Prescale8,
    Prescale64,
    Prescale256,
    Prescale1024,
}

/// Where a meter is in the rising, falling, next-rising edge cycle.
#[derive(Clone, Copy, Debug, PartialEq, Eq, Structural)]
pub enum PulseState {
    WaitingForRisingEdge,
    WaitingForFallingEdge { rising_edge_timestamp: u16 },
    WaitForEndOfPeriod { rising_edge_timestamp: u16, width: u16 },
}

/// What a capture event yields: the edge to sense next, and a duty-cycle
/// sample when the event closed a period.
#[derive(Clone, Copy, Debug, PartialEq, Eq, Structural)]
pub struct Capture {
    pub next_edge: Edge,
    pub sample: Option<u16>,
}

/// Ticks of the free-running 16-bit counter from `from` to `to`, across
/// counter overflow.
pub open spec fn elapsed(from: u16, to: u16) -> u16 {
    if to >= from {
        (to - from) as u16
    } else {
        (to + 65536 - from) as u16
    }
}

/// Duty cycle in percent of a pulse of `width` in a period of `period > 0`,
/// rounded down and capped at 100.
pub open spec fn duty_percent(width: u16, period: u16) -> u16 {
    let d = width * 100 / period as int;
    if d > 100 {
        100
    } else {
        d as u16
    }
}

/// The state after a capture event at `ts` in state `s`, the edge to sense
/// next, and the sample produced, if any.
pub open spec fn capture_step(s: PulseState, ts: u16) -> (PulseState, Capture) {
    match s {
        PulseState::WaitingForRisingEdge => (
            PulseState::WaitingForFallingEdge { rising_edge_timestamp: ts },
            Capture { next_edge: Edge::Falling, sample: None },
        ),
        PulseState::WaitingForFallingEdge { rising_edge_timestamp } => (
            PulseState::WaitForEndOfPeriod {
                rising_edge_timestamp,
                width: elapsed(rising_edge_timestamp, ts),
            },
            Capture { next_edge: Edge::Rising, sample: None },
        ),
        PulseState::WaitForEndOfPeriod { rising_edge_timestamp, width } => {
            let period = elapsed(rising_edge_timestamp, ts);
            (
                PulseState::WaitingForFallingEdge { rising_edge_timestamp: ts },
                Capture {
                    next_edge: Edge::Falling,
                    sample: if period > 0 {
                        Some(duty_percent(width, period))
                    } else {
                        None
                    },
                },
            )
        },
    }
}

/// The ticks elapsed from `from` to `to` are never negative, and added to
/// `from` modulo 2^16 they give `to`, also when the counter overflowed between
/// the two.
pub proof fn lemma_elapsed_wraps(from: u16, to: u16)
    ensures
        0 <= elapsed(from, to) < 65536,
        (from + elapsed(from, to)) % 65536 == to,
{
}

/// A sum of samples of at most 100 each.
proof fn lemma_seq_sum_bound(s: Seq<u16>)
    requires
        forall|i: int| 0 <= i < s.len() ==> #[trigger] s[i] <= 100,
    ensures
        seq_sum(s) <= 100 * s.len(),
    decreases s.len(),
{
    if s.len() > 0 {
        assert(s.last() == s[s.len() - 1]);
        lemma_seq_sum_bound(s.drop_last());
    }
}

/// Measures the duty cycle of a PWM signal from the timestamps of its edges,
/// keeping the most recent samples.
pub struct PulseMeter {
    state: PulseState,
    prescaler: Prescaler,
    ring_buffer: RingBuffer<SAMPLE_WINDOW>,
}

impl PulseMeter {
    pub closed spec fn state(&self) -> PulseState {
        self.state
    }

    pub closed spec fn prescaler_spec(&self) -> Prescaler {
        self.prescaler
    }

    /// The most recent samples, oldest first.
    pub closed spec fn samples(&self) -> Seq<u16> {
        self.ring_buffer@
    }

    /// The sample window is well formed and every sample is a percentage.
    pub closed spec fn wf(&self) -> bool {
        &&& self.ring_buffer.wf()
        &&& forall|i: int| 0 <= i < self.ring_buffer@.len() ==> #[trigger] self.ring_buffer@[i] <= 100
    }

    /// A meter waiting for a rising edge, with no samples.
    pub fn new(prescaler: Prescaler) -> (r: Self)
        ensures
            r.wf(),
            r.state() == PulseState::WaitingForRisingEdge,
            r.prescaler_spec() == prescaler,
            r.samples() == Seq::<u16>::empty(),
    {
        PulseMeter {
            state: PulseState::WaitingForRisingEdge,
            prescaler,
            ring_buffer: RingBuffer::new(),
        }
    }

    /// The prescaler that the capture timer is to run with.
    pub fn prescaler(&self) -> (r: Prescaler)
        ensures
            r == self.prescaler_spec(),
    {
        self.prescaler
    }

    /// Handles a capture event at counter value `timestamp`: advances the
    /// state, keeps the sample produced, if any, and says which edge to sense
    /// next.
    pub fn handle_capture(&mut self, timestamp: u16) -> (r: Capture)
        requires
            old(self).wf(),
        ensures
            final(self).wf(),
            (final(self).state(), r) == capture_step(old(self).state(), timestamp),
            final(self).prescaler_spec() == old(self).prescaler_spec(),
            final(self).samples() == match r.sample {
                Some(d) => last_n(old(self).samples().push(d), SAMPLE_WINDOW as nat),
                None => old(self).samples(),
            },
    {
        match self.state {
            PulseState::WaitingForRisingEdge => {
                self.state = PulseState::WaitingForFallingEdge { rising_edge_timestamp: timestamp };
                Capture { next_edge: Edge::Falling, sample: None }
            },
            PulseState::WaitingForFallingEdge { rising_edge_timestamp } => {
                let width = timestamp.wrapping_sub(rising_edge_timestamp);
                self.state = PulseState::WaitForEndOfPeriod { rising_edge_timestamp, width };
                Capture { next_edge: Edge::Rising, sample: None }
            },
            PulseState::WaitForEndOfPeriod { rising_edge_timestamp, width } => {
                let period = timestamp.wrapping_sub(rising_edge_timestamp);
                let sample = if period > 0 {
                    let d = (width as u32 * 100) / period as u32;
                    let duty: u16 = if d > 100 {
                        100
                    } else {
                        d as u16
                    };
                    proof {
                        let w = last_n(self.ring_buffer@.push(duty), SAMPLE_WINDOW as nat);
                        assert forall|i: int| 0 <= i < w.len() implies #[trigger] w[i] <= 100 by {}
                        lemma_seq_sum_bound(w);
                    }
                    self.ring_buffer.push(duty);
                    Some(duty)
                } else {
                    None
                };
                self.state = PulseState::WaitingForFallingEdge { rising_edge_timestamp: timestamp };
                Capture { next_edge: Edge::Falling, sample }
            },
        }
    }

    /// The mean of the recent samples, rounded down, plus one; `None` before
    /// the first sample.
    pub fn duty_cycle_2(&self) -> (r: Option<u16>)
        requires
            self.wf(),
        ensures
            r == (if self.samples().len() == 0 {
                None
            } else {
                Some((seq_sum(self.samples()) / (self.samples().len() as int) + 1) as u16)
            }),
    {
        proof {
            let w = self.ring_buffer@;
            lemma_seq_sum_bound(w);
            lemma_seq_sum_nonneg(w);
            if w.len() > 0 {
                let (t, n) = (seq_sum(w), w.len() as int);
                assert(t / n <= 100) by (nonlinear_arith)
                    requires
                        0 <= t <= 100 * n,
                        n > 0,
                ;
            }
        }
        match self.ring_buffer.average() {
            Some(v) => Some(v + 1),
            None => None,
        }
    }
}

} // verus!
