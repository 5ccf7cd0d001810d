//! Tick-driven control policy: debounces duty-cycle samples, decides the
//! power-supply commands, and releases them at a limited rate.

use vstd::prelude::*;

use crate::messaging::PSUCommand;
use crate::queue::{enqueued_all, FixedQueue};
use crate::ring_buffer::{last_n, seq_sum, stable, RingBuffer};

verus! {

/// Length of a tick in milliseconds.
pub const TICK_INTERVAL_MS: u16 = 10;

/// Ticks after which a setpoint is sent again even if unchanged (one second).
pub const MAX_TICKS_BETWEEN_UPDATE: u16 = 1000 / TICK_INTERVAL_MS;

/// Number of equal consecutive samples that make a duty cycle stable (20 ms).
pub const MIN_TICKS_BETWEEN_UPDATE: usize = 2;

/// Ticks that must pass between two commands sent (50 ms).
pub const MIN_TICKS_BETWEEN_SEND: u16 = 50 / TICK_INTERVAL_MS;

/// Number of commands waiting to be sent that the queue holds.
pub const QUEUE_CAPACITY: usize = 5;

/// Highest current, in hundredths of an ampere (4.00 A).
pub const CURRENT_MAX: i32 = 400;

/// Current set while the output is off, in hundredths of an ampere (0.10 A).
pub const CURRENT_FLOOR: i32 = 10;

/// Voltage setpoint, in hundredths of a volt (20.00 V).
pub const VOLTAGE_SET: i32 = 2000;

/// The state of a controller as the contracts see it.
pub struct ControlModel {
    /// The debounce window, oldest sample first.
    pub window: Seq<u16>,
    pub output_enabled: bool,
    /// The duty cycle that the last decision acted on.
    pub set_value: u16,
    pub ticks_since_last_update: u16,
    pub ticks_since_last_send: u16,
    /// Commands waiting to be sent, oldest first.
    pub queue: Seq<PSUCommand>,
}

/// Current for a duty cycle between 10 and 90 percent, in hundredths of an
/// ampere: linear from 0 at 10 percent to `CURRENT_MAX` at 90 percent.
pub open spec fn linear_current(duty: u16) -> i32 {
    ((duty - 10) * CURRENT_MAX / 80) as i32
}

/// The commands that a decision on `duty` enqueues, in order, given whether
/// the output is taken to be enabled.
pub open spec fn commands_for(duty: u16, output_enabled: bool) -> Seq<PSUCommand> {
    if duty < 10 {
        seq![
            PSUCommand::OutputOff,
            PSUCommand::SetCurrent(CURRENT_FLOOR),
            PSUCommand::SetVoltage(VOLTAGE_SET),
        ]
    } else {
        let current = if duty < 90 {
            linear_current(duty)
        } else {
            CURRENT_MAX
        };
        if output_enabled {
            seq![PSUCommand::SetCurrent(current)]
        } else {
            seq![PSUCommand::OutputOn, PSUCommand::SetCurrent(current)]
        }
    }
}

/// Whether a decision is made on this tick's sample.
pub open spec fn decides(window: Seq<u16>, set_value: u16, duty: u16, overdue: bool, queue_len: nat) -> bool {
    &&& stable(window, MIN_TICKS_BETWEEN_UPDATE as nat) || overdue
    &&& duty != set_value || overdue
    &&& queue_len + 2 <= QUEUE_CAPACITY
}

/// The state after the decision part of a tick on sample `duty`, where
/// `ticks` is the update counter already advanced for this tick.
pub open spec fn decision_step(m: ControlModel, ticks: u16, duty: Option<u16>) -> ControlModel {
    let overdue = ticks >= MAX_TICKS_BETWEEN_UPDATE;
    match duty {
        None => ControlModel { ticks_since_last_update: ticks, ..m },
        Some(d) => {
            let window = last_n(m.window.push(d), MIN_TICKS_BETWEEN_UPDATE as nat);
            if decides(window, m.set_value, d, overdue, m.queue.len()) {
                ControlModel {
                    window,
                    output_enabled: d >= 10,
                    set_value: d,
                    ticks_since_last_update: 0,
                    queue: enqueued_all(m.queue, commands_for(d, m.output_enabled), QUEUE_CAPACITY as nat),
                    ..m
                }
            } else {
                ControlModel { window, ticks_since_last_update: ticks, ..m }
            }
        },
    }
}

/// One tick on the latest duty-cycle sample, if any: the next state, and the
/// command to send on this tick, if any.
pub open spec fn control_step(m: ControlModel, duty: Option<u16>) -> (ControlModel, Option<PSUCommand>) {
    let ticks = if m.ticks_since_last_update + 1 >= MAX_TICKS_BETWEEN_UPDATE {
        MAX_TICKS_BETWEEN_UPDATE
    } else {
        (m.ticks_since_last_update + 1) as u16
    };
    let decided = decision_step(m, ticks, duty);
    let send_ticks = if m.ticks_since_last_send + 1 >= MIN_TICKS_BETWEEN_SEND {
        MIN_TICKS_BETWEEN_SEND
    } else {
        (m.ticks_since_last_send + 1) as u16
    };
    if send_ticks >= MIN_TICKS_BETWEEN_SEND && decided.queue.len() > 0 {
        (
            ControlModel { ticks_since_last_send: 0, queue: decided.queue.drop_first(), ..decided },
            Some(decided.queue[0]),
        )
    } else {
        (ControlModel { ticks_since_last_send: send_ticks, ..decided }, None)
    }
}

/// A duty-cycle sample that the debounce window can sum without overflow.
pub open spec fn sample_fits(d: u16) -> bool {
    d * MIN_TICKS_BETWEEN_UPDATE <= u16::MAX
}

/// Whether `tick` accepts the sample `d`.
pub fn sample_in_range(d: u16) -> (r: bool)
    ensures
        r == sample_fits(d),
{
    (d as usize) * MIN_TICKS_BETWEEN_UPDATE <= u16::MAX as usize
}

/// Turns duty-cycle samples into power-supply commands, one tick at a time.
pub struct Controller {
    debouncer: RingBuffer<MIN_TICKS_BETWEEN_UPDATE>,
    output_enabled: bool,
    set_value: u16,
    ticks_since_last_update: u16,
    ticks_since_last_send: u16,
    message_queue: FixedQueue<PSUCommand, QUEUE_CAPACITY>,
}

impl View for Controller {
    type V = ControlModel;

    closed spec fn view(&self) -> ControlModel {
        ControlModel {
            window: self.debouncer@,
            output_enabled: self.output_enabled,
            set_value: self.set_value,
            ticks_since_last_update: self.ticks_since_last_update,
            ticks_since_last_send: self.ticks_since_last_send,
            queue: self.message_queue@,
        }
    }
}

impl Controller {
    /// The window and queue are well formed, every sample in the window fits
    /// its sum, and the counters stay within their limits.
    pub closed spec fn wf(&self) -> bool {
        &&& self.debouncer.wf()
        &&& self.message_queue.wf()
        &&& forall|i: int| 0 <= i < self.debouncer@.len() ==> sample_fits(#[trigger] self.debouncer@[i])
        &&& self.ticks_since_last_update <= MAX_TICKS_BETWEEN_UPDATE
        &&& self.ticks_since_last_send <= MIN_TICKS_BETWEEN_SEND
    }

    /// A controller with the output taken as disabled, no samples and no
    /// commands waiting.
    pub fn new() -> (r: Self)
        ensures
            r.wf(),
            r@.window == Seq::<u16>::empty(),
            !r@.output_enabled,
            r@.set_value == 0,
            r@.ticks_since_last_update == 0,
            r@.ticks_since_last_send == 0,
            r@.queue == Seq::<PSUCommand>::empty(),
    {
        Controller {
            debouncer: RingBuffer::new(),
            output_enabled: false,
            set_value: 0,
            ticks_since_last_update: 0,
            ticks_since_last_send: 0,
            message_queue: FixedQueue::new(),
        }
    }

    /// Enqueues the commands for a decision on `duty`.
    fn apply(&mut self, duty: u16)
        requires
            old(self).wf(),
        ensures
            final(self).wf(),
            final(self)@ == (ControlModel {
                output_enabled: duty >= 10,
                queue: enqueued_all(
                    old(self)@.queue,
                    commands_for(duty, old(self)@.output_enabled),
                    QUEUE_CAPACITY as nat,
                ),
                ..old(self)@
            }),
    {
        let ghost q = self.message_queue@;
        let ghost cmds = commands_for(duty, self.output_enabled);
        if duty < 10 {
            self.output_enabled = false;
            self.message_queue.enqueue(PSUCommand::OutputOff);
            self.message_queue.enqueue(PSUCommand::SetCurrent(CURRENT_FLOOR));
            self.message_queue.enqueue(PSUCommand::SetVoltage(VOLTAGE_SET));
            proof {
                assert(cmds.drop_last().drop_last().drop_last() =~= Seq::<PSUCommand>::empty());
                assert(cmds.drop_last().drop_last().last() == PSUCommand::OutputOff);
                assert(cmds.drop_last().last() == PSUCommand::SetCurrent(CURRENT_FLOOR));
                reveal_with_fuel(enqueued_all, 4);
            }
        } else {
            let current = if duty < 90 {
                ((duty - 10) as i32 * CURRENT_MAX) / 80
            } else {
                CURRENT_MAX
            };
            if !self.output_enabled {
                self.output_enabled = true;
                self.message_queue.enqueue(PSUCommand::OutputOn);
                self.message_queue.enqueue(PSUCommand::SetCurrent(current));
                proof {
                    assert(cmds.drop_last().drop_last() =~= Seq::<PSUCommand>::empty());
                    assert(cmds.drop_last().last() == PSUCommand::OutputOn);
                    reveal_with_fuel(enqueued_all, 3);
                }
            } else {
                self.message_queue.enqueue(PSUCommand::SetCurrent(current));
                proof {
                    assert(cmds.drop_last() =~= Seq::<PSUCommand>::empty());
                    reveal_with_fuel(enqueued_all, 2);
                }
            }
        }
    }

    /// Runs one tick on the latest duty-cycle sample, if one is available:
    /// debounces it, decides and enqueues commands, and returns the command
    /// to send on this tick, if the send interval has passed and one waits.
    pub fn tick(&mut self, duty: Option<u16>) -> (r: Option<PSUCommand>)
        requires
            old(self).wf(),
            duty matches Some(d) ==> sample_fits(d),
        ensures
            final(self).wf(),
            (final(self)@, r) == control_step(old(self)@, duty),
    {
        self.ticks_since_last_update += 1;
        let overdue_for_set = self.ticks_since_last_update >= MAX_TICKS_BETWEEN_UPDATE;
        if overdue_for_set {
            self.ticks_since_last_update = MAX_TICKS_BETWEEN_UPDATE;
        }
        let ghost ticks = self.ticks_since_last_update;
        let ghost before = old(self)@;
        if let Some(duty_cycle) = duty {
            proof {
                let w = last_n(self.debouncer@.push(duty_cycle), MIN_TICKS_BETWEEN_UPDATE as nat);
                lemma_window_sum_fits(w);
            }
            self.debouncer.push(duty_cycle);
            assert(forall|i: int| 0 <= i < self.debouncer@.len() ==> sample_fits(#[trigger] self.debouncer@[i]));
            if (self.debouncer.all_same() || overdue_for_set) && (self.set_value != duty_cycle
                || overdue_for_set) && self.message_queue.space() >= 2 {
                self.set_value = duty_cycle;
                self.ticks_since_last_update = 0;
                self.apply(duty_cycle);
            }
        }
        assert(self@ == decision_step(before, ticks, duty));
        self.ticks_since_last_send += 1;
        if self.ticks_since_last_send >= MIN_TICKS_BETWEEN_SEND {
            self.ticks_since_last_send = MIN_TICKS_BETWEEN_SEND;
            let message = self.message_queue.dequeue();
            if message.is_some() {
                self.ticks_since_last_send = 0;
            }
            message
        } else {
            None
        }
    }
}

/// Once the update counter is about to reach its limit, a tick with a sample
/// makes a decision even when the debounce window is not stable and the sample
/// equals the last one acted on, provided the queue has room for two commands:
/// the sample becomes the setpoint, the counter restarts, and the commands for
/// it are enqueued.
pub proof fn lemma_overdue_forces_decision(m: ControlModel, d: u16)
    requires
        m.ticks_since_last_update + 1 >= MAX_TICKS_BETWEEN_UPDATE,
        m.queue.len() + 2 <= QUEUE_CAPACITY,
    ensures
        ({
            let decided = decision_step(m, MAX_TICKS_BETWEEN_UPDATE, Some(d));
            &&& decided.set_value == d
            &&& decided.ticks_since_last_update == 0
            &&& decided.output_enabled == (d >= 10)
            &&& decided.queue == enqueued_all(
                m.queue,
                commands_for(d, m.output_enabled),
                QUEUE_CAPACITY as nat,
            )
        }),
        control_step(m, Some(d)).0.set_value == d,
        control_step(m, Some(d)).0.ticks_since_last_update == 0,
{
}

/// A window of samples that each fit has a sum that fits.
proof fn lemma_window_sum_fits(w: Seq<u16>)
    requires
        w.len() <= MIN_TICKS_BETWEEN_UPDATE,
        forall|i: int| 0 <= i < w.len() ==> sample_fits(#[trigger] w[i]),
    ensures
        seq_sum(w) <= u16::MAX,
{
    reveal_with_fuel(seq_sum, 3);
    if w.len() == 2 {
        assert(w.drop_last().drop_last().len() == 0);
        assert(sample_fits(w[0]) && sample_fits(w[1]));
    } else if w.len() == 1 {
        assert(w.drop_last().len() == 0);
        assert(sample_fits(w[0]));
    }
}

} // verus!
