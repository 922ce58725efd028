//! Valve actuation plans.
//!
//! - AC relay: one output per valve, level-held while open.
//! - DC latching solenoid: two outputs per valve; a brief pulse on the open
//!   line opens it, a pulse on the close line closes it, and it holds its
//!   position between pulses, so it is only pulsed on state changes.
//!
//! Each valve of the configuration becomes a `ValvePlan`; the plan says which
//! output levels and waits bring the valve up closed, open or close it, and
//! how all latching valves are pulsed closed at boot. The plan of a latching
//! valve records the position the valve is known to hold: unknown at power-up,
//! closed after the boot close-all, and then whatever the last command set.

use vstd::prelude::*;
use vstd::string::*;

use crate::config::Valve;
use crate::text::str_eq;

verus! {

/// Settle gap between consecutive latching valves during the boot close-all,
/// so that their inrush currents don't stack.
pub const STARTUP_CLOSE_GAP_MS: u32 = 100;

/// How the `kind` text of a valve is read.
#[derive(PartialEq, Eq, Structural, Clone, Copy, Debug)]
pub enum ValveKind {
    /// `"latching"`: a DC latching solenoid.
    Latching,
    /// `"ac"`: an AC relay.
    Ac,
    /// Anything else: treated as an AC relay (the application warns).
    Unknown,
}

/// The kind named by a valve's `kind` text.
pub open spec fn kind_of(kind: Seq<char>) -> ValveKind {
    if kind == "latching"@ {
        ValveKind::Latching
    } else if kind == "ac"@ {
        ValveKind::Ac
    } else {
        ValveKind::Unknown
    }
}

/// Reads a valve's `kind` text.
pub fn valve_kind(kind: &str) -> (k: ValveKind)
    ensures
        k == kind_of(kind@),
{
    if str_eq(kind, "latching") {
        ValveKind::Latching
    } else if str_eq(kind, "ac") {
        ValveKind::Ac
    } else {
        ValveKind::Unknown
    }
}

/// The position a latching valve is known to hold.
#[derive(PartialEq, Eq, Structural, Clone, Copy, Debug)]
pub enum Position {
    /// Not known: a latching valve powers up in an unknown position.
    Unknown,
    Open,
    Closed,
}

/// The position that a command for `want` (open when `true`) leaves a valve in.
pub open spec fn position_for(want: bool) -> Position {
    if want {
        Position::Open
    } else {
        Position::Closed
    }
}

/// How a valve is driven, with its pins; a latching valve also with the
/// position it is known to hold.
#[derive(PartialEq, Eq, Structural, Clone, Copy, Debug)]
pub enum ValvePlan {
    Ac { pin: u8, active_low: bool },
    Latching { open_pin: u8, close_pin: u8, pulse_ms: u32, position: Position },
}

/// A valve whose configuration lacks a pin that its kind needs; each variant
/// holds the valve's name.
pub enum ValveError {
    LatchingNeedsOpenPin(String),
    LatchingNeedsClosePin(String),
    AcNeedsPin(String),
}

/// The plan for a configured valve, or the pin it lacks.
pub open spec fn spec_plan(v: Valve) -> Result<ValvePlan, ValveError> {
    if kind_of(v.kind@) == ValveKind::Latching {
        match (v.open_pin, v.close_pin) {
            (None, _) => Err(ValveError::LatchingNeedsOpenPin(v.name)),
            (Some(_), None) => Err(ValveError::LatchingNeedsClosePin(v.name)),
            (Some(o), Some(c)) => Ok(
                ValvePlan::Latching {
                    open_pin: o,
                    close_pin: c,
                    pulse_ms: v.pulse_ms,
                    position: Position::Unknown,
                },
            ),
        }
    } else {
        match v.pin {
            None => Err(ValveError::AcNeedsPin(v.name)),
            Some(p) => Ok(ValvePlan::Ac { pin: p, active_low: v.active_low }),
        }
    }
}

/// Plans how a configured valve is driven: `"latching"` needs `open_pin` and
/// `close_pin` (its position is not known yet); any other kind is an AC relay
/// and needs `pin`.
pub fn plan_valve(v: &Valve) -> (res: Result<ValvePlan, ValveError>)
    ensures
        res == spec_plan(*v),
{
    match valve_kind(v.kind.as_str()) {
        ValveKind::Latching => {
            let open_pin = match v.open_pin {
                Some(p) => p,
                None => {
                    return Err(ValveError::LatchingNeedsOpenPin(v.name.clone()));
                },
            };
            let close_pin = match v.close_pin {
                Some(p) => p,
                None => {
                    return Err(ValveError::LatchingNeedsClosePin(v.name.clone()));
                },
            };
            Ok(
                ValvePlan::Latching {
                    open_pin,
                    close_pin,
                    pulse_ms: v.pulse_ms,
                    position: Position::Unknown,
                },
            )
        },
        _ => match v.pin {
            Some(pin) => Ok(ValvePlan::Ac { pin, active_low: v.active_low }),
            None => Err(ValveError::AcNeedsPin(v.name.clone())),
        },
    }
}

/// The text of a `ValveError`.
pub open spec fn error_text(e: ValveError) -> Seq<char> {
    match e {
        ValveError::LatchingNeedsOpenPin(name) => "valve '"@ + name@
            + "': latching needs open_pin"@,
        ValveError::LatchingNeedsClosePin(name) => "valve '"@ + name@
            + "': latching needs close_pin"@,
        ValveError::AcNeedsPin(name) => "valve '"@ + name@ + "': ac needs pin"@,
    }
}

impl ValveError {
    /// The error's message, naming the valve.
    pub fn message(&self) -> (msg: String)
        ensures
            msg@ == error_text(*self),
    {
        let mut msg = <String as StringExecFns>::from_str("valve '");
        match self {
            ValveError::LatchingNeedsOpenPin(name) => {
                msg.append(name.as_str());
                msg.append("': latching needs open_pin");
            },
            ValveError::LatchingNeedsClosePin(name) => {
                msg.append(name.as_str());
                msg.append("': latching needs close_pin");
            },
            ValveError::AcNeedsPin(name) => {
                msg.append(name.as_str());
                msg.append("': ac needs pin");
            },
        }
        msg
    }
}

/// An output line of a valve.
#[derive(PartialEq, Eq, Structural, Clone, Copy, Debug)]
pub enum ValveLine {
    /// The single output of an AC relay valve.
    Relay,
    /// The open line of a latching valve.
    Open,
    /// The close line of a latching valve.
    Close,
}

/// One thing to do to a valve's outputs.
#[derive(PartialEq, Eq, Structural, Clone, Copy, Debug)]
pub enum Step {
    /// Drive a line high (`true`) or low.
    Drive { line: ValveLine, high: bool },
    /// Wait this many milliseconds.
    Wait { ms: u32 },
}

/// A step together with the index of the valve that it belongs to.
#[derive(PartialEq, Eq, Structural, Clone, Copy, Debug)]
pub struct Action {
    pub valve: usize,
    pub step: Step,
}

/// A pulse on a line: high, wait, low.
pub open spec fn pulse(line: ValveLine, ms: u32) -> Seq<Step> {
    seq![
        Step::Drive { line, high: true },
        Step::Wait { ms },
        Step::Drive { line, high: false },
    ]
}

/// The steps that bring a valve's outputs up: an AC relay de-energized (high
/// when active-low, else low), both lines of a latching valve low.
pub open spec fn spec_initial_steps(plan: ValvePlan) -> Seq<Step> {
    match plan {
        ValvePlan::Ac { active_low, .. } => seq![
            Step::Drive { line: ValveLine::Relay, high: active_low },
        ],
        ValvePlan::Latching { .. } => seq![
            Step::Drive { line: ValveLine::Open, high: false },
            Step::Drive { line: ValveLine::Close, high: false },
        ],
    }
}

/// The steps that drive a valve open (`want`) or closed: an AC relay is held
/// at `want ^ active_low`; a latching valve gets a pulse on its open or close
/// line, unless it is known to hold the wanted position already, when it gets
/// nothing.
pub open spec fn spec_apply_steps(plan: ValvePlan, want: bool) -> Seq<Step> {
    match plan {
        ValvePlan::Ac { active_low, .. } => seq![
            Step::Drive { line: ValveLine::Relay, high: want != active_low },
        ],
        ValvePlan::Latching { pulse_ms, position, .. } => if position == position_for(want) {
            Seq::empty()
        } else {
            pulse(
                if want {
                    ValveLine::Open
                } else {
                    ValveLine::Close
                },
                pulse_ms,
            )
        },
    }
}

/// The plan after a command for `want`: a latching valve then holds the
/// wanted position; an AC plan is unchanged.
pub open spec fn spec_after_apply(plan: ValvePlan, want: bool) -> ValvePlan {
    match plan {
        ValvePlan::Ac { .. } => plan,
        ValvePlan::Latching { open_pin, close_pin, pulse_ms, .. } => ValvePlan::Latching {
            open_pin,
            close_pin,
            pulse_ms,
            position: position_for(want),
        },
    }
}

fn push_pulse(steps: &mut Vec<Step>, line: ValveLine, ms: u32)
    ensures
        final(steps)@ == old(steps)@ + pulse(line, ms),
{
    steps.push(Step::Drive { line, high: true });
    steps.push(Step::Wait { ms });
    steps.push(Step::Drive { line, high: false });
    proof {
        assert(final(steps)@ =~= old(steps)@ + pulse(line, ms));
    }
}

/// The steps that bring a valve's outputs up, closed.
pub fn initial_steps(plan: &ValvePlan) -> (steps: Vec<Step>)
    ensures
        steps@ == spec_initial_steps(*plan),
{
    let mut steps = Vec::new();
    match plan {
        ValvePlan::Ac { active_low, .. } => {
            steps.push(Step::Drive { line: ValveLine::Relay, high: *active_low });
        },
        ValvePlan::Latching { .. } => {
            steps.push(Step::Drive { line: ValveLine::Open, high: false });
            steps.push(Step::Drive { line: ValveLine::Close, high: false });
        },
    }
    proof {
        assert(steps@ =~= spec_initial_steps(*plan));
    }
    steps
}

/// The steps that drive this valve open (`want == true`) or closed; the plan
/// then records the position a latching valve holds, so that a latching valve
/// is only pulsed on state changes.
pub fn apply_steps(plan: &mut ValvePlan, want: bool) -> (steps: Vec<Step>)
    ensures
        steps@ == spec_apply_steps(*old(plan), want),
        *final(plan) == spec_after_apply(*old(plan), want),
{
    let mut steps = Vec::new();
    match *plan {
        ValvePlan::Ac { active_low, .. } => {
            steps.push(Step::Drive { line: ValveLine::Relay, high: want ^ active_low });
            proof {
                assert(steps@ =~= spec_apply_steps(*plan, want));
            }
        },
        ValvePlan::Latching { open_pin, close_pin, pulse_ms, position } => {
            let wanted = if want {
                Position::Open
            } else {
                Position::Closed
            };
            if position != wanted {
                let line = if want {
                    ValveLine::Open
                } else {
                    ValveLine::Close
                };
                push_pulse(&mut steps, line, pulse_ms);
            }
            proof {
                assert(steps@ =~= spec_apply_steps(*plan, want));
            }
            *plan = ValvePlan::Latching { open_pin, close_pin, pulse_ms, position: wanted };
        },
    }
    steps
}

/// Whether some plan in `plans` is a latching valve.
pub open spec fn has_latching(plans: Seq<ValvePlan>) -> bool {
    exists|i: int| 0 <= i < plans.len() && plans[i] is Latching
}

/// Tags each step with a valve index.
pub open spec fn for_valve(valve: usize, steps: Seq<Step>) -> Seq<Action> {
    steps.map_values(|step: Step| Action { valve, step })
}

/// The boot close-all: latching valves power up in an unknown position, so
/// each is pulsed closed, in configuration order, with a settle gap before
/// each but the first; AC valves take no part.
pub open spec fn close_all(plans: Seq<ValvePlan>) -> Seq<Action>
    decreases plans.len(),
{
    if plans.len() == 0 {
        Seq::empty()
    } else {
        let prev = plans.drop_last();
        let i = (plans.len() - 1) as usize;
        close_all(prev) + match plans.last() {
            ValvePlan::Latching { pulse_ms, .. } => (if has_latching(prev) {
                seq![Action { valve: i, step: Step::Wait { ms: STARTUP_CLOSE_GAP_MS } }]
            } else {
                Seq::empty()
            }) + for_valve(i, pulse(ValveLine::Close, pulse_ms)),
            ValvePlan::Ac { .. } => Seq::empty(),
        }
    }
}

fn push_action(actions: &mut Vec<Action>, valve: usize, step: Step)
    ensures
        final(actions)@ == old(actions)@.push(Action { valve, step }),
{
    actions.push(Action { valve, step });
}

/// A plan after the boot close-all: a latching valve then holds closed; an AC
/// plan is unchanged.
pub open spec fn spec_after_close_all(plan: ValvePlan) -> ValvePlan {
    match plan {
        ValvePlan::Ac { .. } => plan,
        ValvePlan::Latching { open_pin, close_pin, pulse_ms, .. } => ValvePlan::Latching {
            open_pin,
            close_pin,
            pulse_ms,
            position: Position::Closed,
        },
    }
}

/// The actions of the boot close-all for the planned valves (see
/// `close_all`); every latching plan then records that its valve is closed.
pub fn startup_close_actions(plans: &mut Vec<ValvePlan>) -> (actions: Vec<Action>)
    ensures
        actions@ == close_all(old(plans)@),
        final(plans)@.len() == old(plans)@.len(),
        forall|j: int|
            0 <= j < old(plans)@.len() ==> #[trigger] final(plans)@[j] == spec_after_close_all(
                old(plans)@[j],
            ),
{
    let ghost orig = plans@;
    let mut actions: Vec<Action> = Vec::new();
    let mut first = true;
    let mut i: usize = 0;
    while i < plans.len()
        invariant
            i <= orig.len(),
            plans@.len() == orig.len(),
            forall|j: int| 0 <= j < i ==> #[trigger] plans@[j] == spec_after_close_all(orig[j]),
            forall|j: int| i <= j < orig.len() ==> #[trigger] plans@[j] == orig[j],
            actions@ == close_all(orig.take(i as int)),
            first == !has_latching(orig.take(i as int)),
        decreases orig.len() - i,
    {
        let ghost prefix = orig.take(i as int);
        let ghost next = orig.take(i + 1);
        proof {
            assert(next.drop_last() =~= prefix);
            assert(next.last() == orig[i as int]);
        }
        match plans[i] {
            ValvePlan::Latching { open_pin, close_pin, pulse_ms, .. } => {
                if !first {
                    push_action(&mut actions, i, Step::Wait { ms: STARTUP_CLOSE_GAP_MS });
                }
                push_action(&mut actions, i, Step::Drive { line: ValveLine::Close, high: true });
                push_action(&mut actions, i, Step::Wait { ms: pulse_ms });
                push_action(&mut actions, i, Step::Drive { line: ValveLine::Close, high: false });
                proof {
                    let tail = (if has_latching(prefix) {
                        seq![Action { valve: i, step: Step::Wait { ms: STARTUP_CLOSE_GAP_MS } }]
                    } else {
                        Seq::empty()
                    }) + for_valve(i, pulse(ValveLine::Close, pulse_ms));
                    assert(actions@ =~= close_all(prefix) + tail);
                    assert(next[i as int] is Latching);
                }
                plans[i] = ValvePlan::Latching {
                    open_pin,
                    close_pin,
                    pulse_ms,
                    position: Position::Closed,
                };
                first = false;
            },
            ValvePlan::Ac { .. } => {
                proof {
                    assert(actions@ =~= close_all(prefix) + Seq::<Action>::empty());
                    assert forall|j: int| 0 <= j < next.len() && next[j] is Latching implies 0
                        <= j < prefix.len() && prefix[j] is Latching by {
                        assert(j != i);
                    }
                }
            },
        }
        proof {
            if has_latching(prefix) {
                let j = choose|j: int| 0 <= j < prefix.len() && prefix[j] is Latching;
                assert(next[j] == prefix[j]);
            }
        }
        i = i + 1;
    }
    proof {
        assert(orig.take(orig.len() as int) =~= orig);
    }
    actions
}

/// An AC valve is brought up in the state that closing it gives: its
/// de-energized level.
pub proof fn lemma_ac_starts_closed(pin: u8, active_low: bool)
    ensures
        spec_initial_steps(ValvePlan::Ac { pin, active_low }) == spec_apply_steps(
            ValvePlan::Ac { pin, active_low },
            false,
        ),
{
    assert(spec_initial_steps(ValvePlan::Ac { pin, active_low }) =~= spec_apply_steps(
        ValvePlan::Ac { pin, active_low },
        false,
    ));
}

/// Opening and closing an AC valve drive its relay line to opposite levels.
pub proof fn lemma_ac_open_close_opposite(pin: u8, active_low: bool)
    ensures
        ({
            let plan = ValvePlan::Ac { pin, active_low };
            &&& spec_apply_steps(plan, true).len() == 1
            &&& spec_apply_steps(plan, false).len() == 1
            &&& spec_apply_steps(plan, true)[0] matches Step::Drive { line: l1, high: h1 }
            &&& spec_apply_steps(plan, false)[0] matches Step::Drive { line: l0, high: h0 }
            &&& l1 == ValveLine::Relay && l0 == ValveLine::Relay && h1 != h0
        }),
{
}

/// A command to a latching valve that is not known to hold the wanted
/// position pulses only the line for that position, for `pulse_ms`, and
/// leaves it low as it was brought up, so that both lines rest low between
/// commands.
pub proof fn lemma_latching_pulse_rests_low(
    open_pin: u8,
    close_pin: u8,
    pulse_ms: u32,
    position: Position,
    want: bool,
)
    requires
        position != position_for(want),
    ensures
        ({
            let steps = spec_apply_steps(
                ValvePlan::Latching { open_pin, close_pin, pulse_ms, position },
                want,
            );
            let line = if want {
                ValveLine::Open
            } else {
                ValveLine::Close
            };
            &&& steps.len() == 3
            &&& steps[0] == Step::Drive { line, high: true }
            &&& steps[1] == Step::Wait { ms: pulse_ms }
            &&& steps[2] == Step::Drive { line, high: false }
        }),
        spec_initial_steps(ValvePlan::Latching { open_pin, close_pin, pulse_ms, position }) == seq![
            Step::Drive { line: ValveLine::Open, high: false },
            Step::Drive { line: ValveLine::Close, high: false },
        ],
{
}

/// A latching valve is only pulsed on state changes: repeating a command
/// gives no steps at all, and leaves the plan as it was.
pub proof fn lemma_latching_repeat_is_silent(plan: ValvePlan, want: bool)
    requires
        plan is Latching,
    ensures
        ({
            let after = spec_after_apply(plan, want);
            &&& spec_apply_steps(after, want).len() == 0
            &&& spec_after_apply(after, want) == after
        }),
{
}

/// Repeating a command to an AC valve drives its relay to the level it
/// already has.
pub proof fn lemma_ac_repeat_keeps_level(plan: ValvePlan, want: bool)
    requires
        plan is Ac,
    ensures
        spec_after_apply(plan, want) == plan,
        spec_apply_steps(spec_after_apply(plan, want), want) == spec_apply_steps(plan, want),
{
}

/// After the boot close-all every latching valve is known to be closed, so a
/// close command gives it no steps, and an open command pulses its open line.
pub proof fn lemma_closed_after_startup(plan: ValvePlan)
    requires
        plan is Latching,
    ensures
        spec_apply_steps(spec_after_close_all(plan), false).len() == 0,
        spec_apply_steps(spec_after_close_all(plan), true) == pulse(
            ValveLine::Open,
            plan->pulse_ms,
        ),
{
}

/// The boot close-all never opens a valve: every action belongs to a
/// latching valve of the configuration, and every line it drives is that
/// valve's close line.
pub proof fn lemma_close_all_only_closes(plans: Seq<ValvePlan>)
    requires
        plans.len() <= usize::MAX,
    ensures
        forall|k: int|
            0 <= k < close_all(plans).len() ==> {
                let a = #[trigger] close_all(plans)[k];
                &&& a.valve < plans.len()
                &&& plans[a.valve as int] is Latching
                &&& a.step is Drive ==> a.step->line == ValveLine::Close
            },
    decreases plans.len(),
{
    if plans.len() > 0 {
        let prev = plans.drop_last();
        lemma_close_all_only_closes(prev);
        let head = close_all(prev);
        assert forall|k: int| 0 <= k < close_all(plans).len() implies {
            let a = #[trigger] close_all(plans)[k];
            &&& a.valve < plans.len()
            &&& plans[a.valve as int] is Latching
            &&& a.step is Drive ==> a.step->line == ValveLine::Close
        } by {
            if k < head.len() {
                assert(close_all(plans)[k] == head[k]);
                assert(plans[head[k].valve as int] == prev[head[k].valve as int]);
            }
        }
    }
}

/// The boot close-all pulses every latching valve closed: for each latching
/// valve it drives that valve's close line high, waits the valve's pulse
/// length, and drives it low again.
pub proof fn lemma_close_all_closes_each_latching(plans: Seq<ValvePlan>, i: int)
    requires
        plans.len() <= usize::MAX,
        0 <= i < plans.len(),
        plans[i] is Latching,
    ensures
        exists|k: int|
            0 <= k && k + 2 < close_all(plans).len() && #[trigger] close_all(plans).subrange(
                k,
                k + 3,
            ) == for_valve(i as usize, pulse(ValveLine::Close, plans[i]->pulse_ms)),
    decreases plans.len(),
{
    let prev = plans.drop_last();
    let head = close_all(prev);
    let whole = close_all(plans);
    if i < plans.len() - 1 {
        assert(prev[i] == plans[i]);
        lemma_close_all_closes_each_latching(prev, i);
        let k = choose|k: int|
            0 <= k && k + 2 < head.len() && #[trigger] head.subrange(k, k + 3) == for_valve(
                i as usize,
                pulse(ValveLine::Close, plans[i]->pulse_ms),
            );
        assert(whole.subrange(k, k + 3) =~= head.subrange(k, k + 3));
    } else {
        let gap: Seq<Action> = if has_latching(prev) {
            seq![Action { valve: i as usize, step: Step::Wait { ms: STARTUP_CLOSE_GAP_MS } }]
        } else {
            Seq::empty()
        };
        let p = for_valve(i as usize, pulse(ValveLine::Close, plans[i]->pulse_ms));
        assert(whole == head + (gap + p));
        let k: int = (head.len() + gap.len()) as int;
        assert(whole.subrange(k, k + 3) =~= p);
    }
}

/// A configured valve drives the pins it was configured with, each for the
/// line it was configured for: a `"latching"` valve with both pins set gets
/// its `open_pin` as the open line and its `close_pin` as the close line, with
/// its own pulse length and no known position; any other valve with a `pin`
/// is a relay on that pin with its own polarity; a valve that lacks a pin its
/// kind needs is refused, naming the valve.
pub proof fn lemma_plan_uses_configured_pins(v: Valve)
    ensures
        v.kind@ == "latching"@ ==> match (v.open_pin, v.close_pin) {
            (Some(o), Some(c)) => spec_plan(v) == Ok::<ValvePlan, ValveError>(
                ValvePlan::Latching {
                    open_pin: o,
                    close_pin: c,
                    pulse_ms: v.pulse_ms,
                    position: Position::Unknown,
                },
            ),
            (None, _) => spec_plan(v) matches Err(ValveError::LatchingNeedsOpenPin(n)) && n
                == v.name,
            (Some(_), None) => spec_plan(v) matches Err(ValveError::LatchingNeedsClosePin(n)) && n
                == v.name,
        },
        v.kind@ != "latching"@ ==> match v.pin {
            Some(p) => spec_plan(v) == Ok::<ValvePlan, ValveError>(
                ValvePlan::Ac { pin: p, active_low: v.active_low },
            ),
            None => spec_plan(v) matches Err(ValveError::AcNeedsPin(n)) && n == v.name,
        },
        spec_plan(v) matches Ok(ValvePlan::Latching { open_pin, close_pin, .. }) ==> v.open_pin
            == Some(open_pin) && v.close_pin == Some(close_pin),
        spec_plan(v) matches Ok(ValvePlan::Ac { pin, active_low }) ==> v.pin == Some(pin)
            && active_low == v.active_low,
{
}

} // verus!
