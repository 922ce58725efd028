use esprinkler::config::Valve;
use esprinkler::valves::{
    apply_steps, initial_steps, plan_valve, startup_close_actions, valve_kind, Action, Position,
    Step, ValveError, ValveKind, ValveLine, ValvePlan, STARTUP_CLOSE_GAP_MS,
};

fn valve(kind: &str, pin: Option<u8>, open_pin: Option<u8>, close_pin: Option<u8>) -> Valve {
    Valve {
        name: "Zone".to_string(),
        kind: kind.to_string(),
        pin,
        active_low: false,
        open_pin,
        close_pin,
        pulse_ms: 80,
    }
}

#[test]
fn kinds_are_read() {
    assert_eq!(valve_kind("latching"), ValveKind::Latching);
    assert_eq!(valve_kind("ac"), ValveKind::Ac);
    assert_eq!(valve_kind("AC"), ValveKind::Unknown);
    assert_eq!(valve_kind(""), ValveKind::Unknown);
}

#[test]
fn plans_ac_valve() {
    let mut v = valve("ac", Some(4), None, None);
    v.active_low = true;
    assert_eq!(plan_valve(&v).ok(), Some(ValvePlan::Ac { pin: 4, active_low: true }));
}

#[test]
fn unknown_kind_is_ac() {
    let v = valve("drip", Some(5), None, None);
    assert_eq!(plan_valve(&v).ok(), Some(ValvePlan::Ac { pin: 5, active_low: false }));
}

#[test]
fn plans_latching_valve() {
    let mut v = valve("latching", None, Some(6), Some(7));
    v.pulse_ms = 120;
    assert_eq!(
        plan_valve(&v).ok(),
        Some(ValvePlan::Latching {
            open_pin: 6,
            close_pin: 7,
            pulse_ms: 120,
            position: Position::Unknown
        })
    );
}

#[test]
fn latching_without_open_pin() {
    match plan_valve(&valve("latching", Some(3), None, Some(7))) {
        Err(e @ ValveError::LatchingNeedsOpenPin(_)) => {
            assert_eq!(e.message(), "valve 'Zone': latching needs open_pin")
        }
        _ => panic!("expected a missing open_pin"),
    }
}

#[test]
fn latching_without_close_pin() {
    match plan_valve(&valve("latching", None, Some(6), None)) {
        Err(e @ ValveError::LatchingNeedsClosePin(_)) => {
            assert_eq!(e.message(), "valve 'Zone': latching needs close_pin")
        }
        _ => panic!("expected a missing close_pin"),
    }
}

#[test]
fn ac_without_pin() {
    match plan_valve(&valve("ac", None, Some(6), Some(7))) {
        Err(e @ ValveError::AcNeedsPin(_)) => {
            assert_eq!(e.message(), "valve 'Zone': ac needs pin")
        }
        _ => panic!("expected a missing pin"),
    }
}

fn drive(line: ValveLine, high: bool) -> Step {
    Step::Drive { line, high }
}

fn latching(open_pin: u8, close_pin: u8, pulse_ms: u32) -> ValvePlan {
    ValvePlan::Latching { open_pin, close_pin, pulse_ms, position: Position::Unknown }
}

#[test]
fn ac_initial_and_apply() {
    let low = ValvePlan::Ac { pin: 4, active_low: false };
    let inv = ValvePlan::Ac { pin: 4, active_low: true };
    assert_eq!(initial_steps(&low), vec![drive(ValveLine::Relay, false)]);
    assert_eq!(initial_steps(&inv), vec![drive(ValveLine::Relay, true)]);
    let mut p = low;
    assert_eq!(apply_steps(&mut p, true), vec![drive(ValveLine::Relay, true)]);
    assert_eq!(apply_steps(&mut p, false), vec![drive(ValveLine::Relay, false)]);
    assert_eq!(p, low);
    let mut q = inv;
    assert_eq!(apply_steps(&mut q, true), vec![drive(ValveLine::Relay, false)]);
    assert_eq!(apply_steps(&mut q, false), vec![drive(ValveLine::Relay, true)]);
    assert_eq!(q, inv);
}

#[test]
fn ac_starts_closed_example() {
    for active_low in [false, true] {
        let plan = ValvePlan::Ac { pin: 2, active_low };
        assert_eq!(initial_steps(&plan), apply_steps(&mut plan.clone(), false));
        assert_ne!(apply_steps(&mut plan.clone(), true), apply_steps(&mut plan.clone(), false));
    }
}

#[test]
fn ac_repeat_drives_same_level() {
    let mut plan = ValvePlan::Ac { pin: 2, active_low: false };
    let first = apply_steps(&mut plan, true);
    assert_eq!(apply_steps(&mut plan, true), first);
}

#[test]
fn latching_initial_and_apply() {
    let plan = latching(6, 7, 80);
    assert_eq!(
        initial_steps(&plan),
        vec![drive(ValveLine::Open, false), drive(ValveLine::Close, false)]
    );
    let mut p = plan;
    assert_eq!(
        apply_steps(&mut p, true),
        vec![drive(ValveLine::Open, true), Step::Wait { ms: 80 }, drive(ValveLine::Open, false)]
    );
    assert_eq!(
        p,
        ValvePlan::Latching { open_pin: 6, close_pin: 7, pulse_ms: 80, position: Position::Open }
    );
    assert_eq!(
        apply_steps(&mut p, false),
        vec![drive(ValveLine::Close, true), Step::Wait { ms: 80 }, drive(ValveLine::Close, false)]
    );
    assert_eq!(
        p,
        ValvePlan::Latching { open_pin: 6, close_pin: 7, pulse_ms: 80, position: Position::Closed }
    );
}

#[test]
fn latching_only_pulsed_on_state_change() {
    let mut p = latching(6, 7, 80);
    assert_eq!(apply_steps(&mut p, true).len(), 3);
    assert!(apply_steps(&mut p, true).is_empty());
    assert!(apply_steps(&mut p, true).is_empty());
    assert_eq!(apply_steps(&mut p, false).len(), 3);
    assert!(apply_steps(&mut p, false).is_empty());
}

#[test]
fn latching_unknown_position_is_pulsed_either_way() {
    assert_eq!(apply_steps(&mut latching(1, 2, 5), false).len(), 3);
    assert_eq!(apply_steps(&mut latching(1, 2, 5), true).len(), 3);
}

#[test]
fn startup_pulses_latching_valves_closed() {
    let mut plans = vec![latching(1, 2, 50), ValvePlan::Ac { pin: 3, active_low: false }, latching(4, 5, 70)];
    let a = |valve: usize, step: Step| Action { valve, step };
    assert_eq!(
        startup_close_actions(&mut plans),
        vec![
            a(0, drive(ValveLine::Close, true)),
            a(0, Step::Wait { ms: 50 }),
            a(0, drive(ValveLine::Close, false)),
            a(2, Step::Wait { ms: STARTUP_CLOSE_GAP_MS }),
            a(2, drive(ValveLine::Close, true)),
            a(2, Step::Wait { ms: 70 }),
            a(2, drive(ValveLine::Close, false)),
        ]
    );
    assert_eq!(STARTUP_CLOSE_GAP_MS, 100);
    assert_eq!(
        plans,
        vec![
            ValvePlan::Latching { open_pin: 1, close_pin: 2, pulse_ms: 50, position: Position::Closed },
            ValvePlan::Ac { pin: 3, active_low: false },
            ValvePlan::Latching { open_pin: 4, close_pin: 5, pulse_ms: 70, position: Position::Closed },
        ]
    );
}

#[test]
fn closed_after_startup_close_is_silent() {
    let mut plans = vec![latching(1, 2, 50)];
    startup_close_actions(&mut plans);
    assert!(apply_steps(&mut plans[0], false).is_empty());
    assert_eq!(
        apply_steps(&mut plans[0], true),
        vec![drive(ValveLine::Open, true), Step::Wait { ms: 50 }, drive(ValveLine::Open, false)]
    );
}

#[test]
fn startup_without_latching_does_nothing() {
    let mut plans = vec![ValvePlan::Ac { pin: 3, active_low: true }];
    assert!(startup_close_actions(&mut plans).is_empty());
    assert!(startup_close_actions(&mut vec![]).is_empty());
}

#[test]
fn startup_never_opens() {
    let mut plans = vec![
        ValvePlan::Ac { pin: 9, active_low: false },
        latching(1, 2, 10),
        latching(3, 4, 20),
    ];
    for action in startup_close_actions(&mut plans) {
        assert!(matches!(plans[action.valve], ValvePlan::Latching { .. }));
        if let Step::Drive { line, .. } = action.step {
            assert_eq!(line, ValveLine::Close);
        }
    }
}
