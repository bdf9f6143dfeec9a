use telewind::parser::Observation;
use telewind::Sector;
use telewind::WindState;
use telewind::WindTracker;

/// Produces observations one minute apart, with the given speed (in tenths
/// of a metre per second) and direction.
struct ObservationSequence {
    time: i64,
}

impl ObservationSequence {
    fn next(&mut self, avg_speed: u32, direction: u16) -> Observation {
        self.time += 60;
        Observation { time: self.time, avg_speed, direction }
    }
}

fn step(fsm: &mut WindTracker, observation: &Observation) -> WindState {
    fsm.step(observation);
    fsm.state()
}

fn new_seq_and_fsm(candidate_steps: u8, cooldown_steps: u8) -> (ObservationSequence, WindTracker) {
    let seq = ObservationSequence { time: 1643637600 };

    let fsm = WindTracker {
        state: WindState::Low,
        wind_sector: Sector(135, 225), // SE-SW
        candidate_steps,
        cooldown_steps,
        avg_speed_threshold: 50,
    };
    (seq, fsm)
}

#[test]
fn fsm_full_cycle() {
    let (mut seq, mut fsm) = new_seq_and_fsm(2, 2);

    assert_eq!(step(&mut fsm, &seq.next(32, 180)), WindState::Low);
    assert_eq!(step(&mut fsm, &seq.next(57, 180)), WindState::Candidate(1));
    assert_eq!(step(&mut fsm, &seq.next(54, 180)), WindState::Candidate(2));
    assert_eq!(step(&mut fsm, &seq.next(54, 180)), WindState::High);
    assert_eq!(step(&mut fsm, &seq.next(35, 180)), WindState::Cooldown(1));
    assert_eq!(step(&mut fsm, &seq.next(35, 180)), WindState::Cooldown(2));
    assert_eq!(step(&mut fsm, &seq.next(41, 180)), WindState::Low);
}

#[test]
fn fsm_directorion_mismatch() {
    let (mut seq, mut fsm) = new_seq_and_fsm(2, 2);

    assert_eq!(step(&mut fsm, &seq.next(50, 180)), WindState::Candidate(1));
    assert_eq!(step(&mut fsm, &seq.next(50, 0)), WindState::Low);
}

#[test]
fn fsm_candidate_reset() {
    let (mut seq, mut fsm) = new_seq_and_fsm(2, 2);

    assert_eq!(step(&mut fsm, &seq.next(57, 180)), WindState::Candidate(1));
    assert_eq!(step(&mut fsm, &seq.next(34, 180)), WindState::Low);
}

#[test]
fn fsm_cooldown_reset() {
    let (mut seq, mut fsm) = new_seq_and_fsm(0, 2);

    assert_eq!(step(&mut fsm, &seq.next(57, 180)), WindState::High);
    assert_eq!(step(&mut fsm, &seq.next(37, 180)), WindState::Cooldown(1));
    assert_eq!(step(&mut fsm, &seq.next(54, 180)), WindState::High);
}

#[test]
fn fsm_event_fires_only_on_rising_edge() {
    let (mut seq, mut fsm) = new_seq_and_fsm(2, 2);

    assert!(!fsm.step(&seq.next(32, 180))); // Low -> Low
    assert!(!fsm.step(&seq.next(57, 180))); // Low -> Candidate(1)
    assert!(!fsm.step(&seq.next(54, 180))); // Candidate(1) -> Candidate(2)
    assert!(fsm.step(&seq.next(54, 180))); // Candidate(2) -> High: the event
    assert!(!fsm.step(&seq.next(54, 180))); // High -> High
    assert!(!fsm.step(&seq.next(35, 180))); // High -> Cooldown(1)
    assert!(!fsm.step(&seq.next(54, 180))); // Cooldown(1) -> High: no new edge
}

#[test]
fn fsm_zero_candidate_steps_fires_at_once() {
    let (mut seq, mut fsm) = new_seq_and_fsm(0, 2);

    assert!(fsm.step(&seq.next(57, 180)));
    assert_eq!(fsm.state(), WindState::High);
}

#[test]
fn fsm_zero_cooldown_steps_clears_at_once() {
    let (mut seq, mut fsm) = new_seq_and_fsm(0, 0);

    assert!(fsm.step(&seq.next(57, 180)));
    assert!(!fsm.step(&seq.next(35, 180)));
    assert_eq!(fsm.state(), WindState::Low);
}
