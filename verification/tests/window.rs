use telewind::parser::Observation;
use telewind::window::ObservationWindow;

fn obs(time: i64, avg_speed: u32) -> Observation {
    Observation { time, direction: 180, avg_speed }
}

fn drain(window: &mut ObservationWindow) -> Vec<Observation> {
    let mut out = Vec::new();
    while let Some(o) = window.next() {
        out.push(o);
    }
    out
}

#[test]
fn window_bootstrap_keeps_only_latest() {
    let mut window = ObservationWindow::new();

    // first successful batch: out of order, more than one observation
    window.ingest(&vec![obs(300, 41), obs(100, 39), obs(200, 40)]);

    let emitted = drain(&mut window);
    assert_eq!(1, emitted.len());
    assert_eq!(obs(300, 41), emitted[0]);
}

#[test]
fn window_same_batch_twice_emits_nothing_new() {
    let mut window = ObservationWindow::new();
    let batch = vec![obs(100, 39), obs(200, 40), obs(300, 41)];

    window.ingest(&batch);
    let first = drain(&mut window);
    assert_eq!(1, first.len()); // bootstrap

    window.ingest(&batch);
    assert_eq!(None, window.next());
}

#[test]
fn window_overlapping_polls_deduplicate() {
    let mut window = ObservationWindow::new();

    window.ingest(&vec![obs(100, 39)]);
    assert_eq!(vec![obs(100, 39)], drain(&mut window));

    // the next poll re-returns old history along with two new entries
    window.ingest(&vec![obs(300, 41), obs(100, 39), obs(200, 40)]);
    assert_eq!(vec![obs(200, 40), obs(300, 41)], drain(&mut window));

    // a third poll with nothing new
    window.ingest(&vec![obs(300, 41), obs(200, 40)]);
    assert_eq!(None, window.next());
}

#[test]
fn window_emits_in_chronological_order() {
    let mut window = ObservationWindow::new();

    window.ingest(&vec![obs(10, 30)]);
    window.ingest(&vec![obs(50, 34), obs(30, 32), obs(40, 33), obs(20, 31)]);
    window.ingest(&vec![obs(70, 36), obs(60, 35), obs(50, 34)]);

    let emitted = drain(&mut window);
    let times: Vec<i64> = emitted.iter().map(|o| o.time).collect();
    assert_eq!(vec![10, 20, 30, 40, 50, 60, 70], times);
}

#[test]
fn window_duplicate_times_in_one_batch_emit_once() {
    let mut window = ObservationWindow::new();

    window.ingest(&vec![obs(10, 30)]);
    assert_eq!(vec![obs(10, 30)], drain(&mut window));

    window.ingest(&vec![obs(20, 31), obs(20, 99), obs(30, 32)]);

    let emitted = drain(&mut window);
    let times: Vec<i64> = emitted.iter().map(|o| o.time).collect();
    assert_eq!(vec![20, 30], times);
}

#[test]
fn window_empty_poll_changes_nothing() {
    let mut window = ObservationWindow::new();

    window.ingest(&Vec::new());
    assert_eq!(None, window.next());

    window.ingest(&vec![obs(10, 30)]);
    window.ingest(&Vec::new());
    assert_eq!(vec![obs(10, 30)], drain(&mut window));
}
