use chord_trainer::note::{Key, Note};
use chord_trainer::scheduler::Scheduler;

fn c3() -> Key {
    Key::new(Note::C, 3)
}

fn e3() -> Key {
    Key::new(Note::E, 3)
}

fn g3() -> Key {
    Key::new(Note::G, 3)
}

#[test]
fn arpeggio_fires_in_time_order() {
    let mut sched = Scheduler::new();
    let t = 1000;
    sched.schedule_chord(&vec![c3(), e3(), g3()], 100, t);

    let fired = sched.tick(t + 50);
    assert_eq!(fired, vec![c3()]);

    let fired = sched.tick(t + 150);
    assert_eq!(fired, vec![e3()]);

    let fired = sched.tick(t + 250);
    assert_eq!(fired, vec![g3()]);

    let fired = sched.tick(t + 10_000);
    assert_eq!(fired, vec![]);
}

#[test]
fn sounding_lasts_exactly_three_thousand_ticks() {
    let mut sched = Scheduler::new();
    let t = 1000;
    sched.schedule_chord(&vec![c3(), e3(), g3()], 100, t);

    let trigger_times = [t + 50, t + 150, t + 250];
    let keys = [c3(), e3(), g3()];
    for (i, &trigger_time) in trigger_times.iter().enumerate() {
        let fired = sched.tick(trigger_time);
        assert_eq!(fired, vec![keys[i]]);
        assert!(sched.is_sounding(keys[i], trigger_time + 2999));
        assert!(!sched.is_sounding(keys[i], trigger_time + 3000));
    }
}

#[test]
fn tick_uses_strict_lateness() {
    let mut sched = Scheduler::new();
    let t = 500;
    sched.schedule_chord(&vec![c3(), e3(), g3()], 0, t);

    // At exactly the scheduled time nothing is due yet.
    let fired = sched.tick(t);
    assert_eq!(fired, vec![]);

    // One tick later the whole strum fires at once, in pitch order.
    let fired = sched.tick(t + 1);
    assert_eq!(fired, vec![c3(), e3(), g3()]);
}

#[test]
fn retrigger_discards_unfired_entries() {
    let mut sched = Scheduler::new();
    let t = 1000;
    sched.schedule_chord(&vec![c3(), e3(), g3()], 100, t);

    let fired = sched.tick(t + 50);
    assert_eq!(fired, vec![c3()]);

    // Reschedule before E3 and G3 fire: they must never fire afterwards.
    let d3 = Key::new(Note::D, 3);
    sched.schedule_chord(&vec![d3], 0, t + 60);
    let fired = sched.tick(t + 100_000);
    assert_eq!(fired, vec![d3]);

    let fired = sched.tick(t + 200_000);
    assert_eq!(fired, vec![]);
}

#[test]
fn retrigger_keeps_already_sounding_pitches() {
    let mut sched = Scheduler::new();
    let t = 1000;
    sched.schedule_chord(&vec![c3()], 0, t);
    let fired = sched.tick(t + 10);
    assert_eq!(fired, vec![c3()]);

    sched.schedule_chord(&vec![e3()], 0, t + 20);
    // C3 was already triggered; rescheduling does not silence its display state.
    assert!(sched.is_sounding(c3(), t + 30));
}

#[test]
fn triggering_again_extends_the_expiry() {
    let mut sched = Scheduler::new();
    sched.schedule_chord(&vec![c3()], 0, 100);
    let fired = sched.tick(200);
    assert_eq!(fired, vec![c3()]);
    assert!(!sched.is_sounding(c3(), 3200));

    sched.schedule_chord(&vec![c3()], 0, 3000);
    let fired = sched.tick(3100);
    assert_eq!(fired, vec![c3()]);
    assert!(sched.is_sounding(c3(), 3200));
    assert!(sched.is_sounding(c3(), 6099));
    assert!(!sched.is_sounding(c3(), 6100));
}

#[test]
fn unknown_pitch_is_not_sounding() {
    let sched = Scheduler::new();
    assert!(!sched.is_sounding(c3(), 0));
    assert!(!sched.is_sounding(c3(), u32::MAX));
}

#[test]
fn zero_delay_shares_one_trigger_time() {
    let mut sched = Scheduler::new();
    sched.schedule_chord(&vec![c3(), e3(), g3()], 0, 100);
    let fired = sched.tick(101);
    assert_eq!(fired, vec![c3(), e3(), g3()]);
    for key in [c3(), e3(), g3()] {
        assert!(sched.is_sounding(key, 101 + 2999));
        assert!(!sched.is_sounding(key, 101 + 3000));
    }
}

#[test]
fn partial_strum_keeps_the_rest_queued() {
    let mut sched = Scheduler::new();
    sched.schedule_chord(&vec![c3(), e3(), g3()], 400, 0);
    let fired = sched.tick(500);
    assert_eq!(fired, vec![c3(), e3()]);
    let fired = sched.tick(500);
    assert_eq!(fired, vec![]);
    let fired = sched.tick(801);
    assert_eq!(fired, vec![g3()]);
}
