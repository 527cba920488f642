use arcadecoder_hw::coder::ArcadeCoder;
use arcadecoder_hw::ButtonEvent;

fn no_presses() -> Vec<Vec<bool>> {
    vec![vec![false; 12]; 12]
}

fn one_press(x: usize, y: usize) -> Vec<Vec<bool>> {
    let mut grid = no_presses();
    grid[y][x] = true;
    grid
}

fn cycle(ac: &mut ArcadeCoder, pressed: &Vec<Vec<bool>>) -> Vec<ButtonEvent> {
    ac.scan(pressed);
    ac.handle_input_events()
}

#[test]
fn a_held_press_emits_exactly_one_event() {
    let mut ac = ArcadeCoder::new();
    let pressed = one_press(5, 3);
    let mut all_events = Vec::new();
    for _ in 0..20 {
        all_events.extend(cycle(&mut ac, &pressed));
    }
    assert_eq!(all_events.len(), 1);
    assert!(matches!(all_events[0], ButtonEvent::Pressed(5, 3)));
}

#[test]
fn the_press_commits_after_the_configured_number_of_reads() {
    let mut ac = ArcadeCoder::new();
    assert_eq!(ac.debounce_reads, 5);
    let pressed = one_press(2, 7);
    // the first cycle records the change, the next four match; the fifth
    // matching read reaches the threshold and commits
    for i in 0..5 {
        let events = cycle(&mut ac, &pressed);
        assert!(events.is_empty(), "no event expected in cycle {}", i);
        assert!(!ac.stable_pressed((2, 7)));
    }
    let events = cycle(&mut ac, &pressed);
    assert_eq!(events.len(), 1);
    assert!(matches!(events[0], ButtonEvent::Pressed(2, 7)));
    assert!(ac.stable_pressed((2, 7)));
}

#[test]
fn a_release_emits_its_own_single_event() {
    let mut ac = ArcadeCoder::new();
    let pressed = one_press(0, 11);
    let mut events = Vec::new();
    for _ in 0..10 {
        events.extend(cycle(&mut ac, &pressed));
    }
    assert_eq!(events.len(), 1);
    assert!(matches!(events[0], ButtonEvent::Pressed(0, 11)));
    let mut release_events = Vec::new();
    for _ in 0..10 {
        release_events.extend(cycle(&mut ac, &no_presses()));
    }
    assert_eq!(release_events.len(), 1);
    assert!(matches!(release_events[0], ButtonEvent::Released(0, 11)));
}

#[test]
fn an_alternating_sample_never_emits() {
    let mut ac = ArcadeCoder::new();
    let bouncing = one_press(6, 6);
    let quiet = no_presses();
    for i in 0..40 {
        let events = if i % 2 == 0 {
            cycle(&mut ac, &bouncing)
        } else {
            cycle(&mut ac, &quiet)
        };
        assert!(events.is_empty(), "no event expected in cycle {}", i);
        assert!(!ac.stable_pressed((6, 6)));
    }
}

#[test]
fn a_short_bounce_is_filtered_out() {
    let mut ac = ArcadeCoder::new();
    let pressed = one_press(4, 4);
    let quiet = no_presses();
    // held for three cycles only: under the threshold of five
    let mut events = Vec::new();
    for _ in 0..3 {
        events.extend(cycle(&mut ac, &pressed));
    }
    for _ in 0..10 {
        events.extend(cycle(&mut ac, &quiet));
    }
    assert!(events.is_empty());
}

#[test]
fn simultaneous_presses_are_tracked_independently() {
    let mut ac = ArcadeCoder::new();
    let mut pressed = no_presses();
    pressed[1][1] = true;
    pressed[10][8] = true;
    let mut events = Vec::new();
    for _ in 0..12 {
        events.extend(cycle(&mut ac, &pressed));
    }
    assert_eq!(events.len(), 2);
    // events come in row-major cell order
    assert!(matches!(events[0], ButtonEvent::Pressed(1, 1)));
    assert!(matches!(events[1], ButtonEvent::Pressed(8, 10)));
}
