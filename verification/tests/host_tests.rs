use chip8::beep::clamp_beep_frequency;
use chip8::games::is_game_file;
use chip8::hexview::{byte_kind, is_highlighted, ByteKind};
use chip8::pacing::{catch_up, MAX_STEPS_PER_FRAME};

#[test]
fn game_files_by_extension() {
    assert!(is_game_file(true, Some("ch8")));
    assert!(is_game_file(true, Some("CH8")));
    assert!(is_game_file(true, Some("c8K")));
    assert!(is_game_file(true, None));
    assert!(!is_game_file(true, Some("txt")));
    assert!(!is_game_file(true, Some("ch88")));
    assert!(!is_game_file(true, Some("")));
    assert!(!is_game_file(true, Some("8ch")));
    assert!(!is_game_file(false, Some("ch8")));
    assert!(!is_game_file(false, None));
}

fn due(now: u64, next_tick: u64, tick: u64) -> (usize, u64, bool) {
    let pacing = catch_up(now, next_tick, tick);
    (pacing.due, pacing.next_tick, pacing.restart)
}

#[test]
fn nothing_due_before_next_tick() {
    assert_eq!(due(99, 100, 10), (0, 100, false));
}

#[test]
fn due_ticks_are_counted() {
    assert_eq!(due(100, 100, 10), (1, 110, false));
    assert_eq!(due(125, 100, 10), (3, 130, false));
    assert_eq!(due(130, 100, 10), (4, 140, false));
}

#[test]
fn catch_up_is_capped() {
    let (count, next, restart) = due(1_000_000_000, 0, 1);
    assert_eq!(count, MAX_STEPS_PER_FRAME);
    assert_eq!(next, MAX_STEPS_PER_FRAME as u64);
    assert!(restart);
}

#[test]
fn byte_kinds_in_memory_view() {
    assert!(byte_kind(10, (0, 80), Some((512, 600))) == ByteKind::Font);
    assert!(byte_kind(80, (0, 80), Some((512, 600))) == ByteKind::Other);
    assert!(byte_kind(512, (0, 80), Some((512, 600))) == ByteKind::Rom);
    assert!(byte_kind(600, (0, 80), Some((512, 600))) == ByteKind::Other);
    assert!(byte_kind(520, (0, 80), None) == ByteKind::Other);
    assert!(byte_kind(5, (0, 80), Some((0, 100))) == ByteKind::Font);
}

#[test]
fn highlighted_addresses() {
    assert!(is_highlighted(0x201, &[0x200, 0x201]));
    assert!(!is_highlighted(0x202, &[0x200, 0x201]));
    assert!(!is_highlighted(0, &[]));
}

#[test]
fn beep_frequency_is_clamped() {
    assert_eq!(clamp_beep_frequency(10), 80);
    assert_eq!(clamp_beep_frequency(440), 440);
    assert_eq!(clamp_beep_frequency(80), 80);
    assert_eq!(clamp_beep_frequency(2000), 2000);
    assert_eq!(clamp_beep_frequency(5000), 2000);
}
