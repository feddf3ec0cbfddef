use audioscope::capture::Capture;
use audioscope::frames::{advance_frame, next_slot, AudioBuffer, CARRIED_POINTS};
use audioscope::render::{decide, frame_interval_nanos, LoopAction, LoopEvent};
use audioscope::settings::{is_power_of_two, AudioSettings, SettingsError};
use audioscope::taps::{analytic_taps, Tap};
use audioscope::window::SampleWindow;

fn settings(b: usize, f: usize, nb: usize) -> Result<AudioSettings, SettingsError> {
    AudioSettings::new(b, f, nb)
}

#[test]
fn settings_accept_default_sizes() {
    let s = settings(256, 1024, 4).unwrap();
    assert_eq!(s.buffer_size(), 256);
    assert_eq!(s.fft_size(), 1024);
    assert_eq!(s.num_buffers(), 4);
    // 1024 - 256 = 768 is even, so one tap is dropped.
    assert_eq!(s.filter_length(), 767);
    assert_eq!(s.frame_len(), 259);
}

#[test]
fn settings_odd_gap_keeps_length() {
    // 8 - 0 = 8 is even; with a block of 1 the gap 7 is odd and kept.
    let s = settings(1, 8, 1).unwrap();
    assert_eq!(s.filter_length(), 7);
    let s = settings(0, 8, 1).unwrap();
    assert_eq!(s.filter_length(), 7);
    assert_eq!(s.frame_len(), 3);
}

#[test]
fn settings_smallest_window() {
    // 4 - 1 = 3: the shortest filter that still has a tap on each side.
    let s = settings(1, 4, 2).unwrap();
    assert_eq!(s.filter_length(), 3);
    assert!(matches!(settings(2, 4, 2), Err(SettingsError::WindowTooShort)));
}

#[test]
fn settings_errors() {
    assert!(matches!(settings(256, 1024, 0), Err(SettingsError::NoBuffers)));
    assert!(matches!(settings(256, 258, 2), Err(SettingsError::WindowTooShort)));
    assert!(matches!(settings(1024, 256, 2), Err(SettingsError::WindowTooShort)));
    assert!(matches!(settings(0, 2, 2), Err(SettingsError::WindowTooShort)));
    assert!(matches!(settings(3, 1024, 2), Err(SettingsError::BlockDoesNotDivide)));
    assert!(matches!(settings(4, 12, 2), Err(SettingsError::NotPowerOfTwo)));
    assert!(matches!(settings(0, 1000, 2), Err(SettingsError::NotPowerOfTwo)));
    let huge = usize::MAX / 2 + 1;
    assert!(matches!(settings(4, huge, 2), Err(SettingsError::TooLarge)));
    // The first failing check decides the error.
    assert!(matches!(settings(3, 12, 0), Err(SettingsError::NoBuffers)));
}

#[test]
fn power_of_two_check() {
    assert!(!is_power_of_two(0));
    assert!(is_power_of_two(1));
    assert!(is_power_of_two(2));
    assert!(!is_power_of_two(3));
    assert!(is_power_of_two(1024));
    assert!(!is_power_of_two(1023));
    assert!(!is_power_of_two(768));
    assert!(is_power_of_two(usize::MAX / 2 + 1));
    assert!(!is_power_of_two(usize::MAX));
}

#[test]
fn window_keeps_latest_samples() {
    let mut w = SampleWindow::new(0i32, 4, 2);
    assert_eq!(w.len(), 4);
    assert_eq!(w.block_len(), 2);
    assert_eq!(w.window().to_vec(), vec![0, 0, 0, 0]);
    w.push_block(&[1, 2]);
    assert_eq!(w.window().to_vec(), vec![0, 0, 1, 2]);
    w.push_block(&[3, 4]);
    assert_eq!(w.window().to_vec(), vec![1, 2, 3, 4]);
    w.push_block(&[5, 6]);
    assert_eq!(w.window().to_vec(), vec![3, 4, 5, 6]);
    w.push_block(&[7, 8]);
    assert_eq!(w.window().to_vec(), vec![5, 6, 7, 8]);
}

#[test]
fn window_law_many_blocks() {
    // After any number of blocks the window is the last 8 samples of the
    // whole stream (initial silence followed by every block).
    let mut w = SampleWindow::new(0u32, 8, 2);
    let mut stream: Vec<u32> = vec![0; 8];
    for k in 0..37u32 {
        let block = [2 * k + 1, 2 * k + 2];
        w.push_block(&block);
        stream.extend_from_slice(&block);
        let latest = stream[stream.len() - 8..].to_vec();
        assert_eq!(w.window().to_vec(), latest);
    }
}

#[test]
fn window_block_equal_to_size() {
    let mut w = SampleWindow::new(0u8, 2, 2);
    w.push_block(&[1, 2]);
    assert_eq!(w.window().to_vec(), vec![1, 2]);
    w.push_block(&[3, 4]);
    assert_eq!(w.window().to_vec(), vec![3, 4]);
}

#[test]
fn window_empty_blocks_change_nothing() {
    let mut w = SampleWindow::new(7u8, 4, 0);
    w.push_block(&[]);
    assert_eq!(w.window().to_vec(), vec![7, 7, 7, 7]);
}

#[test]
fn frame_carries_three_points() {
    assert_eq!(CARRIED_POINTS, 3);
    let mut frame = vec![1, 2, 3, 4, 5];
    advance_frame(&mut frame, &[6, 7]);
    assert_eq!(frame, vec![3, 4, 5, 6, 7]);
    advance_frame(&mut frame, &[8, 9]);
    assert_eq!(frame, vec![5, 6, 7, 8, 9]);
    let mut only_carry = vec![1, 2, 3];
    advance_frame(&mut only_carry, &[]);
    assert_eq!(only_carry, vec![1, 2, 3]);
}

#[test]
fn slots_go_round() {
    assert_eq!(next_slot(0, 3), 1);
    assert_eq!(next_slot(1, 3), 2);
    assert_eq!(next_slot(2, 3), 0);
    assert_eq!(next_slot(0, 1), 0);
}

#[test]
fn buffer_publish_then_take() {
    let mut b = AudioBuffer::new(0i32, 3);
    assert!(b.rendered);
    assert_eq!(b.analytic, vec![0, 0, 0]);
    let mut out = vec![9, 9, 9];
    // Nothing to draw yet.
    assert!(!b.take(&mut out));
    assert_eq!(out, vec![9, 9, 9]);
    // A published frame is taken once.
    assert!(!b.publish(&[1, 2, 3]));
    assert!(!b.rendered);
    assert!(b.take(&mut out));
    assert_eq!(out, vec![1, 2, 3]);
    assert!(b.rendered);
    assert!(!b.take(&mut out));
    assert_eq!(out, vec![1, 2, 3]);
}

#[test]
fn buffer_reports_dropped_frame() {
    let mut b = AudioBuffer::new(0u8, 2);
    assert!(!b.publish(&[1, 1]));
    // The first frame was never drawn: it is dropped.
    assert!(b.publish(&[2, 2]));
    let mut out = vec![0, 0];
    assert!(b.take(&mut out));
    assert_eq!(out, vec![2, 2]);
    assert!(!b.publish(&[3, 3]));
}

#[test]
fn taps_small_filter() {
    let taps = analytic_taps(5, 8);
    assert_eq!(
        taps,
        vec![
            Tap::Real { offset: 2 },
            Tap::Imag { offset: 1, negative: true },
            Tap::Center,
            Tap::Imag { offset: 1, negative: false },
            Tap::Real { offset: 2 },
            Tap::Zero,
            Tap::Zero,
            Tap::Zero,
        ]
    );
    assert_eq!(analytic_taps(1, 2), vec![Tap::Center, Tap::Zero]);
    assert_eq!(
        analytic_taps(3, 3),
        vec![Tap::Imag { offset: 1, negative: true }, Tap::Center, Tap::Imag { offset: 1, negative: false }]
    );
}

#[test]
fn taps_default_filter_symmetric() {
    // A window of 1024 (about 40 Hz) with 75% overlap: m = 1024, n = 767.
    let m = 1024;
    let n = m / 4 * 3 - 1;
    let taps = analytic_taps(n, m);
    assert_eq!(taps.len(), m);
    let mid = (n - 1) / 2;
    assert_eq!(taps[mid], Tap::Center);
    for i in 1..=mid {
        let (after, before) = (taps[mid + i], taps[mid - i]);
        if i % 2 == 0 {
            assert_eq!(after, Tap::Real { offset: i });
            assert_eq!(before, Tap::Real { offset: i });
        } else {
            assert_eq!(after, Tap::Imag { offset: i, negative: false });
            assert_eq!(before, Tap::Imag { offset: i, negative: true });
        }
    }
    assert!(taps[n..].iter().all(|t| *t == Tap::Zero));
    assert_eq!(taps.iter().filter(|t| **t == Tap::Center).count(), 1);
}

#[test]
fn render_decisions() {
    assert_eq!(decide(LoopEvent::CloseRequested), LoopAction::Exit);
    assert_eq!(decide(LoopEvent::OtherWindowEvent), LoopAction::Ignore);
    assert_eq!(decide(LoopEvent::ResumeTimeReached), LoopAction::Draw);
    assert_eq!(decide(LoopEvent::Init), LoopAction::Draw);
    assert_eq!(decide(LoopEvent::OtherStartCause), LoopAction::Ignore);
    assert_eq!(decide(LoopEvent::Other), LoopAction::Ignore);
}

#[test]
fn frame_interval() {
    assert_eq!(frame_interval_nanos(Some(60)), 16_666_666);
    assert_eq!(frame_interval_nanos(Some(1)), 1_000_000_000);
    assert_eq!(frame_interval_nanos(Some(144)), 6_944_444);
    assert_eq!(frame_interval_nanos(None), 0);
}

#[test]
fn capture_cycle() {
    let s = settings(2, 8, 3).unwrap();
    let mut c: Capture<i32, i32> = Capture::new(&s, 0, -1);
    assert_eq!(c.block_len(), 2);
    assert_eq!(c.window().to_vec(), vec![0; 8]);
    assert_eq!(c.frame().to_vec(), vec![-1; 5]);
    assert_eq!(c.newest_block_start(), 6);

    c.push_block(&[1, 2]);
    assert_eq!(c.window().to_vec(), vec![0, 0, 0, 0, 0, 0, 1, 2]);
    c.advance_frame(&[10, 20]);
    assert_eq!(c.frame().to_vec(), vec![-1, -1, -1, 10, 20]);
    assert_eq!(c.take_slot(), 0);

    c.push_block(&[3, 4]);
    assert_eq!(c.window().to_vec(), vec![0, 0, 0, 0, 1, 2, 3, 4]);
    c.advance_frame(&[30, 40]);
    assert_eq!(c.frame().to_vec(), vec![-1, 10, 20, 30, 40]);
    assert_eq!(c.take_slot(), 1);
    assert_eq!(c.take_slot(), 2);
    // Round robin: the fourth frame goes back to buffer 0.
    assert_eq!(c.take_slot(), 0);
}

#[test]
fn capture_round_robin_law() {
    let s = settings(1, 4, 5).unwrap();
    let mut c: Capture<u8, u8> = Capture::new(&s, 0, 0);
    for k in 0..23usize {
        assert_eq!(c.take_slot(), k % 5);
    }
}
