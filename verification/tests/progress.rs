use imgsearch::layout::Rect;
use imgsearch::progress::{
    glyph, indicator_position, Indicator, IndicatorAction, FRAMES, FRAME_MILLIS,
};

#[test]
fn the_indicator_draws_its_frames_in_turn() {
    assert_eq!(FRAMES, 10);
    assert_eq!(FRAME_MILLIS, 50);
    let expected = ['⠋', '⠙', '⠹', '⠸', '⠼', '⠴', '⠦', '⠧', '⠇', '⠏'];
    let mut indicator = Indicator::start();
    for round in 0..3 {
        for (i, c) in expected.iter().enumerate() {
            assert_eq!(indicator.frame, i, "round {}", round);
            assert_eq!(indicator.tick(false), IndicatorAction::Draw(*c));
            assert!(indicator.running);
        }
    }
    for (i, c) in expected.iter().enumerate() {
        assert_eq!(glyph(i), *c);
    }
}

#[test]
fn a_raised_signal_ends_the_indicator_at_the_next_poll() {
    for frames_before in 0..25 {
        let mut indicator = Indicator::start();
        for _ in 0..frames_before {
            assert!(matches!(indicator.tick(false), IndicatorAction::Draw(_)));
        }
        assert_eq!(indicator.tick(true), IndicatorAction::Clear);
        assert!(!indicator.running);
    }
}

#[test]
fn an_ended_indicator_never_draws_again() {
    let mut indicator = Indicator::start();
    indicator.tick(false);
    indicator.tick(true);
    let frame = indicator.frame;
    assert_eq!(indicator.tick(false), IndicatorAction::Clear);
    assert_eq!(indicator.tick(false), IndicatorAction::Clear);
    assert!(!indicator.running);
    assert_eq!(indicator.frame, frame);
}

#[test]
fn the_indicator_sits_at_the_end_of_the_search_box() {
    assert_eq!(indicator_position(Rect::new(0, 1, 60, 3)), (59, 3));
    assert_eq!(indicator_position(Rect::new(10, 0, 1, 3)), (10, 2));
    assert_eq!(indicator_position(Rect::new(5, 7, 0, 0)), (4, 9));
}
