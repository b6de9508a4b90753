use guessing_game::session::{Feedback, Session};

#[test]
fn full_session_against_fixed_target() {
    let mut s = Session::new(50);
    assert!(!s.is_won());
    assert_eq!(s.submit_line("10"), Some(Feedback::TooSmall));
    assert!(!s.is_won());
    assert_eq!(s.submit_line("90"), Some(Feedback::TooLarge));
    assert!(!s.is_won());
    assert_eq!(s.submit_line("abc"), None);
    assert!(!s.is_won());
    assert_eq!(s.submit_line("50"), Some(Feedback::Congratulation));
    assert!(s.is_won());
}

#[test]
fn smallest_target_won_on_first_valid_guess() {
    let mut s = Session::new(1);
    assert_eq!(s.submit_line("1"), Some(Feedback::Congratulation));
    assert!(s.is_won());
}

#[test]
fn largest_target_after_one_low_guess() {
    let mut s = Session::new(100);
    assert_eq!(s.submit_line("99"), Some(Feedback::TooSmall));
    assert!(!s.is_won());
    assert_eq!(s.submit_line("100"), Some(Feedback::Congratulation));
    assert!(s.is_won());
}

#[test]
fn invalid_input_is_discarded_silently() {
    let mut s = Session::new(42);
    for raw in ["abc", "", "   ", "12abc", "-3", "+4", "4 2"] {
        assert_eq!(s.submit_line(raw), None);
        assert!(!s.is_won());
    }
}

#[test]
fn no_win_without_an_equal_guess() {
    let mut s = Session::new(50);
    for n in 1..=100u32 {
        if n != 50 {
            let fb = s.submit_line(&format!("{}", n));
            assert!(fb == Some(Feedback::TooSmall) || fb == Some(Feedback::TooLarge));
            assert!(!s.is_won());
        }
    }
}

#[test]
fn won_session_ignores_further_lines() {
    let mut s = Session::new(7);
    assert_eq!(s.submit_line("7"), Some(Feedback::Congratulation));
    assert!(s.is_won());
    assert_eq!(s.submit_line("7"), None);
    assert_eq!(s.submit_line("8"), None);
    assert!(s.is_won());
}

#[test]
fn random_session_starts_waiting_and_zero_is_too_small() {
    let mut s = Session::new_random();
    assert!(!s.is_won());
    assert_eq!(s.submit_line("0"), Some(Feedback::TooSmall));
    assert!(!s.is_won());
}

#[test]
fn feedback_messages_match_the_banner_lines() {
    assert_eq!(Feedback::TooSmall.message(), "Too small...");
    assert_eq!(Feedback::TooLarge.message(), "Too large...");
    assert_eq!(
        Feedback::Congratulation.message(),
        "Congratulations! You guessed the number!"
    );
}
