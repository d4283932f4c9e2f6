use wheelsticks::log::{enabled, level, set_level, Level, LevelError, Threshold};

#[test]
fn level_is_debug_until_it_is_set() {
    let threshold = Threshold::new();
    assert_eq!(level(&threshold), Level::Debug);
}

#[test]
fn level_is_what_was_set() {
    for chosen in [Level::Debug, Level::Info, Level::Warn, Level::Error] {
        let mut threshold = Threshold::new();
        assert_eq!(set_level(&mut threshold, chosen), Ok(()));
        assert_eq!(level(&threshold), chosen);
    }
}

#[test]
fn level_can_be_set_only_once() {
    let mut threshold = Threshold::new();
    assert_eq!(set_level(&mut threshold, Level::Warn), Ok(()));
    assert_eq!(set_level(&mut threshold, Level::Debug), Err(LevelError::SetTwice));
    assert_eq!(set_level(&mut threshold, Level::Warn), Err(LevelError::SetTwice));
    assert_eq!(level(&threshold), Level::Warn);
}

#[test]
fn diagnostics_below_the_level_are_dropped() {
    let levels = [Level::Debug, Level::Info, Level::Warn, Level::Error];
    for (current_rank, current) in levels.iter().enumerate() {
        for (message_rank, message) in levels.iter().enumerate() {
            assert_eq!(enabled(*current, *message), current_rank <= message_rank);
            assert_eq!(enabled(*current, *message), current <= message);
        }
    }
    assert!(enabled(Level::Debug, Level::Debug));
    assert!(!enabled(Level::Info, Level::Debug));
    assert!(enabled(Level::Warn, Level::Error));
}
