use rs_script::logging::{Logger, Verbosity};

#[test]
fn a_logger_lets_through_what_is_not_above_its_level() {
    let mut logger = Logger::new(Verbosity::Normal);
    assert_eq!(logger.verbosity, Verbosity::Normal);
    assert_eq!(logger.log(Verbosity::Quiet, "q"), Some("q".to_string()));
    assert_eq!(logger.log(Verbosity::Normal, "n"), Some("n".to_string()));
    assert_eq!(logger.log(Verbosity::Verbose, "v"), None);

    logger.set_verbosity(Verbosity::Quiet);
    assert_eq!(logger.verbosity, Verbosity::Quiet);
    assert_eq!(logger.log(Verbosity::Quiet, "q"), Some("q".to_string()));
    assert_eq!(logger.log(Verbosity::Normal, "n"), None);

    logger.set_verbosity(Verbosity::Verbose);
    assert_eq!(logger.log(Verbosity::Verbose, "v"), Some("v".to_string()));
}

#[test]
fn levels_are_ranked() {
    assert_eq!(Verbosity::Quiet.rank(), 0);
    assert_eq!(Verbosity::Normal.rank(), 1);
    assert_eq!(Verbosity::Verbose.rank(), 2);
}
