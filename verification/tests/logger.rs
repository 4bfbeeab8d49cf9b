use nibari::logger::{parse_level, LevelFilter};

#[test]
fn parses_global_and_target_levels() {
    assert_eq!(parse_level("debug"), Some(LevelFilter::Debug));
    assert_eq!(parse_level("warn,nibari=trace"), Some(LevelFilter::Trace));
    assert_eq!(parse_level("other=debug"), None);
}

#[test]
fn the_last_readable_level_counts() {
    assert_eq!(parse_level("nibari=info, nibari=OFF"), Some(LevelFilter::Off));
    assert_eq!(parse_level("nibari=info,nibari=loud"), Some(LevelFilter::Info));
    assert_eq!(parse_level("error,,Warn"), Some(LevelFilter::Warn));
    assert_eq!(parse_level("nibari=error,trace"), Some(LevelFilter::Error));
    assert_eq!(parse_level(""), None);
}
