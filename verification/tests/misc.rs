use rmore::cli::{color_when, ends_quietly, env_flags, exit_code, flag_from_env, is_truecolor_terminal, no_color, ColorWhen};
use rmore::config::Config;
use rmore::error::Error;
use rmore::transform::transform;

#[test]
fn transform_reverses_and_shouts() {
    assert_eq!(transform("abc"), "CBA");
    assert_eq!(transform(""), "");
    assert_eq!(transform("ßa"), "ASS");
}

#[test]
fn colours() {
    assert_eq!(color_when(true, false), ColorWhen::Auto);
    assert_eq!(color_when(true, true), ColorWhen::Never);
    assert_eq!(color_when(false, false), ColorWhen::Never);
    assert!(no_color(Some("1")));
    assert!(!no_color(Some("")));
    assert!(!no_color(None));
    assert!(is_truecolor_terminal(Some("truecolor")));
    assert!(is_truecolor_terminal(Some("24bit")));
    assert!(!is_truecolor_terminal(Some("256")));
    assert!(!is_truecolor_terminal(None));
}

#[test]
fn environment_arguments() {
    assert_eq!(env_flags(), vec![("--ascii", "RMORE_ASCII")]);
    assert_eq!(flag_from_env("--ascii", "yes"), "--ascii=yes");
}

#[test]
fn exit_codes() {
    assert_eq!(exit_code(&Ok(true)), 0);
    assert_eq!(exit_code(&Ok(false)), 1);
    assert_eq!(exit_code(&Err(Error::Msg("x".to_string()))), 1);
}

#[test]
fn quiet_endings() {
    let pipe = std::io::Error::new(std::io::ErrorKind::BrokenPipe, "gone");
    assert!(ends_quietly(&Error::Io(pipe)));
    let other = std::io::Error::new(std::io::ErrorKind::Other, "x");
    assert!(!ends_quietly(&Error::Io(other)));
    assert!(!ends_quietly(&Error::Msg("m".to_string())));
}

#[test]
fn configs_from_flags() {
    let c = Config::from_flags(true, false, true, false, true, None).unwrap();
    assert!(c.ascii && c.d_flag && c.r_flag && !c.c_flag && !c.ignore_case && !c.init_search);
    assert_eq!(format!("{:?}", c.area), "ScreenArea { maxx: 0, maxy: 0 }");
    let d = Config::from_flags(false, false, false, false, false, Some("30:2")).unwrap();
    assert_eq!(format!("{:?}", d.area), "ScreenArea { maxx: 30, maxy: 2 }");
    assert!(Config::from_flags(false, false, false, false, false, Some("x")).is_none());
    assert!(Config::from_flags(false, false, false, false, false, Some("é1:")).is_none());
}

#[test]
fn error_from_string() {
    match Error::from("m".to_string()) {
        Error::Msg(m) => assert_eq!(m, "m"),
        _ => panic!("expected a message"),
    }
}
