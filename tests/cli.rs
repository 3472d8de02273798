use redshift_minimal::args::{check_temperature, malformed, Args, ArgsError, Mode};

fn run(args: &[&str]) -> Result<Args, ArgsError> {
    let v: Vec<String> = args.iter().map(|s| s.to_string()).collect();
    Args::defaults().update_from_args(&v)
}

#[test]
fn defaults_set_neutral_temperature() {
    let a = Args::defaults();
    assert!(!a.help && !a.version && a.method.is_none());
    assert_eq!(a.mode, Mode::Manual(6500));
}

#[test]
fn set_option_selects_temperature() {
    assert_eq!(run(&["-S", "3000"]).unwrap().mode, Mode::Manual(3000));
    assert_eq!(run(&["--Set", "25000"]).unwrap().mode, Mode::Manual(25000));
    assert!(matches!(run(&["-S"]), Err(ArgsError::MissingTemperature)));
    assert!(matches!(run(&["-S", "warm"]), Err(ArgsError::InvalidTemperature)));
    assert_eq!(run(&["-S", "+3500"]).unwrap().mode, Mode::Manual(3500));
    assert!(matches!(run(&["-S", "3500K"]), Err(ArgsError::InvalidTemperature)));
    assert!(matches!(run(&["-S", "+"]), Err(ArgsError::InvalidTemperature)));
    assert!(matches!(run(&["-S", "99999999999"]), Err(ArgsError::InvalidTemperature)));
    assert!(matches!(run(&["-S", "-4000"]), Err(ArgsError::TemperatureOutOfRange(-4000))));
    assert!(matches!(run(&["-S", "999"]), Err(ArgsError::TemperatureOutOfRange(999))));
    assert!(matches!(run(&["-S", "25001"]), Err(ArgsError::TemperatureOutOfRange(25001))));
}

#[test]
fn other_options() {
    assert!(run(&["-h"]).unwrap().help);
    assert!(run(&["--version"]).unwrap().version);
    assert_eq!(run(&["-x"]).unwrap().mode, Mode::Reset);
    assert_eq!(run(&[]).unwrap().mode, Mode::Manual(6500));
    assert_eq!(run(&["--other"]).unwrap().mode, Mode::Manual(6500));
}

#[test]
fn mode_texts_and_settings() {
    assert_eq!(Mode::Reset.as_args(), "--reset|-x");
    assert_eq!(Mode::Manual(4000).as_args(), "--Set|-S");
    assert_eq!(Mode::Reset.setting().temp, 6500);
    assert_eq!(Mode::Manual(4000).setting().temp, 4000);
    assert_eq!(check_temperature(1000), Ok(Mode::Manual(1000)));
    assert_eq!(malformed::<u8>("bad".to_string()), Err("bad".to_string()));
}
