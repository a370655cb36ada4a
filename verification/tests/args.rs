use raytracer::args::{is_width_flag, parse_u32, width_from_args, ArgError};

fn line(words: &[&str]) -> Vec<String> {
    words.iter().map(|w| w.to_string()).collect()
}

#[test]
fn parse_u32_agrees_with_the_standard_parser() {
    let texts = [
        "0", "7", "42", "400", "0042", "+17", "4294967295", "4294967296", "99999999999999999999",
        "", "+", "-", "-0", "-5", "++5", "+-5", "12a", "a12", "1 2", " 12", "12 ", "1.5", "0x10",
        "00000000000000000000000000001", "٣", "1٣",
    ];
    for text in texts {
        assert_eq!(parse_u32(text), text.parse::<u32>().ok(), "{:?}", text);
    }
    assert_eq!(parse_u32("1200"), Some(1200));
    assert_eq!(parse_u32("4294967295"), Some(u32::MAX));
    assert_eq!(parse_u32("4294967296"), None);
}

#[test]
fn is_width_flag_knows_both_spellings() {
    assert!(is_width_flag("--width"));
    assert!(is_width_flag("-w"));
    assert!(!is_width_flag("--widt"));
    assert!(!is_width_flag("--width "));
    assert!(!is_width_flag("-W"));
    assert!(!is_width_flag("w"));
    assert!(!is_width_flag(""));
    assert!(!is_width_flag("--width=400"));
}

#[test]
fn width_from_args_without_the_option_is_none() {
    assert_eq!(width_from_args(&line(&[])), Ok(None));
    assert_eq!(width_from_args(&line(&["ppm_raytracer"])), Ok(None));
    assert_eq!(width_from_args(&line(&["ppm_raytracer", "400", "--height", "3"])), Ok(None));
}

#[test]
fn width_from_args_takes_the_value_behind_the_option() {
    assert_eq!(width_from_args(&line(&["ppm_raytracer", "--width", "400"])), Ok(Some(400)));
    assert_eq!(width_from_args(&line(&["ppm_raytracer", "-w", "256"])), Ok(Some(256)));
    assert_eq!(width_from_args(&line(&["-w", "0"])), Ok(Some(0)));
    assert_eq!(
        width_from_args(&line(&["ppm_raytracer", "--width", "400", "other", "-w", "800"])),
        Ok(Some(800))
    );
}

#[test]
fn width_from_args_misses_a_value_behind_a_last_option() {
    assert_eq!(width_from_args(&line(&["ppm_raytracer", "--width"])), Err(ArgError::MissingValue));
    assert_eq!(width_from_args(&line(&["-w"])), Err(ArgError::MissingValue));
    assert_eq!(
        width_from_args(&line(&["ppm_raytracer", "-w", "400", "--width"])),
        Err(ArgError::MissingValue)
    );
}

#[test]
fn width_from_args_refuses_a_value_that_is_no_number() {
    assert_eq!(width_from_args(&line(&["ppm_raytracer", "--width", "wide"])), Err(ArgError::InvalidValue));
    assert_eq!(width_from_args(&line(&["ppm_raytracer", "-w", "-4"])), Err(ArgError::InvalidValue));
    assert_eq!(width_from_args(&line(&["ppm_raytracer", "-w", "4294967296"])), Err(ArgError::InvalidValue));
    assert_eq!(width_from_args(&line(&["ppm_raytracer", "--width", "--width"])), Err(ArgError::InvalidValue));
    assert_eq!(width_from_args(&line(&["ppm_raytracer", "-w", ""])), Err(ArgError::InvalidValue));
}

#[test]
fn width_from_args_does_not_read_a_value_as_an_option() {
    assert_eq!(width_from_args(&line(&["-w", "5", "-w", "6", "7"])), Ok(Some(6)));
    assert_eq!(width_from_args(&line(&["x", "-w", "5", "6", "-w"])), Err(ArgError::MissingValue));
}
