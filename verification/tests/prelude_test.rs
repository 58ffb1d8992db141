use awsbck::cli::Cli;
use awsbck::prelude::OrPanic;

#[test]
fn or_panic_takes_the_value() {
    assert_eq!(Some(3).or_panic(), 3);
    let r: Result<&str, ()> = Ok("x");
    assert_eq!(r.or_panic(), "x");
}

#[test]
fn cli_defaults() {
    let c = Cli { folder: None, schedule: None };
    assert_eq!(c.folder_or_default(), "/dockerbox");
    let c = Cli { folder: Some("/data".to_string()), schedule: Some("@daily".to_string()) };
    assert_eq!(c.folder_or_default(), "/data");
}
