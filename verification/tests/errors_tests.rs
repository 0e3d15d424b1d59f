use snow_plow::errors::{Error, ErrorRecord, Warning};

#[test]
fn io_error_message_and_code() {
    let e = Error::Io {
        file: "/cfg/config.csv".to_string(),
        message: "permission denied".to_string(),
        code: 13,
    };
    assert_eq!(e.msg(), "/cfg/config.csv: permission denied");
    assert_eq!(e.exit_code(), 13);
}

#[test]
fn non_io_errors_exit_with_one() {
    assert_eq!(Error::NoConfig.exit_code(), 1);
    assert_eq!(Error::TrackedFlake("x".to_string()).exit_code(), 1);
    assert_eq!(Error::Internal("boom".to_string()).exit_code(), 1);
}

#[test]
fn error_messages() {
    assert_eq!(
        Error::NoConfig.msg(),
        "no user provided configuration and unable to find the system default location"
    );
    assert_eq!(Error::TrackedFlake("x".to_string()).msg(), "flake `x` is already tracked");
    assert_eq!(Error::MissingFlake("y".to_string()).msg(), "flake `y` is not tracked");
    assert_eq!(Error::NoFlake("z".to_string()).msg(), "no flake named `z`");
    assert_eq!(Error::Internal("boom".to_string()).msg(), "internal: boom");
}

#[test]
fn nix_error_message_joins_lines() {
    let r = ErrorRecord {
        title: "error: build failed".to_string(),
        details: vec!["at /x".to_string(), "caused by y".to_string()],
    };
    assert_eq!(r.msg(), "error: build failed\nat /x\ncaused by y");
    assert_eq!(Error::Nix(r).msg(), "error: build failed\nat /x\ncaused by y");
}

#[test]
fn record_without_details_is_title_alone() {
    let r = ErrorRecord { title: "error: alone".to_string(), details: Vec::new() };
    assert_eq!(r.msg(), "error: alone");
}

#[test]
fn warning_messages() {
    assert_eq!(
        Warning::AlreadyEnabled("x".to_string()).msg(),
        "flake `x` is already enabled"
    );
    assert_eq!(
        Warning::AlreadyDisabled("x".to_string()).msg(),
        "flake `x` is already disabled"
    );
    assert_eq!(Warning::NotTracked("x".to_string()).msg(), "flake `x` does not exists");
    assert_eq!(
        Warning::DuplicateOnLoad { name: "x".to_string(), discarded: "/p".to_string() }.msg(),
        "flake `x` is present several time in the file. \"/p\" has been ignored."
    );
    assert_eq!(Warning::Diagnostic("line".to_string()).msg(), "nix: line");
}
