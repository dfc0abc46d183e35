use python_launcher::{parse_version_from_flag, Error, ExactVersion, RequestedVersion};
use std::cmp::Ordering;

#[test]
fn test_requestedversion_from_exactversion() {
    assert_eq!(
        RequestedVersion::from(ExactVersion {
            major: 42,
            minor: 13
        }),
        RequestedVersion::Exact(42, 13)
    );
}

#[test]
fn exactversion_comparisons() {
    let py2_7 = ExactVersion { major: 2, minor: 7 };
    let py3_0 = ExactVersion { major: 3, minor: 0 };
    let py3_6 = ExactVersion { major: 3, minor: 6 };
    let py3_10 = ExactVersion {
        major: 3,
        minor: 10,
    };

    assert_eq!(py3_10.cmp(&py3_10), Ordering::Equal);
    assert_eq!(py3_0.cmp(&py3_6), Ordering::Less);
    assert_eq!(py3_6.cmp(&py3_0), Ordering::Greater);
    assert_eq!(py2_7.cmp(&py3_0), Ordering::Less);
    assert_eq!(py3_0.cmp(&py2_7), Ordering::Greater);
    assert_eq!(py3_6.cmp(&py3_10), Ordering::Less);
    assert_eq!(py3_10.cmp(&py3_6), Ordering::Greater);
}

#[test]
fn compare_agrees_with_derived_order() {
    let versions = [
        ExactVersion::new(2, 7),
        ExactVersion::new(3, 0),
        ExactVersion::new(3, 6),
        ExactVersion::new(3, 10),
        ExactVersion::new(10, 1),
    ];
    for a in versions.iter() {
        for b in versions.iter() {
            assert_eq!(a.compare(b), a.cmp(b));
        }
    }
    assert_eq!(
        ExactVersion::new(3, 6).compare(&ExactVersion::new(3, 10)),
        Ordering::Less
    );
}

#[test]
fn requestedversion_from_str_errors() {
    for text in [".3", "3.", "h", "3.b", "a.7", "3.6.5"] {
        assert!(
            matches!(
                RequestedVersion::from_str(text),
                Err(Error::ParseVersionComponentError(_, _))
            ),
            "{text}"
        );
    }
}

#[test]
fn requestedversion_from_str_values() {
    assert_eq!(RequestedVersion::from_str(""), Ok(RequestedVersion::Any));
    assert_eq!(RequestedVersion::from_str("3"), Ok(RequestedVersion::MajorOnly(3)));
    assert_eq!(RequestedVersion::from_str("3.8"), Ok(RequestedVersion::Exact(3, 8)));
    assert_eq!(
        RequestedVersion::from_str("42.13"),
        Ok(RequestedVersion::Exact(42, 13))
    );
    let parsed: RequestedVersion = "3.10".parse().unwrap();
    assert_eq!(parsed, RequestedVersion::Exact(3, 10));
}

#[test]
fn component_error_names_the_offending_text() {
    match ExactVersion::from_str("3.6.5") {
        Err(Error::ParseVersionComponentError(_, text)) => assert_eq!(text, "6.5"),
        other => panic!("unexpected {other:?}"),
    }
    match ExactVersion::from_str("a.7") {
        Err(Error::ParseVersionComponentError(_, text)) => assert_eq!(text, "a"),
        other => panic!("unexpected {other:?}"),
    }
    match RequestedVersion::from_str("70000") {
        Err(Error::ParseVersionComponentError(_, text)) => assert_eq!(text, "70000"),
        other => panic!("unexpected {other:?}"),
    }
}

#[test]
fn exactversion_from_str_cases() {
    assert_eq!(ExactVersion::from_str(""), Err(Error::DotMissing));
    assert_eq!(ExactVersion::from_str("3"), Err(Error::DotMissing));
    for text in [".7", "3.", "3.Y", "X.7"] {
        assert!(matches!(
            ExactVersion::from_str(text),
            Err(Error::ParseVersionComponentError(_, _))
        ));
    }
    assert_eq!(
        ExactVersion::from_str("42.13"),
        Ok(ExactVersion { major: 42, minor: 13 })
    );
    assert_eq!(
        ExactVersion::from_str("+3.07"),
        Ok(ExactVersion { major: 3, minor: 7 })
    );
    assert_eq!(
        ExactVersion::from_str("65535.0"),
        Ok(ExactVersion { major: 65535, minor: 0 })
    );
}

#[test]
fn more_than_one_dot_fails() {
    for text in ["3.6.5", "1..2", "..", "3.10.0.1"] {
        assert!(ExactVersion::from_str(text).is_err(), "{text}");
    }
}

#[test]
fn format_then_parse_round_trip() {
    for (major, minor) in [(3, 8), (42, 13), (0, 0), (65535, 65535), (3, 10)] {
        let version = ExactVersion::new(major, minor);
        let text = version.to_string();
        assert_eq!(ExactVersion::from_str(&text), Ok(version));
    }
    let parsed = ExactVersion::from_str("03.010").unwrap();
    assert_eq!(parsed.to_string(), "3.10");
    assert_eq!(ExactVersion::from_str(&parsed.to_string()), Ok(parsed));
}

#[test]
fn exactversion_to_string_cases() {
    assert_eq!(ExactVersion { major: 3, minor: 8 }.to_string(), "3.8");
    assert_eq!(ExactVersion { major: 42, minor: 13 }.to_string(), "42.13");
}

#[test]
fn requestedversion_to_string_cases() {
    assert_eq!(RequestedVersion::Any.to_string(), "Python");
    assert_eq!(RequestedVersion::MajorOnly(3).to_string(), "Python 3");
    assert_eq!(RequestedVersion::Exact(3, 8).to_string(), "Python 3.8");
}

#[test]
fn requestedversion_env_var_cases() {
    assert_eq!(RequestedVersion::Any.env_var(), Some("PY_PYTHON".to_string()));
    assert_eq!(
        RequestedVersion::MajorOnly(3).env_var(),
        Some("PY_PYTHON3".to_string())
    );
    assert_eq!(
        RequestedVersion::MajorOnly(42).env_var(),
        Some("PY_PYTHON42".to_string())
    );
    assert_eq!(RequestedVersion::Exact(42, 13).env_var(), None);
}

#[test]
fn exactversion_supports_cases() {
    let example = ExactVersion { major: 3, minor: 6 };
    assert!(example.supports(RequestedVersion::Any));
    assert!(!example.supports(RequestedVersion::MajorOnly(2)));
    assert!(example.supports(RequestedVersion::MajorOnly(3)));
    assert!(!example.supports(RequestedVersion::Exact(2, 7)));
    assert!(!example.supports(RequestedVersion::Exact(3, 5)));
    assert!(!example.supports(RequestedVersion::Exact(4, 0)));
    assert!(!example.supports(RequestedVersion::Exact(3, 7)));
    assert!(example.supports(RequestedVersion::Exact(3, 6)));
}

#[test]
fn exit_codes() {
    assert_eq!(Error::DotMissing.exit_code(), 64);
    assert_eq!(Error::FileNameMissing.exit_code(), 64);
    assert_eq!(Error::FileNameToStrError.exit_code(), 70);
    assert_eq!(Error::PathFileNameError.exit_code(), 70);
    assert_eq!(
        Error::NoExecutableFound(RequestedVersion::Any).exit_code(),
        64
    );
    let parse_error = ExactVersion::from_str("3.x").unwrap_err();
    assert_eq!(parse_error.exit_code(), 64);
}

#[test]
fn version_from_flag() {
    assert_eq!(parse_version_from_flag("-3"), Some(RequestedVersion::MajorOnly(3)));
    assert_eq!(
        parse_version_from_flag("-3.10"),
        Some(RequestedVersion::Exact(3, 10))
    );
    assert_eq!(parse_version_from_flag("-c"), None);
    assert_eq!(parse_version_from_flag("3.10"), None);
    assert_eq!(parse_version_from_flag(""), None);
    assert_eq!(parse_version_from_flag("-3.6.5"), None);
}

#[test]
fn error_messages() {
    assert_eq!(Error::DotMissing.to_string(), "'.' missing from the version");
    assert_eq!(Error::FileNameMissing.to_string(), "Path object lacks a file name");
    assert_eq!(
        Error::FileNameToStrError.to_string(),
        "Failed to convert file name to `str`"
    );
    assert_eq!(
        Error::PathFileNameError.to_string(),
        "File name not of the format `pythonX.Y`"
    );
    assert_eq!(
        Error::NoExecutableFound(RequestedVersion::Exact(3, 8)).to_string(),
        "No executable found for Python 3.8"
    );
    assert_eq!(
        Error::IllegalArgument(std::path::PathBuf::from("/usr/bin/py"), "--list".to_string())
            .to_string(),
        "The `--list` flag must be specified on its own; see `/usr/bin/py --help` for details"
    );
    let parse_error = ExactVersion::from_str("3.x").unwrap_err();
    assert_eq!(
        parse_error.to_string(),
        "Error parsing 'x' as an integer: invalid digit found in string"
    );
}
