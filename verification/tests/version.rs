use worktrunk::git::error::Error;
use worktrunk::git::version::{
    git_info_from_output, git_version, parse_git_version, require_minimum_git, GitVersion,
};

#[test]
fn parses_supported_platform_version_formats() {
    for (input, expected, reported) in [
        ("git version 2.43.0\n", GitVersion::new(2, 43, 0), "2.43.0"),
        ("git version 2.43\n", GitVersion::new(2, 43, 0), "2.43"),
        ("git version 2.45.GIT\n", GitVersion::new(2, 45, 0), "2.45.GIT"),
        (
            "git version 2.50.1 (Apple Git-155)\n",
            GitVersion::new(2, 50, 1),
            "2.50.1 (Apple Git-155)",
        ),
        (
            "git version 2.47.1.windows.1\n",
            GitVersion::new(2, 47, 1),
            "2.47.1.windows.1",
        ),
    ] {
        let parsed = parse_git_version(input.as_bytes()).unwrap();
        assert_eq!(parsed.version, expected);
        assert_eq!(parsed.reported_version, reported);
    }
}

#[test]
fn rejects_malformed_version_output() {
    for malformed in [
        b"2.43.0".as_slice(),
        b"git version \n",
        b"git version 2.43.0\nextra",
        b"git version 2.x.0\n",
        b"git version 4294967296.43.0\n",
        b"git version 2.43.0\xff\n",
    ] {
        assert!(parse_git_version(malformed).is_err());
    }
}

fn message(e: Error) -> String {
    match e {
        Error::Other(m) => m,
        _ => panic!("unexpected error kind"),
    }
}

#[test]
fn version_error_messages() {
    assert_eq!(
        message(parse_git_version(b"git version 2.x.0\n").unwrap_err()),
        "could not parse Git minor version from \"2.x.0\""
    );
    assert_eq!(
        message(parse_git_version(b"hello\n").unwrap_err()),
        "git --version returned an unexpected response"
    );
    assert_eq!(
        message(parse_git_version(b"\xff").unwrap_err()),
        "git --version returned invalid UTF-8"
    );
    assert_eq!(message(git_info_from_output(false, b"git version 2.43.0").unwrap_err()), "git --version failed");
}

#[test]
fn minimum_version_check() {
    let ok = parse_git_version(b"git version 2.43.0\n").unwrap();
    assert!(require_minimum_git(&ok).is_ok());
    assert_eq!(git_version(&ok), "2.43.0");
    let newer = parse_git_version(b"git version 3.0\n").unwrap();
    assert!(require_minimum_git(&newer).is_ok());
    let old = parse_git_version(b"git version 2.42.9\n").unwrap();
    assert_eq!(
        message(require_minimum_git(&old).unwrap_err()),
        "Git 2.42.9 is unsupported; Worktrunk requires Git 2.43.0 or newer"
    );
    assert!(GitVersion::new(2, 43, 1) > GitVersion::new(2, 43, 0));
}
