use qx_rs_err::err::{Error, TraceError};
use qx_rs_err::text::relative_source_path;

#[test]
fn message_text_has_no_code_field() {
    let e = Error::message("User Not Found");
    assert_eq!(e.to_string(), "Error(Message { message: \"User Not Found\" })");
    assert!(!e.to_string().contains("code"));
}

#[test]
fn code_message_text_shows_code_then_message() {
    let e = Error::code_message("NOT_FOUND", "User Not Found");
    assert_eq!(e.to_string(), "Error(Message { code: \"NOT_FOUND\", message: \"User Not Found\" })");
}

#[test]
fn message_text_escapes_quotes() {
    let e = Error::message("say \"hi\"\n");
    assert_eq!(e.to_string(), "Error(Message { message: \"say \\\"hi\\\"\\n\" })");
}

#[test]
fn extension_on_message_changes_nothing() {
    let before = Error::code_message("NOT_FOUND", "Something Went Wrong").to_string();
    let e = Error::code_message("NOT_FOUND", "Something Went Wrong").ext("xxx");
    assert_eq!(e.to_string(), before);
    match e {
        Error::Message(m) => {
            assert_eq!(m.code.as_deref(), Some("NOT_FOUND"));
            assert_eq!(m.message, "Something Went Wrong");
        }
        Error::Error(_) => panic!("a message stays a message"),
    }
}

#[test]
fn extension_on_diagnostic_keeps_only_the_latest() {
    let e = Error::error_info("failed", "/work/app/src/db.rs", 3, 7).ext("first").ext("second");
    assert_eq!(
        e.to_string(),
        "Error(TraceError { info: \"failed\", trace: \"db.rs:3,7\", ext: \"second\" })"
    );
    assert!(!e.to_string().contains("first"));
    match e {
        Error::Error(t) => assert_eq!(t.ext.as_deref(), Some("second")),
        Error::Message(_) => panic!("a diagnostic stays a diagnostic"),
    }
}

#[test]
fn diagnostic_with_code_and_info_text() {
    let e = Error::error_code_info("001", "failed", "/home/me/proj/src/err.rs", 10, 5);
    assert_eq!(
        e.to_string(),
        "Error(TraceError { code: \"001\", info: \"failed\", trace: \"err.rs:10,5\" })"
    );
}

#[test]
fn diagnostic_from_cause_shows_its_debug_text() {
    let cause = std::io::Error::new(std::io::ErrorKind::AddrInUse, "xxx");
    let expected = format!("{:?}", cause);
    let e = Error::error(Box::new(cause), "src/main.rs", 42, 9);
    assert_eq!(
        e.to_string(),
        format!("Error(TraceError {{ error: {}, trace: \"main.rs:42,9\" }})", expected)
    );
    match e {
        Error::Error(t) => {
            assert!(t.code.is_none());
            assert!(t.info.is_none());
            assert_eq!(t.error.as_deref(), Some(expected.as_str()));
            assert!(t.ext.is_none());
        }
        Error::Message(_) => panic!("a cause makes a diagnostic"),
    }
}

#[test]
fn record_without_fields_shows_its_name_only() {
    let t = TraceError { code: None, info: None, error: None, trace: None, ext: None };
    assert_eq!(t.to_string(), "TraceError");
    assert_eq!(Error::Error(t).to_string(), "Error(TraceError)");
}

#[test]
fn absent_fields_never_appear_in_text() {
    let e = Error::error_info("only info", "lib/x.rs", 1, 1);
    let s = e.to_string();
    assert!(!s.contains("code:"));
    assert!(!s.contains("error:"));
    assert!(!s.contains("ext:"));
    assert!(s.contains("info: \"only info\""));
    assert!(s.contains("trace: \":1,1\""));
}

#[test]
fn trace_takes_path_after_first_src() {
    let e = Error::error_info("x", "/a/src/b/src/c.rs", 7, 12);
    match e {
        Error::Error(t) => assert_eq!(t.trace.as_deref(), Some("b/src/c.rs:7,12")),
        Error::Message(_) => panic!("expected a diagnostic"),
    }
}

#[test]
fn trace_without_src_has_empty_path() {
    let e = Error::error_code_info("c", "i", "tests/test.rs", 0, 4294967295);
    match e {
        Error::Error(t) => assert_eq!(t.trace.as_deref(), Some(":0,4294967295")),
        Error::Message(_) => panic!("expected a diagnostic"),
    }
}

#[test]
fn relative_source_path_cases() {
    assert_eq!(relative_source_path("src/lib.rs"), "lib.rs");
    assert_eq!(relative_source_path("/x/src/"), "");
    assert_eq!(relative_source_path("/x/sr/c/lib.rs"), "");
    assert_eq!(relative_source_path(""), "");
    assert_eq!(relative_source_path("é/src/ü.rs"), "ü.rs");
}

struct FailingCause;

impl std::fmt::Debug for FailingCause {
    fn fmt(&self, f: &mut std::fmt::Formatter<'_>) -> std::fmt::Result {
        f.write_str("partial")?;
        Err(std::fmt::Error)
    }
}

#[test]
fn cause_whose_debug_fails_does_not_panic() {
    let e = Error::error(Box::new(FailingCause), "src/a.rs", 1, 2);
    match e {
        Error::Error(t) => {
            assert_eq!(t.error.as_deref(), Some("partial"));
            assert_eq!(t.trace.as_deref(), Some("a.rs:1,2"));
        }
        Error::Message(_) => panic!("a cause makes a diagnostic"),
    }
}

#[test]
fn rendered_cause_is_kept_verbatim() {
    let e = Error::error_rendered("Os { code: 2 }", "/p/src/io.rs", 8, 1);
    assert_eq!(
        e.to_string(),
        "Error(TraceError { error: Os { code: 2 }, trace: \"io.rs:8,1\" })"
    );
}

#[test]
fn extension_is_the_last_field() {
    let e = Error::error_code_info("001", "failed", "src/err.rs", 10, 5).ext("line\nbreak");
    let s = e.to_string();
    assert!(s.ends_with(&format!("ext: {:?} }})", "line\nbreak")));
    assert!(s.contains("ext: \"line\\nbreak\""));
}
