use iii_core::sandbox_errors::{IoErrorKind, IoFailure, SandboxError, SandboxErrorCode};
use iii_core::sandbox_fs::{
    channel_failure, chmod_operation, mkdir_operation, ChmodRequest, FsOperation, MkdirRequest,
    chmod_response, check_not_stopped, mkdir_response, parse_sandbox_id, pump_after_read,
    pump_after_write, FsReply, MkdirResponse, PumpAction, ReadOutcome,
};
use iii_core::json::JsonValue;

#[test]
fn s100_serializes_with_inline_fix() {
    let err = SandboxError::image_not_in_catalog("dangerous-image");
    let payload = err.to_payload();
    assert_eq!(payload.code, "S100");
    assert_eq!(payload.error_type, "config");
    assert!(payload.message.contains("dangerous-image"));
    assert!(payload.message.contains("python"));
    assert_eq!(payload.retryable, false);
}

#[test]
fn s102_serializes_retryable_true() {
    let err = SandboxError::auto_install_failed("python", "network down");
    let payload = err.to_payload();
    assert_eq!(payload.code, "S102");
    assert_eq!(payload.retryable, true);
}

#[test]
fn s200_timeout_code() {
    let err = SandboxError::exec_timed_out(30_000);
    let payload = err.to_payload();
    assert_eq!(payload.code, "S200");
}

#[test]
fn s400_resource_limit_is_config_type() {
    let err = SandboxError::ResourceLimit("cpu cap".into());
    let payload = err.to_payload();
    assert_eq!(payload.code, "S400");
    assert_eq!(payload.error_type, "config");
}

#[test]
fn fs_codes_serialize_with_filesystem_type() {
    let err = SandboxError::FsNotFound { path: "/missing".into() };
    let payload = err.to_payload();
    assert_eq!(payload.code, "S211");
    assert_eq!(payload.error_type, "filesystem");
    assert_eq!(payload.retryable, false);
}

#[test]
fn fs_channel_aborted_is_retryable() {
    let err = SandboxError::FsChannelAborted("closed early".into());
    let payload = err.to_payload();
    assert_eq!(payload.code, "S218");
    assert_eq!(payload.retryable, true);
}

#[test]
fn fs_unsupported_surfaces_version_hint() {
    let err = SandboxError::FsUnsupported;
    let payload = err.to_payload();
    assert_eq!(payload.code, "S219");
    assert!(payload.message.contains("supervisor"));
}

#[test]
fn fs_contract_mapping() {
    let cases: Vec<(SandboxError, &str)> = vec![
        (SandboxError::FsInvalidRequest("bad mode".into()), "S210"),
        (SandboxError::FsNotFound { path: "x".into() }, "S211"),
        (SandboxError::FsWrongType { path: "x".into() }, "S212"),
        (SandboxError::FsAlreadyExists { path: "x".into() }, "S213"),
        (SandboxError::FsNotEmpty { path: "x".into() }, "S214"),
        (SandboxError::FsPermission("x".into()), "S215"),
        (SandboxError::FsIo("x".into()), "S216"),
        (SandboxError::FsRegex("x".into()), "S217"),
        (SandboxError::FsChannelAborted("x".into()), "S218"),
        (SandboxError::FsUnsupported, "S219"),
    ];
    for (err, expected) in &cases {
        assert_eq!(err.code().as_str(), *expected, "case: {err:?}");
    }
}

#[test]
fn sdk_contract_mapping() {
    let cases: Vec<(SandboxError, &str)> = vec![
        (SandboxError::InvalidRequest("x".into()), "S001"),
        (SandboxError::NotFound("x".into()), "S002"),
        (SandboxError::ConcurrentExec("x".into()), "S003"),
        (SandboxError::AlreadyStopped("x".into()), "S004"),
        (SandboxError::image_not_in_catalog("x"), "S100"),
        (SandboxError::RootfsMissing { image: "x".into() }, "S101"),
        (SandboxError::auto_install_failed("x", "y"), "S102"),
        (SandboxError::exec_timed_out(1), "S200"),
        (SandboxError::BootFailed("x".into()), "S300"),
        (SandboxError::ResourceLimit("x".into()), "S400"),
    ];
    for (err, expected) in &cases {
        assert_eq!(
            err.code().as_str(),
            *expected,
            "variant {err:?} expected to serialize with code {expected}"
        );
    }
}

#[test]
fn payload_docs_url_names_the_code() {
    let payload = SandboxError::FsUnsupported.to_payload();
    assert_eq!(payload.docs_url, "https://iii.dev/docs/errors/sandbox/S219");
    assert_eq!(SandboxErrorCode::S003.error_type(), "validation");
    assert!(!SandboxErrorCode::S003.retryable());
    assert_eq!(SandboxErrorCode::S218.error_type(), "transient");
    assert!(SandboxErrorCode::S218.retryable());
}

#[test]
fn io_failures_map_to_fs_codes() {
    let not_found = SandboxError::from_io(
        "/a",
        IoFailure { kind: IoErrorKind::NotFound, message: "gone".into() },
    );
    assert_eq!(not_found.code().as_str(), "S211");
    let denied = SandboxError::from_io(
        "/a",
        IoFailure { kind: IoErrorKind::PermissionDenied, message: "denied".into() },
    );
    assert_eq!(denied.code().as_str(), "S215");
    let other = SandboxError::from_io(
        "/a",
        IoFailure { kind: IoErrorKind::Other, message: "boom".into() },
    );
    assert_eq!(other.code().as_str(), "S216");
}

#[test]
fn bad_uuid_is_an_invalid_request() {
    let err = parse_sandbox_id("not-a-uuid").unwrap_err();
    assert_eq!(err.code().as_str(), "S001");
    assert_eq!(err.message(), "invalid request: sandbox_id is not a valid UUID: not-a-uuid");
}

#[test]
fn uuid_parses_to_its_value_and_prints_back_hyphenated() {
    let id = parse_sandbox_id("A1A2A3A4-B1B2-C1C2-D1D2-D3D4D5D6D7D8").unwrap();
    assert_eq!(id, 0xa1a2a3a4b1b2c1c2d1d2d3d4d5d6d7d8u128);
    let err = check_not_stopped(id, true).unwrap_err();
    assert_eq!(err.code().as_str(), "S004");
    assert_eq!(err.message(), "sandbox already stopped: a1a2a3a4-b1b2-c1c2-d1d2-d3d4d5d6d7d8");
    assert!(check_not_stopped(id, false).is_ok());
}

#[test]
fn supervisor_replies_map_to_responses() {
    assert_eq!(
        mkdir_response(FsReply::Mkdir { created: true }).unwrap(),
        MkdirResponse { created: true }
    );
    assert_eq!(chmod_response(FsReply::Chmod { updated: 3 }).unwrap().updated, 3);
    let err = mkdir_response(FsReply::Chmod { updated: 1 }).unwrap_err();
    assert_eq!(err.code().as_str(), "S216");
    assert_eq!(err.message(), "expected Mkdir result, got Chmod { updated: 1 }");
    let err = mkdir_response(FsReply::Chmod { updated: 40 }).unwrap_err();
    assert_eq!(err.message(), "expected Mkdir result, got Chmod { updated: 40 }");
    let err = chmod_response(FsReply::Other("Read".into())).unwrap_err();
    assert_eq!(err.message(), "expected Chmod result, got Read");
}

#[test]
fn download_pump_steps() {
    assert!(matches!(pump_after_read(ReadOutcome::Eof), PumpAction::Close));
    assert!(matches!(pump_after_read(ReadOutcome::Bytes(12)), PumpAction::Write(12)));
    assert!(matches!(pump_after_read(ReadOutcome::Bytes(0)), PumpAction::Close));
    match pump_after_read(ReadOutcome::Failed("eof early".into())) {
        PumpAction::FailAndClose(JsonValue::Object(m)) => {
            assert_eq!(m[0].0, "error");
            assert!(matches!(&m[0].1, JsonValue::Str(t) if t == "read from supervisor failed: eof early"));
        }
        _ => panic!("expected a failure message"),
    }
    assert!(pump_after_write(Ok(())).is_none());
    assert!(matches!(pump_after_write(Err("closed".into())), Some(PumpAction::FailAndClose(_))));
}

#[test]
fn fs_operations_carry_the_request() {
    let op = mkdir_operation(MkdirRequest {
        sandbox_id: "id".into(),
        path: "/work/a".into(),
        mode: "0755".into(),
        parents: true,
    });
    assert!(matches!(op, FsOperation::Mkdir { ref path, ref mode, parents: true } if path == "/work/a" && mode == "0755"));
    let op = chmod_operation(ChmodRequest {
        sandbox_id: "id".into(),
        path: "/work/a".into(),
        mode: "0600".into(),
        uid: Some(1000),
        gid: None,
        recursive: false,
    });
    assert!(matches!(
        op,
        FsOperation::Chmod { ref path, ref mode, uid: Some(1000), gid: None, recursive: false }
            if path == "/work/a" && mode == "0600"
    ));
    let err = channel_failure("closed");
    assert!(matches!(err, SandboxError::FsIo(ref m) if m == "create_channel: closed"));
    assert_eq!(err.code(), SandboxErrorCode::S216);
    assert_eq!(SandboxError::fs_wrong_type("/a").code(), SandboxErrorCode::S212);
    assert_eq!(SandboxError::fs_not_empty("/a").code(), SandboxErrorCode::S214);
}

#[test]
fn every_code_has_its_own_text() {
    let all = [
        SandboxErrorCode::S001,
        SandboxErrorCode::S002,
        SandboxErrorCode::S003,
        SandboxErrorCode::S004,
        SandboxErrorCode::S100,
        SandboxErrorCode::S101,
        SandboxErrorCode::S102,
        SandboxErrorCode::S200,
        SandboxErrorCode::S210,
        SandboxErrorCode::S211,
        SandboxErrorCode::S212,
        SandboxErrorCode::S213,
        SandboxErrorCode::S214,
        SandboxErrorCode::S215,
        SandboxErrorCode::S216,
        SandboxErrorCode::S217,
        SandboxErrorCode::S218,
        SandboxErrorCode::S219,
        SandboxErrorCode::S300,
        SandboxErrorCode::S400,
    ];
    let mut texts: Vec<&str> = all.iter().map(|c| c.as_str()).collect();
    texts.sort();
    texts.dedup();
    assert_eq!(texts.len(), all.len());
}

#[test]
fn sandbox_error_wire_display_matches_to_payload_json() {
    let cases: Vec<SandboxError> = vec![
        SandboxError::InvalidRequest("cmd must be a single binary".into()),
        SandboxError::NotFound("11111111-1111-1111-1111-111111111111".into()),
        SandboxError::ExecTimedOut { timeout_ms: 1500 },
        SandboxError::FsUnsupported,
    ];
    for err in cases.iter() {
        let p = err.to_payload();
        let mut expected = serde_json::Map::new();
        expected.insert("type".to_string(), serde_json::Value::String(p.error_type.clone()));
        expected.insert("code".to_string(), serde_json::Value::String(p.code.clone()));
        expected.insert("message".to_string(), serde_json::Value::String(p.message.clone()));
        expected.insert("docs_url".to_string(), serde_json::Value::String(p.docs_url.clone()));
        expected.insert("retryable".to_string(), serde_json::Value::Bool(p.retryable));
        let expected = serde_json::to_string(&serde_json::Value::Object(expected)).unwrap();
        let actual = iii_core::sandbox_errors::SandboxErrorWire(err.clone()).to_text();
        assert_eq!(actual, expected, "wire format drift for {err:?}");
        let parsed: serde_json::Value = serde_json::from_str(&actual).unwrap();
        assert_eq!(parsed["code"], err.code().as_str());
    }
}

#[test]
fn error_body_has_the_five_keys_in_order() {
    let body = SandboxError::NotFound("11111111-1111-1111-1111-111111111111".into()).to_json();
    match body {
        JsonValue::Object(members) => {
            let keys: Vec<&str> = members.iter().map(|(k, _)| k.as_str()).collect();
            assert_eq!(keys, vec!["type", "code", "message", "docs_url", "retryable"]);
            assert!(matches!(&members[1].1, JsonValue::Str(c) if c == "S002"));
            assert!(matches!(&members[4].1, JsonValue::Bool(false)));
        }
        _ => panic!("expected an object"),
    }
}

#[test]
fn registry_guard_checks_uuid_then_presence_then_stopped() {
    let mut reg = iii_core::sandbox_fs::SandboxRegistry::new();
    let live: u128 = 0x11111111_1111_1111_1111_111111111111;
    let stopped: u128 = 0x22222222_2222_2222_2222_222222222222;
    reg.insert(live, false);
    reg.insert(stopped, true);
    assert_eq!(reg.guard("11111111-1111-1111-1111-111111111111").unwrap(), live);
    let e = reg.guard("not-a-uuid").unwrap_err();
    assert_eq!(e.code().as_str(), "S001");
    let e = reg.guard("33333333-3333-3333-3333-333333333333").unwrap_err();
    assert_eq!(e.code().as_str(), "S002");
    assert!(matches!(&e, SandboxError::NotFound(m) if m == "33333333-3333-3333-3333-333333333333"));
    let e = reg.guard("22222222-2222-2222-2222-222222222222").unwrap_err();
    assert_eq!(e.code().as_str(), "S004");
    assert_eq!(reg.stopped(stopped).unwrap(), true);
}
