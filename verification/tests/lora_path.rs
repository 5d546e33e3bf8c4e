use engine_gateway::json::JsonValue;
use engine_gateway::lora_path::{
    allowed_prefixes, begin_path_access, finish_path_access, looks_like_local_lora_path,
    path_lies_under, LoraPathError, PathStep,
};
use engine_gateway::routes::collective_rpc::{
    collective_rpc, update_weights, ApiError, CollectiveRpcRequest, UpdateWeightsRequest,
};
use engine_gateway::status::Code;

fn bytes(text: &str) -> Vec<u8> {
    text.as_bytes().to_vec()
}

#[test]
fn allows_hf_repo_ids_without_prefixes() {
    assert_eq!(
        begin_path_access("org/adapter-a", Some(false), false)
            .expect("hf repo id should be allowed"),
        PathStep::NotLocal
    );
}

#[test]
fn rejects_local_paths_without_prefixes() {
    for path in [
        "/tmp/adapter-a",
        "./adapter-a",
        "~/adapter-a",
        "subdir/../../../etc/sensitive",
    ] {
        assert!(looks_like_local_lora_path(path));
        assert_eq!(
            begin_path_access(path, None, false),
            Err(LoraPathError::LocalPathsDisabled)
        );
    }
}

#[test]
fn rejects_existing_bare_relative_paths_without_prefixes() {
    assert_eq!(
        begin_path_access("target/adapter-a", Some(true), false),
        Err(LoraPathError::LocalPathsDisabled)
    );
    assert_eq!(
        begin_path_access("target/adapter-a", Some(true), true),
        Err(LoraPathError::RelativeLocalPath)
    );
    assert_eq!(
        begin_path_access("target/adapter-a", None, true),
        Err(LoraPathError::PathUnavailable)
    );
}

#[test]
fn allows_absolute_paths_under_configured_prefixes() {
    assert_eq!(
        begin_path_access("/root/allowed/adapter-a", None, true),
        Ok(PathStep::Resolve)
    );
    assert_eq!(
        finish_path_access(
            Some(bytes("/root/allowed/adapter-a")),
            &vec![bytes("/root/allowed")],
            &vec![Some(bytes("/root/allowed"))],
        )
        .expect("path under configured prefix should be allowed"),
        bytes("/root/allowed/adapter-a")
    );
}

#[test]
fn rejects_parent_escape_from_configured_prefixes() {
    assert_eq!(
        finish_path_access(
            Some(bytes("/root/private/adapter-a")),
            &vec![bytes("/root/allowed")],
            &vec![Some(bytes("/root/allowed"))],
        ),
        Err(LoraPathError::OutsideAllowedPrefixes)
    );
}

#[test]
fn unavailable_allowed_prefix_is_a_server_error() {
    let prefix = "/root/missing-prefix";
    let error = finish_path_access(
        Some(bytes("/root/adapter-a")),
        &vec![bytes("/root"), bytes(prefix)],
        &vec![Some(bytes("/root")), None],
    )
    .expect_err("missing configured prefix should fail");
    assert!(!error.is_client_error());
    assert!(error.log_message().contains(prefix));
    assert!(!error.public_message().contains(prefix));
}

#[test]
fn load_rejects_directory_outside_injected_prefix() {
    let error = LoraPathError::OutsideAllowedPrefixes;
    assert!(error.is_client_error());
    assert_eq!(error.status().code, Code::InvalidArgument);
}

#[test]
fn load_does_not_expose_unavailable_configured_prefix() {
    let error = LoraPathError::AllowedPrefixUnavailable(bytes("/root/secret-configured-prefix"));
    let status = error.status();
    assert_eq!(status.code, Code::Internal);
    assert!(!status.message.contains("/root/secret-configured-prefix"));
    assert_eq!(
        status.message,
        "Runtime LoRA path policy is unavailable; check the server configuration."
    );
}

#[test]
fn unreadable_prefixes_are_logged_with_replacement_characters() {
    let error = LoraPathError::AllowedPrefixUnavailable(vec![b'/', 0xff]);
    assert_eq!(
        error.log_message(),
        "configured VLLM_RUNTIME_LORA_ALLOWED_PATH_PREFIXES path prefix `/\u{fffd}` must exist and be accessible"
    );
}

#[test]
fn paths_lie_under_prefixes_step_by_step() {
    let under = |path: &str, prefix: &str| path_lies_under(path.as_bytes(), prefix.as_bytes());
    assert!(under("/a/b", "/a"));
    assert!(under("/a/b", "/a/"));
    assert!(under("/a//./b", "/a/b"));
    assert!(under("/a", "/"));
    assert!(under("/a", ""));
    assert!(!under("/ab", "/a"));
    assert!(!under("/a", "/a/b"));
    assert!(!under("a/b", "/a"));
    assert!(!under("./a", "a"));
    assert!(under("a/./b", "a/b"));
}

#[test]
fn missing_paths_are_unavailable() {
    assert_eq!(
        finish_path_access(None, &Vec::new(), &Vec::new()),
        Err(LoraPathError::PathUnavailable)
    );
    assert_eq!(
        finish_path_access(Some(bytes("/a")), &Vec::new(), &Vec::new()),
        Err(LoraPathError::OutsideAllowedPrefixes)
    );
}

#[test]
fn names_with_dots_are_no_local_paths() {
    assert!(!looks_like_local_lora_path("org/v1..2"));
    assert!(!looks_like_local_lora_path("org/..."));
    assert!(looks_like_local_lora_path("org/.."));
    assert!(!looks_like_local_lora_path(""));
}

#[test]
fn prefixes_are_separated_by_colons() {
    assert_eq!(allowed_prefixes(b""), None);
    assert_eq!(allowed_prefixes(b"::"), None);
    assert_eq!(
        allowed_prefixes(b"/a::/b/c:"),
        Some(vec![bytes("/a"), bytes("/b/c")])
    );
}

#[test]
fn collective_calls_need_a_method() {
    let request = |method: Option<String>| CollectiveRpcRequest {
        method,
        timeout: None,
        args: vec![JsonValue::Bool(true)],
        kwargs: Vec::new(),
    };
    assert_eq!(
        collective_rpc(Ok(request(None))),
        Err(ApiError::InvalidRequest {
            message: "Missing 'method' in request body".to_string(),
            param: Some("method".to_string()),
        })
    );
    let call = collective_rpc(Ok(request(Some("probe".to_string())))).unwrap();
    assert_eq!(call.method, "probe");
    assert_eq!(call.args, vec![JsonValue::Bool(true)]);
    assert_eq!(
        collective_rpc(Err("bad".to_string())),
        Err(ApiError::JsonParse { message: "bad".to_string() })
    );
}

#[test]
fn weights_are_updated_from_a_directory_or_none() {
    let call = update_weights(Ok(UpdateWeightsRequest { weight_dir: None })).unwrap();
    assert_eq!(call.method, "update_weights_from_path");
    assert_eq!(call.args, vec![JsonValue::Null]);
    let request = UpdateWeightsRequest { weight_dir: Some("/w".to_string()) };
    let call = update_weights(Ok(request)).unwrap();
    assert_eq!(call.args, vec![JsonValue::String("/w".to_string())]);
    assert!(update_weights(Err("bad".to_string())).is_err());
}
