use nook::jsonext::{parse_devcontainer_metadata_label, parse_devcontainer_output,
    strip_json_comments};

#[test]
fn test_parse_devcontainer_output_full_json() {
    let output = r#"{"outcome":"success","containerId":"abc123def456","remoteUser":"vscode","remoteWorkspaceFolder":"/workspaces/my-project"}"#;
    let result = parse_devcontainer_output(output);
    assert_eq!(result.container_id.as_deref(), Some("abc123def456"));
    assert_eq!(result.remote_user.as_deref(), Some("vscode"));
    assert_eq!(result.remote_workspace_folder.as_deref(), Some("/workspaces/my-project"));
}

#[test]
fn test_parse_devcontainer_output_minimal_json() {
    let output = r#"{"containerId":"abc123"}"#;
    let result = parse_devcontainer_output(output);
    assert_eq!(result.container_id.as_deref(), Some("abc123"));
    assert_eq!(result.remote_user, None);
    assert_eq!(result.remote_workspace_folder, None);
}

#[test]
fn test_parse_devcontainer_output_multiline() {
    let output = "Building container...\nStep 1/5: FROM node:20\n\n{\"outcome\":\"success\",\"containerId\":\"deadbeef\",\"remoteUser\":\"node\"}\n";
    let result = parse_devcontainer_output(output);
    assert_eq!(result.container_id.as_deref(), Some("deadbeef"));
    assert_eq!(result.remote_user.as_deref(), Some("node"));
    assert_eq!(result.remote_workspace_folder, None);
}

#[test]
fn test_parse_devcontainer_output_no_json() {
    let output = "Some random output\nwith no JSON\n";
    let result = parse_devcontainer_output(output);
    assert_eq!(result.container_id, None);
    assert_eq!(result.remote_user, None);
    assert_eq!(result.remote_workspace_folder, None);
}

#[test]
fn test_parse_devcontainer_metadata_label_with_remote_user() {
    let metadata = r#"[{"remoteUser":"vscode"},{"remoteWorkspaceFolder":"/workspaces/my-project"}]"#;
    let result = parse_devcontainer_metadata_label(metadata);
    assert_eq!(result.remote_user.as_deref(), Some("vscode"));
    assert_eq!(result.remote_workspace_folder.as_deref(), Some("/workspaces/my-project"));
}

#[test]
fn test_parse_devcontainer_metadata_label_single_object() {
    let metadata = r#"[{"remoteUser":"node","remoteWorkspaceFolder":"/workspaces/app"}]"#;
    let result = parse_devcontainer_metadata_label(metadata);
    assert_eq!(result.remote_user.as_deref(), Some("node"));
    assert_eq!(result.remote_workspace_folder.as_deref(), Some("/workspaces/app"));
}

#[test]
fn test_parse_devcontainer_metadata_label_empty() {
    let metadata = r#"[{}]"#;
    let result = parse_devcontainer_metadata_label(metadata);
    assert_eq!(result.remote_user, None);
    assert_eq!(result.remote_workspace_folder, None);
}

#[test]
fn test_parse_devcontainer_metadata_label_invalid_json() {
    let metadata = "not json";
    let result = parse_devcontainer_metadata_label(metadata);
    assert_eq!(result.remote_user, None);
    assert_eq!(result.remote_workspace_folder, None);
}

#[test]
fn test_strip_json_comments() {
    let input = r#"{
  // This is a comment
  "remoteUser": "vscode",
  /* block comment */
  "workspaceFolder": "/workspaces/app"
}"#;
    let cleaned = strip_json_comments(input);
    let val: serde_json::Value = serde_json::from_str(&cleaned).unwrap();
    assert_eq!(val.get("remoteUser").unwrap().as_str().unwrap(), "vscode");
    assert_eq!(val.get("workspaceFolder").unwrap().as_str().unwrap(), "/workspaces/app");
}

#[test]
fn test_strip_json_comments_in_strings() {
    // Comments inside strings should NOT be stripped
    let input = r#"{"url": "http://example.com"}"#;
    let cleaned = strip_json_comments(input);
    let val: serde_json::Value = serde_json::from_str(&cleaned).unwrap();
    assert_eq!(val.get("url").unwrap().as_str().unwrap(), "http://example.com");
}

#[test]
fn test_parse_devcontainer_output_merges_first_occurrences() {
    // Fields merge across lines, each keeping its first value, and the
    // scan stops once a container id was found.
    let output = "{\"remoteUser\":\"early\"}\n{\"remoteUser\":\"late\",\"containerId\":\"abc\"}\n{\"containerId\":\"zzz\"}\n";
    let result = parse_devcontainer_output(output);
    assert_eq!(result.container_id.as_deref(), Some("abc"));
    assert_eq!(result.remote_user.as_deref(), Some("early"));
}
