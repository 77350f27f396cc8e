use drift::node::script_discovery::{
    clone_destination_of, entrypoint_from_pyproject, file_name_of, find_local_repo_in, find_preprovisioned_repo,
    is_local_checkout, local_repo_candidate_paths, parse_ls_remote_head, pick_first_existing, provisioned_candidate_paths,
    pyproject_path_of, repo_suffix_from_url, resolve_entrypoint_to_spawn_cmd, spawn_command_with, training_mode,
    venv_candidate_paths, DiscoveryError, TrainingMode,
};

#[test]
fn test_repo_path_from_url_github() {
    let url = "https://github.com/user/my-repo";
    let suffix = repo_suffix_from_url(url);
    assert_eq!(suffix, "my-repo");
}

#[test]
fn test_repo_path_from_url_with_git_extension() {
    let url = "https://github.com/user/my-repo.git";
    let suffix = repo_suffix_from_url(url);
    assert_eq!(suffix, "my-repo");
}

#[test]
fn repo_suffix_edge_cases() {
    assert_eq!(repo_suffix_from_url("repo.git.git"), "repo");
    assert_eq!(repo_suffix_from_url("plain"), "plain");
    assert_eq!(repo_suffix_from_url("https://host/"), "");
    assert_eq!(repo_suffix_from_url(".git"), "");
    assert_eq!(repo_suffix_from_url("a/b.gitx"), "b.gitx");
}

#[test]
fn test_discover_script_entrypoint_happy_path_project_scripts() {
    let content = "[project]\nname = \"my-training\"\n\n[project.scripts]\nati_plug = \"src.main:ati\"\n";
    let result = entrypoint_from_pyproject(content);
    assert!(result.is_ok(), "should parse [project.scripts]");
    assert_eq!(result.unwrap(), "ati_plug");
}

#[test]
fn test_discover_script_entrypoint_happy_path_uv_scripts() {
    let content = "[project]\nname = \"my-training\"\n\n[tool.uv.scripts]\nati_plug = \"src.main:ati\"\n";
    let result = entrypoint_from_pyproject(content);
    assert!(result.is_ok(), "should parse [tool.uv.scripts]");
    assert_eq!(result.unwrap(), "ati_plug");
}

#[test]
fn test_discover_script_entrypoint_prefers_project_over_uv() {
    let content = "[project]\nname = \"x\"\n\n[project.scripts]\nproj_ati_plug = \"a:b\"\n\n[tool.uv.scripts]\nuv_ati_plug = \"c:d\"\n";
    assert_eq!(entrypoint_from_pyproject(content).unwrap(), "proj_ati_plug");
}

#[test]
fn test_discover_script_entrypoint_missing_ati_plug() {
    let content = "[project]\nname = \"x\"\n\n[project.scripts]\nserve = \"a:b\"\n";
    assert_eq!(entrypoint_from_pyproject(content), Err(DiscoveryError::AtiPlugNotFound));
}

#[test]
fn test_discover_script_entrypoint_invalid_toml() {
    assert_eq!(entrypoint_from_pyproject("this is [[[ not toml"), Err(DiscoveryError::ParseFailed));
}

#[test]
fn ati_plug_needs_a_string_command_and_root_scripts_count() {
    let content = "[project.scripts]\nati_plug = 3\n\n[scripts]\nrun_ati_plug = \"x\"\n";
    assert_eq!(entrypoint_from_pyproject(content).unwrap(), "run_ati_plug");
}

#[test]
fn file_names() {
    assert_eq!(file_name_of("/a/b/my-repo"), Some("my-repo".to_string()));
    assert_eq!(file_name_of("/a/b/my-repo/"), Some("my-repo".to_string()));
    assert_eq!(file_name_of("/a/b/."), Some("b".to_string()));
    assert_eq!(file_name_of("/a/.."), None);
    assert_eq!(file_name_of("/"), None);
    assert_eq!(file_name_of(""), None);
}

#[test]
fn venv_candidates_in_order() {
    let c = venv_candidate_paths("/src/my-repo", "/base");
    assert_eq!(
        c,
        vec![
            "/src/my-repo/.venv/bin/activate".to_string(),
            "/base/covn/my-repo/.venv/bin/activate".to_string(),
            "/base/drift/my-repo/.venv/bin/activate".to_string(),
        ]
    );
}

#[test]
fn first_existing_candidate_wins() {
    let c = vec!["a".to_string(), "b".to_string(), "c".to_string()];
    assert_eq!(pick_first_existing(&c, &vec![false, true, true]), Some("b".to_string()));
    assert_eq!(pick_first_existing(&c, &vec![false, false, false]), None);
}

#[test]
fn test_resolve_entrypoint_to_spawn_cmd_empty() {
    assert_eq!(resolve_entrypoint_to_spawn_cmd("/nonexistent/repo", "", "/nonexistent"), Err(DiscoveryError::EmptyScriptKey));
}

#[test]
fn test_resolve_entrypoint_without_venv() {
    let cmd = resolve_entrypoint_to_spawn_cmd("/nonexistent/drift-test-repo", "ati_plug", "/nonexistent/base").unwrap();
    assert_eq!(cmd, "ati_plug");
}

#[test]
fn test_resolve_entrypoint_to_spawn_cmd_simple_module() {
    let cmd = resolve_entrypoint_to_spawn_cmd("/nonexistent/drift-test-repo", "src.main:ati", "/nonexistent/base").unwrap();
    assert!(cmd.contains("python"), "should use python");
    assert!(cmd.contains("-c"), "should use -c flag");
    assert!(cmd.contains("from src.main import ati"), "should import module");
    assert_eq!(cmd, "PYTHONPATH='/nonexistent/drift-test-repo' python -c 'from src.main import ati; ati()'");
}

#[test]
fn test_resolve_entrypoint_to_spawn_cmd_includes_pythonpath() {
    let cmd = resolve_entrypoint_to_spawn_cmd("/nonexistent/drift-test-repo", "src.main:ati", "/nonexistent/base").unwrap();
    assert!(cmd.contains("PYTHONPATH="), "should set PYTHONPATH");
}

#[test]
fn test_resolve_entrypoint_to_spawn_cmd_invalid_format() {
    let resolved = resolve_entrypoint_to_spawn_cmd("/nonexistent/drift-test-repo", "not-valid", "/nonexistent/base");
    assert!(resolved.is_err(), "should error on invalid format");
    assert_eq!(resolved, Err(DiscoveryError::InvalidScriptKey("not-valid".to_string())));
}

#[test]
fn malformed_module_keys_refused() {
    for key in [":ati", "src.main:", "src..main:ati", ".src:ati", "src.:ati", "a:b:c", "src main:ati", "src.main:a-b"] {
        assert!(
            matches!(resolve_entrypoint_to_spawn_cmd("/r", key, "/nonexistent"), Err(DiscoveryError::InvalidScriptKey(_))),
            "{} should be refused",
            key
        );
    }
    assert_eq!(
        DiscoveryError::InvalidScriptKey("x-y".to_string()).message(),
        "invalid script key: x-y (expected a script name or module:function)"
    );
}

#[test]
fn spawn_command_forms() {
    assert_eq!(spawn_command_with("ati_plug", Some("/r/.venv/bin/activate")), "source /r/.venv/bin/activate && ati_plug");
    assert_eq!(spawn_command_with("ati_plug", None), "ati_plug");
}

#[test]
fn provisioned_locations() {
    assert_eq!(
        provisioned_candidate_paths("https://github.com/o/repo.git", "/share"),
        vec!["/share/covn/repo".to_string(), "/share/drift/repo".to_string()]
    );
    match find_preprovisioned_repo("https://github.com/o/drift-test-absent-repo", "/nonexistent") {
        Err(e) => assert_eq!(
            e.message(),
            "repo not found in ~/.local/share/covn/ or ~/.local/share/drift/: drift-test-absent-repo"
        ),
        Ok(p) => panic!("unexpected {}", p),
    }
    assert_eq!(clone_destination_of("https://github.com/o/repo.git", "/share"), "/share/drift/repo");
}

#[test]
fn test_repo_parsing() {
    let url = "https://github.com/owner/repo_name";
    let result = find_local_repo_in(url, Some("/nonexistent-home"));
    assert!(result.is_some() || result.is_none(), "Should parse URL without panicking");
    let c = local_repo_candidate_paths(url, "/h").unwrap();
    assert_eq!(
        c,
        vec![
            "/h/.local/share/covn/owner/repo_name".to_string(),
            "/h/.local/share/covn/repo_name".to_string(),
            "/h/.local/share/drift/owner/repo_name".to_string(),
            "/h/.local/share/drift/repo_name".to_string(),
        ]
    );
}

#[test]
fn test_empty_url_handling() {
    assert!(find_local_repo_in("", Some("/h")).is_none(), "Empty URL should return None");
    assert!(local_repo_candidate_paths("https://x/", "/h").is_none());
}

#[test]
fn test_single_slash_url() {
    assert!(find_local_repo_in("repo_name", Some("/nonexistent-home")).is_none(), "Single component URL should not find path");
    assert!(find_local_repo_in("repo_name", None).is_none());
    assert_eq!(local_repo_candidate_paths("repo_name", "/h").unwrap()[0], "/h/.local/share/covn/repo_name");
}

#[test]
fn ls_remote_output() {
    assert_eq!(parse_ls_remote_head("abc123def\tHEAD\nother\n"), Some("abc123def".to_string()));
    assert_eq!(parse_ls_remote_head("  f00\tHEAD\r\n"), Some("f00".to_string()));
    assert_eq!(parse_ls_remote_head(""), None);
    assert_eq!(parse_ls_remote_head("   \nabc"), None);
}

#[test]
fn local_checkouts_and_modes() {
    assert!(is_local_checkout("/srv/repo"));
    assert!(!is_local_checkout("https://github.com/a/b"));
    assert_eq!(training_mode(true, false, ""), TrainingMode::MissingEntrypoint);
    assert_eq!(training_mode(true, false, "train.py"), TrainingMode::MissingEntrypoint);
    assert_eq!(training_mode(false, false, ""), TrainingMode::Simulated);
    assert_eq!(training_mode(false, false, "model.safetensors"), TrainingMode::Simulated);
    assert_eq!(training_mode(false, false, "train.py"), TrainingMode::Real);
    assert_eq!(training_mode(false, false, "/tmp/train.py"), TrainingMode::Real);
    assert_eq!(training_mode(true, true, ""), TrainingMode::Real);
    assert_eq!(pyproject_path_of("/r"), "/r/pyproject.toml");
}
