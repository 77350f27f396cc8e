use drift::coord::env::{env_prefix, filter_sensitive_keys, is_sensitive, parse_env_content, resolve_env_file, resolve_env_file_with, EnvVars};

fn vars(pairs: &[(&str, &str)]) -> EnvVars {
    let mut v = EnvVars::new();
    for (k, val) in pairs {
        v.insert(k.to_string(), val.to_string());
    }
    v
}

#[test]
fn test_sensitive_keys_filtered() {
    let patterns = vec!["SECRET_KEY", "API_SECRET", "GITHUB_TOKEN", "AWS_SECRET", "PASSWORD", "AUTH_TOKEN"];
    for pattern in patterns {
        let mut vars = EnvVars::new();
        vars.insert(pattern.to_string(), "secret_value".to_string());
        vars.insert("SAFE_VAR".to_string(), "safe_value".to_string());
        let filtered = filter_sensitive_keys(vars);
        assert!(!filtered.contains_key(pattern), "expected {} to be filtered", pattern);
        assert!(filtered.contains_key("SAFE_VAR"));
    }
}

#[test]
fn test_sensitive_substrings_filtered_case_sensitive() {
    let filtered = filter_sensitive_keys(vars(&[("SECRET_KEY", "secret"), ("safe_key", "safe")]));
    assert_eq!(filtered.len(), 1);
    assert!(filtered.contains_key("safe_key"));
    assert!(!filtered.contains_key("SECRET_KEY"));
}

#[test]
fn test_wildcard_pattern_matching() {
    let filtered = filter_sensitive_keys(vars(&[
        ("MY_API_KEY", "secret"),
        ("DATABASE_SECRET", "secret"),
        ("SESSION_TOKEN", "secret"),
        ("PUBLIC_VAR", "safe"),
    ]));
    assert_eq!(filtered.len(), 1);
    assert!(filtered.contains_key("PUBLIC_VAR"));
}

#[test]
fn test_sensitive_substrings_filtered() {
    for substr in ["KEY", "SECRET", "TOKEN", "PASSWORD", "PASS", "AUTH"] {
        let key = format!("SOME_{}", substr);
        let filtered = filter_sensitive_keys(vars(&[(key.as_str(), "secret")]));
        assert!(!filtered.contains_key(&key), "expected {} to be filtered", key);
    }
}

#[test]
fn test_empty_map_after_filtering_all_sensitive() {
    let filtered = filter_sensitive_keys(vars(&[("API_KEY_1", "v1"), ("API_KEY_2", "v2"), ("SECRET_TOKEN", "v3")]));
    assert!(filtered.is_empty());
}

#[test]
fn test_filter_preserves_non_sensitive_keys() {
    let filtered = filter_sensitive_keys(vars(&[("HOST", "localhost"), ("PORT", "8080"), ("LOG_LEVEL", "info"), ("WORKERS", "4")]));
    assert_eq!(filtered.len(), 4);
    for k in ["HOST", "PORT", "LOG_LEVEL", "WORKERS"] {
        assert!(filtered.get(k).is_some(), "expected {} to be preserved", k);
    }
}

#[test]
fn test_filter_sensitive_keys_basic() {
    let filtered = filter_sensitive_keys(vars(&[("FOO", "bar"), ("BAZ", "qux")]));
    assert_eq!(filtered.len(), 2);
}

#[test]
fn test_filter_sensitive_keys_filters_api_keys() {
    let filtered = filter_sensitive_keys(vars(&[("PUBLIC_VAR", "safe"), ("API_KEY", "secret"), ("OTHER_KEY", "also_secret")]));
    assert_eq!(filtered.len(), 1);
    assert!(filtered.contains_key("PUBLIC_VAR"));
    assert!(!filtered.contains_key("API_KEY"));
}

#[test]
fn test_filter_sensitive_keys_filters_secrets() {
    let filtered = filter_sensitive_keys(vars(&[("SAFE_VAR", "safe"), ("MY_SECRET", "hidden"), ("SECRET", "hidden2")]));
    assert_eq!(filtered.len(), 1);
    assert!(!filtered.contains_key("MY_SECRET"));
    assert!(!filtered.contains_key("SECRET"));
}

#[test]
fn test_filter_sensitive_keys_filters_tokens() {
    let filtered = filter_sensitive_keys(vars(&[("HOST", "localhost"), ("ACCESS_TOKEN", "eyJhbGc"), ("TOKEN", "secret")]));
    assert_eq!(filtered.len(), 1);
    assert!(!filtered.contains_key("ACCESS_TOKEN"));
    assert!(!filtered.contains_key("TOKEN"));
}

#[test]
fn test_filter_sensitive_keys_filters_passwords() {
    let filtered = filter_sensitive_keys(vars(&[
        ("DB_HOST", "localhost"),
        ("DB_PASSWORD", "hunter2"),
        ("PASSWORD", "secret"),
        ("MY_PASS", "secret2"),
    ]));
    assert_eq!(filtered.len(), 1);
    assert!(!filtered.contains_key("DB_PASSWORD"));
    assert!(!filtered.contains_key("PASSWORD"));
    assert!(!filtered.contains_key("MY_PASS"));
}

#[test]
fn test_filter_sensitive_keys_filters_auth() {
    let filtered = filter_sensitive_keys(vars(&[
        ("ENDPOINT", "https://api.example.com"),
        ("AUTH_KEY", "secret"),
        ("AUTH_TOKEN", "secret2"),
        ("BEARER_AUTH", "secret3"),
    ]));
    assert_eq!(filtered.len(), 1);
    assert!(!filtered.contains_key("AUTH_KEY"));
    assert!(!filtered.contains_key("AUTH_TOKEN"));
    assert!(!filtered.contains_key("BEARER_AUTH"));
}

#[test]
fn test_filter_sensitive_keys_preserves_original() {
    let env_vars = vars(&[("API_KEY", "secret"), ("SAFE", "value")]);
    let filtered = filter_sensitive_keys(env_vars.clone());
    assert_eq!(filtered.len(), 1);
    assert_eq!(env_vars.len(), 2);
}

#[test]
fn test_filter_sensitive_keys_empty() {
    let filtered = filter_sensitive_keys(EnvVars::new());
    assert!(filtered.is_empty());
}

#[test]
fn filter_keeps_values_and_order() {
    let filtered = filter_sensitive_keys(vars(&[("B", "2"), ("TOKEN", "x"), ("A", "1")]));
    assert_eq!(filtered.pairs(), vec![("B".to_string(), "2".to_string()), ("A".to_string(), "1".to_string())]);
    assert!(is_sensitive(&"xAUTHx".to_string()));
    assert!(!is_sensitive(&"token".to_string()));
}

#[test]
fn parse_basic_key_value() {
    let v = parse_env_content("FOO=bar\nBAZ=qux\n");
    assert_eq!(v.get("FOO"), Some("bar".to_string()));
    assert_eq!(v.get("BAZ"), Some("qux".to_string()));
}

#[test]
fn parse_skips_blank_lines_and_comments() {
    let v = parse_env_content("# comment\nFOO=bar\n\n\n   \n# another comment\nBAZ=qux\n\n");
    assert_eq!(v.len(), 2);
    assert_eq!(v.get("FOO"), Some("bar".to_string()));
}

#[test]
fn parse_duplicate_keys_uses_last() {
    let v = parse_env_content("FOO=first\nFOO=second\n");
    assert_eq!(v.len(), 1);
    assert_eq!(v.get("FOO"), Some("second".to_string()));
}

#[test]
fn parse_empty_value_and_trimming() {
    let v = parse_env_content("FOO=\n  KEY_A  =  spaced value \r\nNO_EQUALS\nX=a=b");
    assert_eq!(v.get("FOO"), Some(String::new()));
    assert_eq!(v.get("KEY_A"), Some("spaced value".to_string()));
    assert!(!v.contains_key("NO_EQUALS"));
    assert_eq!(v.get("X"), Some("a=b".to_string()));
    assert_eq!(v.len(), 3);
}

#[test]
fn test_env_vars_parsed_and_filtered() {
    let filtered = filter_sensitive_keys(parse_env_content("HF_TOKEN=abc\nWANDB_MODE=offline\nDB_PASSWORD=x\n"));
    assert_eq!(filtered.len(), 1);
    assert_eq!(filtered.get("WANDB_MODE"), Some("offline".to_string()));
}

#[test]
fn env_prefix_renders_assignments() {
    assert_eq!(env_prefix(&vars(&[("A", "1"), ("B", "2")])), "A=1 B=2 ");
    assert_eq!(env_prefix(&EnvVars::new()), "");
}

#[test]
fn env_file_choice() {
    assert_eq!(resolve_env_file_with(Some("/x/custom.env"), false), Some("/x/custom.env".to_string()));
    assert_eq!(resolve_env_file_with(None, true), Some(".env.shared".to_string()));
    assert_eq!(resolve_env_file_with(None, false), None);
    assert_eq!(resolve_env_file(Some("given.env")), Some("given.env".to_string()));
    let found = resolve_env_file(None);
    assert!(found.is_none() || found == Some(".env.shared".to_string()));
}
