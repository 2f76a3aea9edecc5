//! Tests of the supporting helpers: error shaping, localization, client
//! configuration, node testing types, git status parsing, version
//! comparison and the small catalogue functions.

use claudia_core::claude_binary::{compare_versions, select_best_installation, sort_installations, source_preference};
use claudia_core::claude_binary::{ClaudeInstallation, InstallationType};
use claudia_core::error::{
    combine_errors, error_with_suggestion, io_error_to_string, prefixed_error, to_string_error,
    to_string_error_ctx,
};
use claudia_core::git::{parse_git_log, parse_git_status};
use claudia_core::http_client::ClientConfig;
use claudia_core::i18n::SimpleI18n;
use claudia_core::node_test::{NodeTestResult, TestStatus};
use claudia_core::node_tester::{filter_failed_nodes, filter_successful_nodes, find_fastest_node};
use claudia_core::packycode_nodes::get_all_nodes;
use claudia_core::projects::decode_project_path;
use claudia_core::records::candidate_binaries;
use claudia_core::relay_stations::{mask_token, RelayStationAdapter};
use claudia_core::strutil::u64_to_string;
use claudia_core::node_tester::sort_by_response_time;
use claudia_core::error::db_error_to_string;
use claudia_core::tags::extract_tags_from_content;
use claudia_core::usage::{generate_unique_hash, should_exclude, UsageEntry};

#[test]
fn test_parse_git_status() {
    let status_text = "?? test-untracked.txt\nA  staged-file.txt\n M modified-file.txt";
    let (staged, modified, untracked, conflicted) = parse_git_status(status_text);

    println!("Untracked files: {:?}", untracked);
    println!("Staged files: {:?}", staged);
    println!("Modified files: {:?}", modified);

    assert_eq!(untracked.len(), 1);
    assert_eq!(untracked[0].path, "test-untracked.txt");
    assert_eq!(untracked[0].status, "untracked");

    assert_eq!(staged.len(), 1);
    assert_eq!(staged[0].path, "staged-file.txt");

    assert_eq!(modified.len(), 1);
    assert_eq!(modified[0].path, "modified-file.txt");

    assert!(conflicted.is_empty());
}

#[test]
fn git_status_codes_cover_both_lists() {
    let text = "MM both.rs\nD  gone.rs\n D lost.rs\nR  moved.rs\nUU clash.rs\nxx ignored.rs\n";
    let (staged, modified, untracked, conflicted) = parse_git_status(text);
    assert_eq!(staged.len(), 3);
    assert_eq!(staged[0].path, "both.rs");
    assert!(staged[0].staged);
    assert_eq!(staged[1].status, "deleted");
    assert_eq!(staged[2].status, "renamed");
    assert_eq!(modified.len(), 2);
    assert_eq!(modified[0].path, "both.rs");
    assert!(!modified[0].staged);
    assert_eq!(modified[1].status, "deleted");
    assert!(untracked.is_empty());
    assert_eq!(conflicted.len(), 1);
    assert_eq!(conflicted[0].path, "clash.rs");
}

#[test]
fn git_log_parsing() {
    let text = "abc123|abc|Alice|alice@example.com|2024-01-01|first commit\n\
                3\t1\tsrc/main.rs\n2\t0\tREADME\n\n\
                def456|def|Bob|bob@example.com|2024-01-02|second commit\n\
                -\t-\tassets/logo.bin\n";
    let commits = parse_git_log(text).unwrap();
    assert_eq!(commits.len(), 2);
    assert_eq!(commits[0].hash, "abc123");
    assert_eq!(commits[0].author, "Alice");
    assert_eq!(commits[0].message, "first commit");
    assert_eq!(commits[0].files_changed, 2);
    assert_eq!(commits[0].insertions, 5);
    assert_eq!(commits[0].deletions, 1);
    // Binary statistics lines count the file but add nothing.
    assert_eq!(commits[1].files_changed, 1);
    assert_eq!(commits[1].insertions, 0);
    assert_eq!(commits[1].deletions, 0);
    assert!(parse_git_log("").unwrap().is_empty());
}

#[test]
fn test_default_config() {
    let config = ClientConfig::default();
    assert_eq!(config.timeout_secs, 10);
    assert!(!config.accept_invalid_certs);
    assert!(config.use_proxy);
    assert_eq!(config.user_agent, Some("Claudia/1.0".to_string()));
}

#[test]
fn test_config_builder() {
    let config = ClientConfig::new()
        .timeout(5)
        .accept_invalid_certs(true)
        .use_proxy(false)
        .user_agent("TestAgent");

    assert_eq!(config.timeout_secs, 5);
    assert!(config.accept_invalid_certs);
    assert!(!config.use_proxy);
    assert_eq!(config.user_agent, Some("TestAgent".to_string()));
}

#[test]
fn test_test_status() {
    assert!(TestStatus::Success.is_success());
    assert!(!TestStatus::Failure.is_success());
    assert!(TestStatus::Failure.is_failure());
    assert_eq!(TestStatus::Success.as_str(), "success");
    assert_eq!(TestStatus::Timeout.as_str(), "timeout");
}

#[test]
fn test_success_result() {
    let result = NodeTestResult::success("https://api.example.com".to_string(), 150);
    assert!(result.is_success());
    assert_eq!(result.response_time(), Some(150));
    assert!(result.error().is_none());
    assert_eq!(result.status, TestStatus::Success);
}

#[test]
fn test_failure_result() {
    let result = NodeTestResult::failure(
        "https://api.example.com".to_string(),
        "Connection refused".to_string(),
    );
    assert!(result.is_failure());
    assert_eq!(result.error(), Some("Connection refused"));
    assert_eq!(result.status, TestStatus::Failure);
}

#[test]
fn test_timeout_result() {
    let result = NodeTestResult::timeout("https://api.example.com".to_string(), 5000);
    assert_eq!(result.status, TestStatus::Timeout);
    assert!(result.error().is_some());
}

#[test]
fn test_find_fastest_node() {
    let results = vec![
        NodeTestResult::success("http://1".to_string(), 200),
        NodeTestResult::success("http://2".to_string(), 100),
        NodeTestResult::failure("http://3".to_string(), "error".to_string()),
    ];

    let fastest = find_fastest_node(&results);
    assert!(fastest.is_some());
    assert_eq!(fastest.unwrap().url, "http://2");
}

#[test]
fn test_filter_nodes() {
    let results = vec![
        NodeTestResult::success("http://1".to_string(), 100),
        NodeTestResult::failure("http://2".to_string(), "error".to_string()),
        NodeTestResult::success("http://3".to_string(), 200),
    ];

    let successful = filter_successful_nodes(&results);
    assert_eq!(successful.len(), 2);

    let failed = filter_failed_nodes(&results);
    assert_eq!(failed.len(), 1);
}

#[test]
fn test_to_string_error() {
    let result: Result<String, anyhow::Error> = Err(anyhow::Error::msg("测试错误"));
    let converted = to_string_error(result);
    assert!(converted.is_err());
    assert_eq!(converted.unwrap_err(), "测试错误");
}

#[test]
fn test_to_string_error_ctx() {
    let result: Result<String, anyhow::Error> = Err(anyhow::Error::msg("原始错误"));
    let converted = to_string_error_ctx(result, "操作失败");
    assert!(converted.is_err());
    assert_eq!(converted.unwrap_err(), "操作失败: 原始错误");
}

#[test]
fn test_combine_errors() {
    let errors = vec!["错误1".to_string(), "错误2".to_string()];
    let combined = combine_errors(&errors);
    assert!(combined.contains("错误1"));
    assert!(combined.contains("错误2"));
    assert!(combined.contains("2 个错误"));
}

#[test]
fn combine_errors_edges() {
    assert_eq!(combine_errors(&Vec::new()), "无错误");
    assert_eq!(combine_errors(&vec!["唯一".to_string()]), "唯一");
    let three = vec!["a".to_string(), "b".to_string(), "c".to_string()];
    assert_eq!(combine_errors(&three), "发生 3 个错误: a; b; c");
}

#[test]
fn test_prefixed_error() {
    let error = prefixed_error("数据库", "连接失败");
    assert_eq!(error, "数据库: 连接失败");
}

#[test]
fn test_error_with_suggestion() {
    let error = error_with_suggestion("无法连接到服务器", "检查网络连接");
    assert_eq!(error, "无法连接到服务器。建议: 检查网络连接");
}

#[test]
fn test_io_error_conversions() {
    let error = std::io::Error::new(std::io::ErrorKind::NotFound, "文件不存在");
    let converted = io_error_to_string(error);
    assert!(converted.contains("文件或目录不存在"));
}

#[test]
fn io_errors_without_detail_text() {
    let error = std::io::Error::new(std::io::ErrorKind::TimedOut, "slow");
    assert_eq!(io_error_to_string(error), "操作超时");
}

#[test]
fn ok_results_pass_through() {
    let result: Result<u32, anyhow::Error> = Ok(5);
    assert_eq!(to_string_error(result).unwrap(), 5);
    let result: Result<u32, anyhow::Error> = Ok(7);
    assert_eq!(to_string_error_ctx(result, "忽略").unwrap(), 7);
}

#[test]
fn localization_table() {
    let mut i18n = SimpleI18n::new();
    assert_eq!(i18n.get_current_locale(), "en-US");
    assert_eq!(i18n.t("agent-not-found"), "Agent not found");
    i18n.set_locale("zh-CN");
    assert_eq!(i18n.get_current_locale(), "zh-CN");
    assert_eq!(i18n.t("agent-not-found"), "未找到智能体");
    assert_eq!(i18n.t("relay_adapter.connection_success"), "连接成功");
    // Unknown keys and unsupported locales fall back.
    assert_eq!(i18n.t("no-such-key"), "no-such-key");
    i18n.set_locale("fr-FR");
    assert_eq!(i18n.get_current_locale(), "zh-CN");
}

#[test]
fn version_comparison() {
    assert_eq!(compare_versions("1.0.41", "1.0.5"), 1);
    assert_eq!(compare_versions("1.0.5", "1.0.41"), -1);
    assert_eq!(compare_versions("1.0.17-beta", "1.0.17"), 0);
    assert_eq!(compare_versions("2.0", "10.0"), -1);
    assert_eq!(compare_versions("1.0", "1.0.0"), 0);
    assert_eq!(compare_versions("", "0.0.0"), 0);
}

#[test]
fn installation_selection() {
    let inst = |path: &str, version: Option<&str>, source: &str| ClaudeInstallation {
        path: path.to_string(),
        version: version.map(|v| v.to_string()),
        source: source.to_string(),
        installation_type: InstallationType::System,
    };
    assert!(select_best_installation(Vec::new()).is_none());
    let best = select_best_installation(vec![
        inst("/old", Some("1.0.17"), "which"),
        inst("/new", Some("1.0.41"), "homebrew"),
        inst("agent", None, "PATH"),
    ])
    .unwrap();
    assert_eq!(best.path, "/new");
    // Versionless: a real path beats the bare lookup.
    let best = select_best_installation(vec![
        inst("agent", None, "PATH"),
        inst("/usr/local/bin/agent", None, "system"),
    ])
    .unwrap();
    assert_eq!(best.path, "/usr/local/bin/agent");
    // Source ranks order as documented.
    assert_eq!(source_preference(&inst("/a", None, "which")), 1);
    assert_eq!(source_preference(&inst("/a", None, "nvm-18")), 4);
    assert_eq!(source_preference(&inst("/a", None, "mystery")), 13);
}

#[test]
fn installation_ordering() {
    let inst = |path: &str, version: Option<&str>, source: &str| ClaudeInstallation {
        path: path.to_string(),
        version: version.map(|v| v.to_string()),
        source: source.to_string(),
        installation_type: InstallationType::System,
    };
    let mut installs = vec![
        inst("/plain", None, "PATH"),
        inst("/old", Some("1.0.17"), "local-bin"),
        inst("/new", Some("1.0.41"), "system"),
        inst("/tied", Some("1.0.41"), "which"),
        inst("/unversioned", None, "homebrew"),
    ];
    sort_installations(&mut installs);
    let paths: Vec<&str> = installs.iter().map(|i| i.path.as_str()).collect();
    // Newest first; the source preference breaks the version tie; the
    // versionless sort last by source preference.
    assert_eq!(paths, vec!["/tied", "/new", "/old", "/unversioned", "/plain"]);
}

#[test]
fn token_masking() {
    assert_eq!(mask_token("short"), "*****");
    assert_eq!(mask_token("12345678"), "********");
    assert_eq!(mask_token("abcd-secret-wxyz"), "abcd...wxyz");
    assert_eq!(mask_token(""), "");
}

#[test]
fn adapter_names() {
    assert_eq!(RelayStationAdapter::Packycode.as_str(), "packycode");
    assert_eq!(RelayStationAdapter::Custom.as_str(), "custom");
}

#[test]
fn project_path_decoding() {
    assert_eq!(decode_project_path("-Users-dev-project"), "/Users/dev/project");
    assert_eq!(decode_project_path("plain"), "plain");
}

#[test]
fn catalogues() {
    assert_eq!(get_all_nodes().len(), 10);
    assert_eq!(get_all_nodes()[0].url, "https://api.packycode.com");
    assert_eq!(candidate_binaries().len(), 10);
    assert_eq!(candidate_binaries()[0], "ccr");
}

#[test]
fn decimal_rendering() {
    assert_eq!(u64_to_string(0), "0");
    assert_eq!(u64_to_string(7), "7");
    assert_eq!(u64_to_string(1234), "1234");
    assert_eq!(u64_to_string(u64::MAX), "18446744073709551615");
}

#[test]
fn test_sort_by_response_time() {
    let mut results = vec![
        NodeTestResult::success("http://3".to_string(), 300),
        NodeTestResult::success("http://1".to_string(), 100),
        NodeTestResult::failure("http://4".to_string(), "error".to_string()),
        NodeTestResult::success("http://2".to_string(), 200),
    ];

    sort_by_response_time(&mut results);

    assert_eq!(results[0].url, "http://1");
    assert_eq!(results[1].url, "http://2");
    assert_eq!(results[2].url, "http://3");
    assert_eq!(results[3].url, "http://4");
}

#[test]
fn test_db_error_to_string() {
    let error = rusqlite::Error::QueryReturnedNoRows;
    assert_eq!(db_error_to_string(error), "查询未返回任何行");
}

#[test]
fn db_error_variants_render() {
    assert_eq!(
        db_error_to_string(rusqlite::Error::InvalidColumnIndex(3)),
        "无效的列索引: 3"
    );
    assert_eq!(
        db_error_to_string(rusqlite::Error::InvalidColumnName("who".to_string())),
        "无效的列名: who"
    );
    assert_eq!(db_error_to_string(rusqlite::Error::InvalidQuery), "无效的查询语句");
}

#[test]
fn tag_extraction() {
    // Mixed case: matching happens on the lowercased content.
    let tags = extract_tags_from_content("A RUST service in Docker, tested with jest.");
    assert_eq!(
        tags,
        vec!["rust".to_string(), "docker".to_string(), "jest".to_string()]
    );
    assert!(extract_tags_from_content("nothing relevant").is_empty());
    // The cap keeps the first ten matches.
    let everything = "react vue angular typescript javascript node express nest python django flask";
    let tags = extract_tags_from_content(everything);
    assert_eq!(tags.len(), 10);
    assert_eq!(tags[0], "react");
}

#[test]
fn scan_exclusions() {
    let extra = vec!["vendor/".to_string()];
    assert!(should_exclude("node_modules/pkg/index.js", &extra));
    assert!(should_exclude("target/debug/app", &extra));
    assert!(should_exclude("Cargo.lock", &extra));
    assert!(should_exclude("vendor/lib.rs", &extra));
    assert!(!should_exclude("src/main.rs", &extra));
}

#[test]
fn usage_entry_keys() {
    let entry = UsageEntry {
        session_id: "s1".to_string(),
        timestamp: "2024-01-01T00:00:00Z".to_string(),
        model: "m".to_string(),
        project_path: "/p".to_string(),
    };
    assert_eq!(generate_unique_hash(&entry, true, false), "io:s1:2024-01-01T00:00:00Z:m");
    assert_eq!(
        generate_unique_hash(&entry, false, true),
        "cache:2024-01-01T00:00:00Z:m:/p"
    );
    assert_eq!(generate_unique_hash(&entry, false, false), "other:2024-01-01T00:00:00Z:s1");
}
