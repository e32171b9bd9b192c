use prx_email::db::storage::{table_info_query, ConnectionStep};
use prx_email::db::{
    connection_pragmas, ensure_column_statement, validate_sql_identifier, validate_sql_type,
    StoreConfig, SynchronousMode,
};
use prx_email::plugin::paths::{join_path, plan_attachment_storage};
use prx_email::plugin::{
    normalize_path, safe_resolve_under_root, sanitize_path_component, AttachmentPolicy,
    AttachmentStoreConfig, SendFailureMode,
};

fn batches(steps: &[ConnectionStep]) -> Vec<String> {
    steps
        .iter()
        .map(|s| match s {
            ConnectionStep::Batch(b) => b.clone(),
            ConnectionStep::BusyTimeoutMs(ms) => format!("busy={ms}"),
        })
        .collect()
}

#[test]
fn default_store_config_pragmas() {
    let cfg = StoreConfig::default();
    assert!(cfg.enable_wal);
    assert_eq!(cfg.busy_timeout_ms, 5000);
    assert_eq!(cfg.wal_autocheckpoint_pages, 1000);
    assert_eq!(
        batches(&connection_pragmas(&cfg)),
        vec![
            "PRAGMA foreign_keys = ON;",
            "busy=5000",
            "PRAGMA journal_mode = WAL;",
            "PRAGMA wal_autocheckpoint = 1000;",
            "PRAGMA synchronous = NORMAL;",
        ]
    );
}

#[test]
fn pragmas_without_wal() {
    let cfg = StoreConfig {
        enable_wal: false,
        busy_timeout_ms: 7,
        wal_autocheckpoint_pages: -5,
        synchronous: SynchronousMode::Off,
    };
    assert_eq!(
        batches(&connection_pragmas(&cfg)),
        vec!["PRAGMA foreign_keys = ON;", "busy=7", "PRAGMA synchronous = OFF;"]
    );
    let full = StoreConfig { synchronous: SynchronousMode::Full, ..cfg };
    assert_eq!(batches(&connection_pragmas(&full)).last().unwrap(), "PRAGMA synchronous = FULL;");
}

#[test]
fn sql_identifiers_are_checked() {
    assert!(validate_sql_identifier("messages").is_ok());
    assert!(validate_sql_identifier("_body_html2").is_ok());
    assert_eq!(
        validate_sql_identifier("").unwrap_err().message,
        "invalid SQL identifier length: 0"
    );
    assert_eq!(
        validate_sql_identifier(&"a".repeat(65)).unwrap_err().message,
        "invalid SQL identifier length: 65"
    );
    assert!(validate_sql_identifier(&"a".repeat(64)).is_ok());
    assert_eq!(
        validate_sql_identifier("1abc").unwrap_err().message,
        "SQL identifier must start with letter or underscore: 1abc"
    );
    assert_eq!(
        validate_sql_identifier("a;drop").unwrap_err().message,
        "SQL identifier contains invalid characters: a;drop"
    );
    assert_eq!(
        validate_sql_identifier("é").unwrap_err().message,
        "SQL identifier must start with letter or underscore: é"
    );
}

#[test]
fn sql_types_are_checked() {
    assert!(validate_sql_type("TEXT").is_ok());
    assert!(validate_sql_type("VARCHAR(32) NOT_NULL").is_ok());
    assert_eq!(validate_sql_type("").unwrap_err().message, "invalid SQL type length: 0");
    assert_eq!(
        validate_sql_type("TEXT; DROP").unwrap_err().message,
        "SQL type contains invalid characters: TEXT; DROP"
    );
}

#[test]
fn ensure_column_adds_only_missing_columns() {
    assert_eq!(table_info_query("messages"), "PRAGMA table_info(messages)");
    let existing = vec!["id".to_string(), "subject".to_string()];
    assert_eq!(ensure_column_statement("messages", "subject", "TEXT", &existing), None);
    assert_eq!(
        ensure_column_statement("messages", "body_html", "TEXT", &existing).as_deref(),
        Some("ALTER TABLE messages ADD COLUMN body_html TEXT")
    );
}

#[test]
fn path_components_are_sanitized() {
    assert_eq!(sanitize_path_component("<m1@example.com>"), "_m1_example.com_");
    assert_eq!(sanitize_path_component("a b/c"), "a_b_c");
    assert_eq!(sanitize_path_component(""), "unknown");
    assert_eq!(sanitize_path_component("ok-name_1.txt"), "ok-name_1.txt");
}

#[test]
fn paths_are_normalized_lexically() {
    assert_eq!(normalize_path("/a/./b/../c"), "/a/c");
    assert_eq!(normalize_path("a/b/.."), "a");
    assert_eq!(normalize_path("/.."), "/");
    assert_eq!(normalize_path("../x"), "x");
    assert_eq!(normalize_path("/a//b/"), "/a/b");
}

#[test]
fn resolution_stays_under_the_root() {
    assert_eq!(
        safe_resolve_under_root("/srv/store", "x/../y.txt").unwrap(),
        "/srv/store/y.txt"
    );
    assert_eq!(
        safe_resolve_under_root("/srv/store", "/srv/store/1/a.bin").unwrap(),
        "/srv/store/1/a.bin"
    );
    let escape = safe_resolve_under_root("/srv/store", "../etc/passwd").unwrap_err();
    assert_eq!(escape.mode, SendFailureMode::Provider);
    assert_eq!(escape.message, "attachment path escapes storage root");
    assert_eq!(escape.debug_message, "root=/srv/store candidate=/srv/etc/passwd");
    assert!(safe_resolve_under_root("/srv/store", "/srv/storeX/a").is_err());
    assert!(safe_resolve_under_root("/srv/store", "/tmp/a").is_err());
}

#[test]
fn attachment_storage_plan() {
    let store = AttachmentStoreConfig { enabled: true, dir: "/data/att".to_string() };
    let policy = AttachmentPolicy::default();
    let t = plan_attachment_storage(
        Some(&store),
        &policy,
        7,
        "<m1@example.com>",
        2,
        Some("report.pdf"),
        Some("application/pdf"),
        100,
        1700,
    )
    .expect("planned");
    assert_eq!(t.dir, "/data/att/7/_m1_example.com_");
    assert_eq!(t.file, "/data/att/7/_m1_example.com_/1700-2-report.pdf");
    let unnamed = plan_attachment_storage(Some(&store), &policy, 7, "m", 0, None, Some("text/plain"), 1, 5)
        .expect("planned");
    assert_eq!(unnamed.file, "/data/att/7/m/5-0-attachment.bin");
    assert!(plan_attachment_storage(Some(&store), &policy, 7, "m", 0, None, None, 1, 5).is_none());
    let disabled = AttachmentStoreConfig { enabled: false, dir: "/d".to_string() };
    assert!(plan_attachment_storage(Some(&disabled), &policy, 7, "m", 0, None, Some("text/plain"), 1, 5).is_none());
    assert!(plan_attachment_storage(None, &policy, 7, "m", 0, None, Some("text/plain"), 1, 5).is_none());
    assert_eq!(join_path("/a/", "b"), "/a/b");
    assert_eq!(join_path("/a", "b"), "/a/b");
}

#[test]
fn sanitizing_twice_changes_nothing() {
    for name in ["<a b>@c", "", "ok.txt", "ünïcødé/..", "___"] {
        let once = sanitize_path_component(name);
        assert_eq!(sanitize_path_component(&once), once);
        assert!(once.chars().all(|c| c.is_ascii_alphanumeric() || c == '.' || c == '_' || c == '-'));
    }
}

#[test]
fn normalizing_twice_changes_nothing() {
    for p in ["/a/./b/../c", "a/b/..", "../x/./y/", "", "/", ".", "..", "a//b", "/../..", "./a/../../b"] {
        let once = normalize_path(p);
        assert_eq!(normalize_path(&once), once);
    }
}

#[test]
fn resolving_a_resolved_path_gives_it_back() {
    for c in ["x/../y.txt", "./a/b", "/srv/store/./c/../d"] {
        let first = safe_resolve_under_root("/srv/store", c).expect("under root");
        let again = safe_resolve_under_root("/srv/store", &first).expect("still under root");
        assert_eq!(again, first);
    }
}
