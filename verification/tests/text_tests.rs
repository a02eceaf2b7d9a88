use aigc_history::config::{AppConfig, EnvValues, Settings};
use aigc_history::db::migration::{StatementKind, StatementOutcome};
use aigc_history::db::statements::{
    classify_refusal, classify_statement, classify_uppercased, split_statements, with_keyspace,
};

/// The same reading with the iterator adaptors of the standard library.
fn reference(migration_sql: &str) -> Vec<String> {
    migration_sql
        .split(';')
        .filter_map(|chunk| {
            let cleaned = chunk
                .lines()
                .filter_map(|line| {
                    let trimmed = line.trim();
                    if trimmed.is_empty() || trimmed.starts_with("--") {
                        None
                    } else {
                        Some(trimmed)
                    }
                })
                .collect::<Vec<_>>()
                .join(" ");
            let statement = cleaned.trim().to_string();
            if statement.is_empty() {
                None
            } else {
                Some(statement)
            }
        })
        .collect()
}
#[test]
fn statements_of_a_migration_file() {
    let sql = "-- schema\nCREATE KEYSPACE IF NOT EXISTS aigc_history\n  WITH replication = {'class': 'SimpleStrategy'};\r\n\r\nUSE aigc_history;\n\n  CREATE TABLE t (\n    id uuid, -- the key\n    PRIMARY KEY (id)\n  ) ;\n-- done\n";
    assert_eq!(
        split_statements(sql),
        vec![
            "CREATE KEYSPACE IF NOT EXISTS aigc_history WITH replication = {'class': 'SimpleStrategy'}"
                .to_string(),
            "USE aigc_history".to_string(),
            "CREATE TABLE t ( id uuid, -- the key PRIMARY KEY (id) )".to_string(),
        ]
    );
    assert_eq!(split_statements(""), Vec::<String>::new());
    assert_eq!(split_statements(";;\n;"), Vec::<String>::new());
    assert_eq!(split_statements("a;b"), vec!["a".to_string(), "b".to_string()]);
    assert_eq!(split_statements("  a\r\n  b  "), vec!["a b".to_string()]);
    assert_eq!(split_statements("a\rb"), vec!["a\rb".to_string()]);
    assert_eq!(split_statements("-- only a comment"), Vec::<String>::new());
}

#[test]
fn statements_are_read_as_the_standard_library_reads_them() {
    for sql in [
        "",
        ";",
        "a",
        "a;",
        ";a",
        "a\n",
        "\na",
        "a\r\n;b\r",
        " \t a \u{a0} b \u{2003}\n--x\n - -y \n;\n\n;c",
        "é;ü\n-- ö\nß",
        "a\n\r\nb\r\r\nc",
        "SELECT 1 ; -- trailing\n",
    ] {
        assert_eq!(split_statements(sql), reference(sql), "for {:?}", sql);
    }
}

#[test]
fn statement_kinds() {
    assert_eq!(classify_statement("use aigc_history"), StatementKind::UseKeyspace);
    assert_eq!(classify_statement("USE x"), StatementKind::UseKeyspace);
    assert_eq!(classify_statement("user table"), StatementKind::Other);
    assert_eq!(
        classify_statement("create keyspace if not exists k with x"),
        StatementKind::CreateKeyspace
    );
    assert_eq!(classify_statement("CREATE TABLE t (id uuid)"), StatementKind::Other);
    assert_eq!(classify_statement(""), StatementKind::Other);
    assert_eq!(classify_uppercased("use x"), StatementKind::Other);
    assert_eq!(classify_uppercased("X CREATE KEYSPACE"), StatementKind::CreateKeyspace);
    assert_eq!(classify_uppercased("CREATE  KEYSPACE"), StatementKind::Other);
    assert_eq!(classify_refusal("Table t already exists"), StatementOutcome::AlreadyExists);
    assert_eq!(classify_refusal("already exist"), StatementOutcome::Failed);
    assert_eq!(classify_refusal(""), StatementOutcome::Failed);
}

#[test]
fn keyspace_name_is_replaced_everywhere() {
    assert_eq!(with_keyspace("USE aigc_history;", "prod"), "USE prod;");
    assert_eq!(
        with_keyspace("aigc_history.t aigc_historyaigc_history x", "k"),
        "k.t kk x"
    );
    assert_eq!(with_keyspace("aigc_histor", "k"), "aigc_histor");
    assert_eq!(with_keyspace("", "k"), "");
    assert_eq!(with_keyspace("aaigc_history", "aigc_history"), "aaigc_history");
    assert_eq!(
        with_keyspace("é aigc_history ü", "aigc_history_test"),
        "é aigc_history ü".replace("aigc_history", "aigc_history_test")
    );
}

#[test]
fn settings_from_configured_values() {
    let settings = Settings::from_values(EnvValues::default()).unwrap();
    assert_eq!(settings.server.host, "0.0.0.0");
    assert_eq!(settings.server.port, 8080);
    assert_eq!(settings.scylla.nodes, vec!["localhost:9042".to_string()]);
    assert_eq!(settings.scylla.keyspace, "aigc_history");
    assert_eq!(settings.scylla.username, None);
    assert_eq!(settings.s3.endpoint, "http://localhost:9000");
    assert_eq!(settings.s3.access_key, "minioadmin");
    assert_eq!(settings.s3.secret_key, "minioadmin");
    assert_eq!(settings.s3.bucket, "aigc-images");
    assert_eq!(settings.s3.region, "us-east-1");
    assert_eq!(settings.app, AppConfig { max_lineage_depth: 1000, max_batch_size: 100 });

    let settings = Settings::from_values(EnvValues {
        server_host: Some("127.0.0.1".to_string()),
        server_port: Some("9000".to_string()),
        scylla_nodes: Some(" a:1 ,b:2,, c:3 ".to_string()),
        scylla_keyspace: Some("k".to_string()),
        scylla_username: Some("u".to_string()),
        scylla_password: Some("p".to_string()),
        max_lineage_depth: Some("5".to_string()),
        max_batch_size: Some("x".to_string()),
        ..EnvValues::default()
    })
    .unwrap();
    assert_eq!(settings.server.host, "127.0.0.1");
    assert_eq!(settings.server.port, 9000);
    assert_eq!(
        settings.scylla.nodes,
        vec!["a:1".to_string(), "b:2".to_string(), String::new(), "c:3".to_string()]
    );
    assert_eq!(settings.scylla.keyspace, "k");
    assert_eq!(settings.scylla.username, Some("u".to_string()));
    assert_eq!(settings.scylla.password, Some("p".to_string()));
    assert_eq!(settings.app, AppConfig { max_lineage_depth: 5, max_batch_size: 100 });

    let bad = Settings::from_values(EnvValues {
        server_port: Some("eighty".to_string()),
        ..EnvValues::default()
    });
    let reason = "eighty".parse::<u16>().unwrap_err().to_string();
    assert_eq!(bad.unwrap_err(), format!("Invalid SERVER_PORT: {}", reason));
}
