use reina_manager::migration::{
    append_backup_component, clear_updates, migrate_savedata_backup_roots, RootRow, Separators,
    SELECT_ROOTS, UPDATE_ROOT,
};
use reina_manager::proxy::{
    client_message, client_settings, has_effective_proxy, transfer_settings, user_agent,
    ClientFailure, ProxyConfig, ProxyState, LOCAL_PROXY_BYPASS,
};
use sea_orm::{ConnectionTrait, Database, DatabaseBackend, Statement};
use std::path::PathBuf;

#[test]
fn appends_exactly_one_component_without_expanding_variables() {
    let configured = "$HOME/Reina";

    assert_eq!(
        append_backup_component(configured, Separators::Slash),
        PathBuf::from(configured).join("backups").to_string_lossy()
    );
    assert_eq!(
        append_backup_component(
            &append_backup_component(configured, Separators::Slash),
            Separators::Slash
        ),
        PathBuf::from(configured)
            .join("backups")
            .join("backups")
            .to_string_lossy()
    );
}

#[test]
fn components_are_appended_like_paths() {
    for path in ["", "/", "a", "a/", "/a/b", "C:", "a\\"] {
        assert_eq!(
            append_backup_component(path, Separators::Slash),
            PathBuf::from(path).join("backups").to_string_lossy()
        );
    }
    let windows = |path: &str| append_backup_component(path, Separators::Backslash);
    assert_eq!(windows("%USERPROFILE%\\Reina"), "%USERPROFILE%\\Reina\\backups");
    assert_eq!(windows("D:\\"), "D:\\backups");
    assert_eq!(windows("D:/x/"), "D:/x/backups");
    assert_eq!(windows("D:"), "D:backups");
    assert_eq!(windows("ab"), "ab\\backups");
}

#[test]
fn migrates_only_non_empty_custom_roots() {
    let runtime = tokio::runtime::Builder::new_current_thread()
        .enable_all()
        .build()
        .unwrap();
    runtime.block_on(async {
        let database = Database::connect("sqlite::memory:").await.unwrap();
        database
            .execute_unprepared(
                "CREATE TABLE user (id INTEGER PRIMARY KEY, save_root_path TEXT); \
                 INSERT INTO user(id, save_root_path) VALUES \
                    (1, 'configured'), \
                    (2, NULL), \
                    (3, '');",
            )
            .await
            .unwrap();

        let mut found = Vec::new();
        for row in database.query_all_raw(select(SELECT_ROOTS)).await.unwrap() {
            found.push(RootRow {
                id: row.try_get::<i32>("", "id").unwrap(),
                save_root_path: row.try_get::<String>("", "save_root_path").unwrap(),
            });
        }
        for update in migrate_savedata_backup_roots(&found, Separators::Slash) {
            database
                .execute_raw(Statement::from_sql_and_values(
                    DatabaseBackend::Sqlite,
                    UPDATE_ROOT,
                    [update.save_root_path.into(), update.id.into()],
                ))
                .await
                .unwrap();
        }

        let rows = database
            .query_all_raw(select("SELECT id, save_root_path FROM user ORDER BY id"))
            .await
            .unwrap();
        let stored = |at: usize| {
            rows[at]
                .try_get::<Option<String>>("", "save_root_path")
                .unwrap()
        };
        assert_eq!(
            stored(0),
            Some(append_backup_component("configured", Separators::Slash))
        );
        assert_eq!(stored(1), None);
        assert_eq!(stored(2), Some(String::new()));
    });
}

fn select(sql: &str) -> Statement {
    Statement::from_string(DatabaseBackend::Sqlite, sql.to_string())
}

#[test]
fn verbatim_paths_are_written_anew() {
    let windows = |path: &str| append_backup_component(path, Separators::Backslash);
    assert_eq!(windows("\\\\?\\C:\\a"), "\\\\?\\C:\\a\\backups");
    assert_eq!(windows("\\\\?\\C:\\a/"), "\\\\?\\C:\\a/\\backups");
    assert_eq!(windows("\\\\?\\C:\\a\\\\b\\"), "\\\\?\\C:\\a\\b\\backups");
    assert_eq!(windows("\\\\?\\C:"), "\\\\?\\C:\\backups");
    assert_eq!(
        windows("\\\\?\\UNC\\server\\share\\"),
        "\\\\?\\UNC\\server\\share\\backups"
    );
    assert_eq!(
        append_backup_component("\\\\?\\a", Separators::Slash),
        "\\\\?\\a/backups"
    );
}

#[test]
fn cleared_games_become_played() {
    let statements: Vec<String> = clear_updates()
        .iter()
        .map(|update| update.statement())
        .collect();
    assert_eq!(
        statements,
        vec![
            "UPDATE games SET clear = 3 WHERE clear = 1",
            "UPDATE games SET clear = 1 WHERE clear = 0",
        ]
    );
    let migrated = |mut value: i32| {
        for update in clear_updates() {
            if value == update.from {
                value = update.to;
            }
        }
        value
    };
    assert_eq!((migrated(0), migrated(1), migrated(4)), (1, 3, 4));
}

#[test]
fn clients_are_configured() {
    let client = client_settings("", true, true);
    assert_eq!((client.connect_timeout_secs, client.timeout_secs), (10, Some(60)));
    assert!(client.proxy.is_none() && client.follow_redirects && !client.http1_only);
    let strict = client_settings("http://p", false, false);
    assert!(strict.timeout_secs.is_none() && !strict.follow_redirects);
    assert_eq!(strict.proxy.as_deref(), Some("http://p"));
    let transfer = transfer_settings("");
    assert!(transfer.http1_only && transfer.timeout_secs.is_none());
    assert_eq!(transfer.read_timeout_secs, Some(60));
    assert_eq!(
        user_agent("0.30.0"),
        "huoshen80/ReinaManager/0.30.0 (https://github.com/huoshen80/ReinaManager)"
    );
    assert!(LOCAL_PROXY_BYPASS.contains("192.168.0.0/16"));
    assert_eq!(
        client_message(&ClientFailure::Proxy("x".to_string())),
        "代理地址无效: x"
    );
    assert_eq!(
        client_message(&ClientFailure::Client("x".to_string())),
        "创建 HTTP 客户端失败: x"
    );
    assert_eq!(
        client_message(&ClientFailure::TransferClient("x".to_string())),
        "创建下载客户端失败: x"
    );
}

#[test]
fn an_explicit_proxy_wins() {
    let mut state = ProxyState::new();
    assert!(state.follows_system());
    assert!(!state.has_effective_proxy(false));
    assert!(state.has_effective_proxy(true));
    let config = ProxyConfig {
        url: "  http://p:1 ".to_string(),
    };
    assert_eq!(ProxyState::requested(&config), "http://p:1");
    state.update_proxy_config(&config);
    assert_eq!(state.proxy_url, "http://p:1");
    assert!(!state.follows_system());
    assert!(state.has_effective_proxy(false));
    assert!(!has_effective_proxy("", false));
}
