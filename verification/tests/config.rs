use std::path::Path;

use saddle_stitcher::config::{
    split_bundle_prefix, AppDirs, Config, ConfigError, IpAddress, LogConfig, LogOutput,
    ServerConfig, SocketAddress, DEFAULT_MAX_UPLOAD_BYTES,
};

#[test]
fn app_dirs_derive_paths_from_data_dir() {
    let dirs = AppDirs {
        config_dir: "/cfg".to_string(),
        data_dir: "/data".to_string(),
    };
    assert_eq!(Path::new(&dirs.config_path()), Path::new("/cfg/config.toml"));
    assert_eq!(Path::new(&dirs.db_path()), Path::new("/data/saddle-stitcher.db"));
    assert_eq!(Path::new(&dirs.log_dir()), Path::new("/data/logs"));
}

#[test]
fn lock_path_is_in_data_dir() {
    let dirs = AppDirs {
        config_dir: "/cfg".to_string(),
        data_dir: "/data".to_string(),
    };
    assert_eq!(Path::new(&dirs.lock_path()), Path::new("/data/saddle-stitcher.lock"));
}

#[test]
fn home_variable_puts_everything_in_one_directory() {
    let dirs = AppDirs::resolve(Some("/srv/stitcher".to_string())).unwrap();
    assert_eq!(dirs.config_dir, "/srv/stitcher");
    assert_eq!(dirs.data_dir, "/srv/stitcher");
}

#[test]
fn empty_home_variable_is_ignored() {
    match AppDirs::resolve(Some(String::new())) {
        Ok(dirs) => {
            assert!(!dirs.config_dir.is_empty());
            assert!(!dirs.data_dir.is_empty());
        }
        Err(err) => assert_eq!(err, ConfigError::NoHomeDir),
    }
}

#[test]
fn unset_home_variable_uses_the_project_directories() {
    let expected = directories::ProjectDirs::from("com", "amiiby", "saddle-stitcher");
    match (AppDirs::resolve(None), expected) {
        (Ok(dirs), Some(project)) => {
            assert_eq!(Path::new(&dirs.config_dir), project.config_dir());
            assert_eq!(Path::new(&dirs.data_dir), project.data_local_dir());
        }
        (Err(err), None) => assert_eq!(err, ConfigError::NoHomeDir),
        (resolved, project) => panic!(
            "resolve gave {:?} where the project directories are {:?}",
            resolved,
            project.map(|p| p.config_dir().to_path_buf())
        ),
    }
}

#[test]
fn joined_paths_begin_with_the_directory_and_end_with_the_name() {
    let dirs = AppDirs {
        config_dir: "/etc/stitcher/".to_string(),
        data_dir: "relative/data".to_string(),
    };
    let config = dirs.config_path();
    assert!(config.starts_with("/etc/stitcher/"));
    assert!(config.ends_with("config.toml"));
    let db = dirs.db_path();
    assert!(db.starts_with("relative/data"));
    assert!(db.ends_with("saddle-stitcher.db"));
    assert_eq!(Path::new(&db), Path::new("relative/data/saddle-stitcher.db"));
}

#[test]
fn tray_builds_log_to_files_by_default() {
    let log = LogConfig::tray_default();
    assert_eq!(log.filter, LogConfig::default().filter);
    assert_eq!(log.output, LogOutput::File);
}

#[test]
fn bundle_prefix_splits_at_first_dot() {
    assert_eq!(
        split_bundle_prefix("com.amiiby"),
        ("com".to_string(), "amiiby".to_string())
    );
    assert_eq!(
        split_bundle_prefix("uk.co.example"),
        ("uk".to_string(), "co.example".to_string())
    );
    assert_eq!(
        split_bundle_prefix("example"),
        (String::new(), "example".to_string())
    );
}

#[test]
fn defaults_listen_on_loopback_port_3000() {
    let server = ServerConfig::default();
    assert_eq!(server.bind, IpAddress::V4(0x7f00_0001));
    assert_eq!(server.port, 3000);
    assert_eq!(server.max_upload_bytes, 200 * 1024 * 1024);
    assert_eq!(DEFAULT_MAX_UPLOAD_BYTES, 200 * 1024 * 1024);
    assert_eq!(
        server.socket_addr(),
        SocketAddress { ip: IpAddress::V4(0x7f00_0001), port: 3000 }
    );
}

#[test]
fn default_log_config() {
    let log = LogConfig::default();
    assert_eq!(log.filter, "saddle_stitcher=debug,tower_http=debug");
    assert_eq!(log.output, LogOutput::Stdout);
    assert_eq!(LogOutput::default(), LogOutput::Stdout);
}

#[test]
fn default_config_combines_the_tables() {
    let config = Config::default();
    assert_eq!(config.server, ServerConfig::default());
    assert_eq!(config.log, LogConfig::default());
}

#[test]
fn config_error_messages() {
    assert_eq!(
        ConfigError::NoHomeDir.message(),
        "設定・データディレクトリを解決できませんでした (HOME が無い環境では SADDLE_STITCHER_HOME を設定してください)"
    );
    assert_eq!(
        ConfigError::Read { path: "/cfg/config.toml".to_string() }.message(),
        "設定ファイルの読み込みに失敗しました: /cfg/config.toml"
    );
    assert_eq!(
        ConfigError::Parse { path: "/cfg/config.toml".to_string() }.message(),
        "設定ファイルの解析に失敗しました: /cfg/config.toml"
    );
}
