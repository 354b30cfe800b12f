use saddle_stitcher::api::health::health_outcome;
use saddle_stitcher::cli::{parse_command, unknown_option_message, version_line, CliCommand, USAGE};
use saddle_stitcher::error::AppError;
use saddle_stitcher::static_files::{asset_headers, asset_path, cache_control_for};

#[test]
fn error_status_and_codes() {
    assert_eq!(AppError::NotFound.status_and_code(), (404, "not_found"));
    assert_eq!(
        AppError::Database { detail: "closed".to_string() }.status_and_code(),
        (503, "database_unavailable")
    );
    assert_eq!(
        AppError::InvalidJson { status: 415, message: "m".to_string() }.status_and_code(),
        (415, "invalid_request_body")
    );
    assert_eq!(
        AppError::InvalidPath { status: 400, message: "m".to_string() }.status_and_code(),
        (400, "invalid_path")
    );
    assert_eq!(
        AppError::InvalidMultipart { status: 413, message: "m".to_string() }.status_and_code(),
        (413, "invalid_multipart")
    );
    assert_eq!(
        AppError::BadRequest { message: "m".to_string() }.status_and_code(),
        (400, "bad_request")
    );
    assert_eq!(
        AppError::PdfProcessing { message: "m".to_string() }.status_and_code(),
        (422, "pdf_processing_failed")
    );
}

#[test]
fn error_response_hides_database_detail() {
    let err = AppError::Database { detail: "pool closed".to_string() };
    let (status, body) = err.error_response();
    assert_eq!(status, 503);
    assert_eq!(body.error.code, "database_unavailable");
    assert_eq!(body.error.message, "database error");
    assert!(err.is_server_error());
}

#[test]
fn error_response_carries_message() {
    let err = AppError::BadRequest { message: "fileフィールドが必要です".to_string() };
    let (status, body) = err.error_response();
    assert_eq!(status, 400);
    assert_eq!(body.error.code, "bad_request");
    assert_eq!(body.error.message, "fileフィールドが必要です");
    assert!(!err.is_server_error());
    assert_eq!(AppError::NotFound.message(), "not found");
}

#[test]
fn task_failure_is_unprocessable() {
    assert_eq!(
        AppError::task_failed("panicked"),
        AppError::PdfProcessing { message: "処理タスクの実行に失敗しました: panicked".to_string() }
    );
}

#[test]
fn health_outcomes() {
    let ok = health_outcome(Ok(()), "1.2.3").unwrap();
    assert_eq!(ok.status, "ok");
    assert_eq!(ok.version, "1.2.3");
    assert_eq!(
        health_outcome(Err("closed".to_string()), "1.2.3"),
        Err(AppError::Database { detail: "closed".to_string() })
    );
}

#[test]
fn cli_commands() {
    assert_eq!(parse_command(None), CliCommand::Serve);
    assert_eq!(parse_command(Some("-v")), CliCommand::Version);
    assert_eq!(parse_command(Some("--version")), CliCommand::Version);
    assert_eq!(parse_command(Some("--openapi")), CliCommand::OpenApi);
    assert_eq!(parse_command(Some("-h")), CliCommand::Help);
    assert_eq!(parse_command(Some("--help")), CliCommand::Help);
    assert_eq!(
        parse_command(Some("--bogus")),
        CliCommand::Unknown("--bogus".to_string())
    );
    assert_eq!(version_line("0.1.0"), "v0.1.0");
    assert_eq!(unknown_option_message("-x"), "unknown option: -x");
    assert!(USAGE.contains("--openapi"));
}

#[test]
fn asset_paths() {
    assert_eq!(asset_path("/"), "index.html");
    assert_eq!(asset_path(""), "index.html");
    assert_eq!(asset_path("///"), "index.html");
    assert_eq!(asset_path("/nope"), "nope");
    assert_eq!(asset_path("//_app/x.js"), "_app/x.js");
}

#[test]
fn cache_policy() {
    assert_eq!(
        cache_control_for("_app/immutable/chunk.abc.js"),
        "public, max-age=31536000, immutable"
    );
    assert_eq!(cache_control_for("index.html"), "no-cache");
    assert_eq!(cache_control_for("_app/version.json"), "no-cache");
    assert_eq!(cache_control_for("_app/immutable"), "no-cache");
}

#[test]
fn asset_headers_guess_content_type() {
    let html = asset_headers("index.html");
    assert_eq!(html.content_type, "text/html");
    assert_eq!(html.cache_control, "no-cache");
    let js = asset_headers("_app/immutable/entry.js");
    assert_eq!(js.content_type, "text/javascript");
    assert_eq!(js.cache_control, "public, max-age=31536000, immutable");
    let unknown = asset_headers("blob.unknownext");
    assert_eq!(unknown.content_type, "application/octet-stream");
}
