use saddle_stitcher::api::pdf::{
    content_disposition, conversion_response, download_name, parse_direction, FormField,
    UploadForm,
};
use saddle_stitcher::error::AppError;
use saddle_stitcher::pdf::saddle_stitch::Direction;
use saddle_stitcher::pdf::SaddleStitchError;

#[test]
fn content_disposition_ascii_fallback_strips_quote_and_backslash() {
    let header = content_disposition("a\"b\\c.pdf");

    let part = header
        .split(';')
        .find(|part| part.trim_start().starts_with("filename=\""))
        .expect("should contain filename=\"...\"");
    let value = part
        .trim_start()
        .trim_start_matches("filename=\"")
        .trim_end_matches('"');
    assert!(!value.contains('"'), "{value}");
    assert!(!value.contains('\\'), "{value}");
}

#[test]
fn content_disposition_includes_rfc5987_encoded_filename() {
    let header = content_disposition("(製本版)テスト.pdf");
    assert!(header.contains("filename*=UTF-8''"));
}

#[test]
fn content_disposition_exact_values() {
    assert_eq!(
        content_disposition("report.pdf"),
        "attachment; filename=\"report.pdf\"; filename*=UTF-8''report.pdf"
    );
    assert_eq!(
        content_disposition("(製本版)テスト.pdf"),
        "attachment; filename=\"().pdf\"; filename*=UTF-8''%28%E8%A3%BD%E6%9C%AC%E7%89%88%29%E3%83%86%E3%82%B9%E3%83%88.pdf"
    );
    assert_eq!(
        content_disposition("a b;c=d%e.pdf"),
        "attachment; filename=\"a b;c=d%e.pdf\"; filename*=UTF-8''a%20b%3Bc%3Dd%25e.pdf"
    );
}

#[test]
fn content_disposition_falls_back_to_output_pdf() {
    assert_eq!(
        content_disposition("テスト"),
        "attachment; filename=\"output.pdf\"; filename*=UTF-8''%E3%83%86%E3%82%B9%E3%83%88"
    );
    assert_eq!(
        content_disposition(""),
        "attachment; filename=\"output.pdf\"; filename*=UTF-8''"
    );
}

#[test]
fn parse_direction_accepts_left_and_right() {
    assert_eq!(parse_direction("left"), Ok(Direction::Left));
    assert_eq!(parse_direction("right"), Ok(Direction::Right));
}

#[test]
fn parse_direction_rejects_other_values() {
    assert_eq!(
        parse_direction("up"),
        Err(AppError::BadRequest {
            message: "directionは left か right を指定してください (受け取った値: \"up\")"
                .to_string()
        })
    );
    assert!(parse_direction("Left").is_err());
}

#[test]
fn form_collects_file_and_direction() {
    let form = UploadForm::new()
        .accept(FormField::Direction { text: "left".to_string() })
        .unwrap()
        .accept(FormField::Other)
        .unwrap()
        .accept(FormField::File {
            file_name: Some("a.pdf".to_string()),
            bytes: vec![1, 2, 3],
        })
        .unwrap();
    let upload = form.finish().unwrap();
    assert_eq!(upload.file, vec![1, 2, 3]);
    assert_eq!(upload.file_name, Some("a.pdf".to_string()));
    assert_eq!(upload.direction, Direction::Left);
}

#[test]
fn form_later_field_replaces_earlier() {
    let upload = UploadForm::new()
        .accept(FormField::File { file_name: Some("a.pdf".to_string()), bytes: vec![1] })
        .unwrap()
        .accept(FormField::File { file_name: None, bytes: vec![2] })
        .unwrap()
        .accept(FormField::Direction { text: "left".to_string() })
        .unwrap()
        .accept(FormField::Direction { text: "right".to_string() })
        .unwrap()
        .finish()
        .unwrap();
    assert_eq!(upload.file, vec![2]);
    assert_eq!(upload.file_name, None);
    assert_eq!(upload.direction, Direction::Right);
}

#[test]
fn form_missing_file_is_bad_request() {
    let form = UploadForm::new()
        .accept(FormField::Direction { text: "left".to_string() })
        .unwrap();
    assert!(matches!(
        form.finish(),
        Err(AppError::BadRequest { message }) if message == "fileフィールドが必要です"
    ));
    assert!(matches!(
        UploadForm::new().finish(),
        Err(AppError::BadRequest { message }) if message == "fileフィールドが必要です"
    ));
}

#[test]
fn form_missing_direction_is_bad_request() {
    let form = UploadForm::new()
        .accept(FormField::File { file_name: None, bytes: vec![] })
        .unwrap();
    assert!(matches!(
        form.finish(),
        Err(AppError::BadRequest { message }) if message == "directionフィールドが必要です"
    ));
}

#[test]
fn form_invalid_direction_is_bad_request() {
    assert!(matches!(
        UploadForm::new().accept(FormField::Direction { text: "up".to_string() }),
        Err(AppError::BadRequest { .. })
    ));
}

#[test]
fn download_name_prefixes_the_upload_name() {
    assert_eq!(download_name(Some("元原稿.pdf".to_string())), "(製本版)元原稿.pdf");
    assert_eq!(download_name(None), "(製本版)output.pdf");
}

#[test]
fn conversion_response_for_success() {
    let download =
        conversion_response(Ok(vec![37, 80, 68, 70]), Some("a.pdf".to_string())).unwrap();
    assert_eq!(download.content_type, "application/pdf");
    assert_eq!(download.body, vec![37, 80, 68, 70]);
    assert_eq!(
        download.content_disposition,
        content_disposition("(製本版)a.pdf")
    );
    assert!(download
        .content_disposition
        .contains("filename*=UTF-8''%28%E8%A3%BD%E6%9C%AC%E7%89%88%29a.pdf"));
}

#[test]
fn conversion_response_for_failure() {
    let result = conversion_response(Err(SaddleStitchError::Load), None);
    assert!(matches!(
        result,
        Err(AppError::PdfProcessing { message }) if message == "PDFとして読み込めませんでした"
    ));
}
