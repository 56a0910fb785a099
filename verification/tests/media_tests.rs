use slack_bridge::media::{
    check_slack_file_size, ensure_filename_extension, filename_from_content_disposition,
    filename_from_url, msgtype_for_content_type, normalize_content_type, plan_matrix_attachment,
    plan_slack_attachment, MatrixAttachmentStep, SlackAttachmentStep,
};

#[test]
fn picks_filename_from_content_disposition_filename_star() {
    let header = "attachment; filename*=UTF-8''outfox-board.png";
    let filename = filename_from_content_disposition(header).unwrap();
    assert_eq!(filename, "outfox-board.png");
}

#[test]
fn falls_back_to_plain_filename_parameter() {
    let header = "attachment; filename=\"cat photo.png\"";
    let filename = filename_from_content_disposition(header).unwrap();
    assert_eq!(filename, "cat photo.png");
}

#[test]
fn strips_query_from_url_filename() {
    let url = "https://cdn.slackapp.com/attachments/1/2/outfox...png?ex=abc&is=def";
    let filename = filename_from_url(url).unwrap();
    assert_eq!(filename, "outfox...png");
}

#[test]
fn infers_png_type_and_extension_when_header_is_octet_stream() {
    let body = vec![0x89, b'P', b'N', b'G', 0x0D, 0x0A, 0x1A, 0x0A, 0, 0, 0];
    let content_type =
        normalize_content_type(Some("application/octet-stream"), "attachment", &body);
    assert_eq!(content_type, "image/png");

    let filename = ensure_filename_extension("attachment", &content_type);
    assert_eq!(filename, "attachment.png");
}

#[test]
fn slack_file_size_gate() {
    assert!(check_slack_file_size(8 * 1024 * 1024).is_ok());
    assert!(check_slack_file_size(8 * 1024 * 1024 + 1).is_err());
}

#[test]
fn oversized_slack_attachment_falls_back_to_link() {
    let step = plan_slack_attachment(
        "https://example.org/big.bin",
        Some((9 * 1024 * 1024, "big.bin")),
    );
    assert_eq!(
        step,
        SlackAttachmentStep::SendLink("big.bin: https://example.org/big.bin".to_string())
    );
    let upload = plan_slack_attachment("https://example.org/ok.png", Some((100, "ok.png")));
    assert_eq!(
        upload,
        SlackAttachmentStep::UploadFile {
            filename: "ok.png".to_string(),
            fallback: "ok.png: https://example.org/ok.png".to_string(),
        }
    );
    let missing = plan_slack_attachment("https://example.org/gone", None);
    assert_eq!(
        missing,
        SlackAttachmentStep::SendLink("Attachment: https://example.org/gone".to_string())
    );
}

#[test]
fn matrix_attachment_plan_uses_content_type() {
    assert_eq!(msgtype_for_content_type("image/png"), "m.image");
    assert_eq!(msgtype_for_content_type("video/mp4"), "m.video");
    assert_eq!(msgtype_for_content_type("audio/ogg"), "m.audio");
    assert_eq!(msgtype_for_content_type("application/pdf"), "m.file");

    let step = plan_matrix_attachment(
        "https://example.org/a.png",
        Some((100, "a.png", "image/png")),
    );
    assert_eq!(
        step,
        MatrixAttachmentStep::UploadFile {
            msgtype: "m.image",
            filename: "a.png".to_string(),
        }
    );
    let oversized = plan_matrix_attachment(
        "https://example.org/huge.mkv",
        Some((51 * 1024 * 1024, "huge.mkv", "video/x-matroska")),
    );
    assert_eq!(
        oversized,
        MatrixAttachmentStep::SendLinkBody("huge.mkv: https://example.org/huge.mkv".to_string())
    );
}
