use remotecmd::backend::Sendable;
use remotecmd::encoder::{
    encode_attachment, encode_result, encode_text, file_extension, infer_mime, MimeKind,
};
use remotecmd::runner::CommandInfo;

#[test]
fn mime_known_extensions() {
    assert_eq!(infer_mime("png"), MimeKind::ImagePng);
    assert_eq!(infer_mime("jpg"), MimeKind::ImageJpeg);
    assert_eq!(infer_mime("jpeg"), MimeKind::ImageJpeg);
    assert_eq!(infer_mime("json"), MimeKind::ApplicationJson);
    assert_eq!(infer_mime("csv"), MimeKind::TextCsv);
}

#[test]
fn mime_unknown_extensions_degrade_to_plain_text() {
    assert_eq!(infer_mime("txt"), MimeKind::TextPlain);
    assert_eq!(infer_mime(""), MimeKind::TextPlain);
    assert_eq!(infer_mime("PNG"), MimeKind::TextPlain);
    assert_eq!(infer_mime("tar.gz"), MimeKind::TextPlain);
}

#[test]
fn mime_names() {
    assert_eq!(MimeKind::ImagePng.as_name(), "image/png");
    assert_eq!(MimeKind::ImageJpeg.as_name(), "image/jpeg");
    assert_eq!(MimeKind::ApplicationJson.as_name(), "application/json");
    assert_eq!(MimeKind::TextCsv.as_name(), "text/csv");
    assert_eq!(MimeKind::TextPlain.as_name(), "text/plain");
}

#[test]
fn extension_after_last_dot() {
    assert_eq!(file_extension("report.tar.png"), "png");
    assert_eq!(file_extension("photo.jpeg"), "jpeg");
}

#[test]
fn extension_without_dot_is_whole_name() {
    assert_eq!(file_extension("noext"), "noext");
}

#[test]
fn extension_of_trailing_dot_is_empty() {
    assert_eq!(file_extension("file."), "");
}

#[test]
fn attachment_image_variant() {
    match encode_attachment(String::from("cat.jpeg"), vec![1u8, 2, 3]) {
        Sendable::Image(mime, name, data) => {
            assert_eq!(mime, MimeKind::ImageJpeg);
            assert_eq!(name, "cat.jpeg");
            assert_eq!(data, vec![1u8, 2, 3]);
        }
        _ => panic!("expected an image"),
    }
}

#[test]
fn attachment_file_variant() {
    match encode_attachment(String::from("data.csv"), vec![9u8]) {
        Sendable::File(mime, name, data) => {
            assert_eq!(mime, MimeKind::TextCsv);
            assert_eq!(name, "data.csv");
            assert_eq!(data, vec![9u8]);
        }
        _ => panic!("expected a file"),
    }
}

#[test]
fn attachment_unknown_extension_is_plain_file() {
    match encode_attachment(String::from("notes"), vec![]) {
        Sendable::File(mime, _, _) => assert_eq!(mime, MimeKind::TextPlain),
        _ => panic!("expected a file"),
    }
}

#[test]
fn result_carried_unchanged() {
    let info = CommandInfo::new(
        String::from("ls"),
        2,
        String::from("out"),
        String::from("err"),
    );
    match encode_result(info) {
        Sendable::CommandInfo(inner) => {
            assert_eq!(inner.command, "ls");
            assert_eq!(inner.time, 2);
            assert_eq!(inner.stdout, "out");
            assert_eq!(inner.stderr, "err");
        }
        _ => panic!("expected a command result"),
    }
}

#[test]
fn text_carried_unchanged() {
    match encode_text(String::from("Done!")) {
        Sendable::Raw(text) => assert_eq!(text, "Done!"),
        _ => panic!("expected raw text"),
    }
}
