use ragent::file_edit::{
    apply_replacements, empty_replacements, read_failure, replace_written, shell_command_of, shell_tool_result,
    write_file_result, Replacement, WriteOutcome,
};
use ragent::image_view::{
    check_image_file, default_include_base64, detect_supported_format, format_file_size, max_file_size_bytes,
    view_decoded_image, view_image_bytes, SupportedImageFormat, ViewOutput, ViewPart, DEFAULT_MAX_FILE_SIZE_BYTES,
};
use ragent::json::JsonValue;

const PNG_1X1: [u8; 67] = [
    0x89, 0x50, 0x4E, 0x47, 0x0D, 0x0A, 0x1A, 0x0A, 0x00, 0x00, 0x00, 0x0D, 0x49, 0x48, 0x44, 0x52, 0x00, 0x00,
    0x00, 0x01, 0x00, 0x00, 0x00, 0x01, 0x08, 0x06, 0x00, 0x00, 0x00, 0x1F, 0x15, 0xC4, 0x89, 0x00, 0x00, 0x00,
    0x0A, 0x49, 0x44, 0x41, 0x54, 0x78, 0x9C, 0x63, 0x00, 0x01, 0x00, 0x00, 0x05, 0x00, 0x01, 0x0D, 0x0A, 0x2D,
    0xB4, 0x00, 0x00, 0x00, 0x00, 0x49, 0x45, 0x4E, 0x44, 0xAE, 0x42, 0x60, 0x82,
];

fn rep(old: &str, new: &str) -> Replacement {
    Replacement { old_str: old.into(), new_str: new.into() }
}

#[test]
fn file_editor_component_write_and_replace_test() {
    let w = write_file_result("out/a.txt", 5, WriteOutcome::Written);
    assert!(w.success);
    assert_eq!(w.output, "successfully wrote 5 bytes to 'out/a.txt'");
    let w = write_file_result("a.txt", 5, WriteOutcome::WriteFailed("denied".into()));
    assert!(!w.success && w.output.contains("failed to write file"));
    let w = write_file_result("a/b.txt", 1, WriteOutcome::CreateDirFailed("ro".into()));
    assert_eq!(w.output, "failed to create parent directories for 'a/b.txt': ro");

    let out = apply_replacements("f.rs", "fn a() {}\nfn b() {}\n", &vec![rep("fn a", "fn alpha"), rep("b()", "beta()")]).unwrap();
    assert_eq!(out, "fn alpha() {}\nfn beta() {}\n");

    let err = apply_replacements("f.rs", "x x", &vec![rep("x", "y")]).unwrap_err();
    assert!(!err.success);
    assert!(err.output.contains("not unique"));
    assert_eq!(err.error.as_deref(), Some("old_str matched 2 times (not unique)"));
    assert_eq!(
        err.output,
        "replacement #1 failed: 'old_str' is not unique in 'f.rs' (matched 2 times). Please include more surrounding context to disambiguate.\nold_str content:\nx"
    );

    let err = apply_replacements("f.rs", "abc", &vec![rep("b", "B"), rep("zz", "y")]).unwrap_err();
    assert!(err.output.contains("not found"));
    assert!(err.output.starts_with("replacement #2 failed"));
    let err = apply_replacements("f.rs", "abc", &vec![rep("", "y")]).unwrap_err();
    assert_eq!(err.output, "replacement #1 has an empty 'old_str'");
    assert_eq!(apply_replacements("f.rs", "aaa", &vec![rep("aa", "b")]).unwrap(), "ba");

    let e = empty_replacements();
    assert_eq!(e.output, "replacements list must not be empty");
    let e = read_failure("missing.txt", "No such file");
    assert!(e.output.contains("failed to read file"));
    let ok = replace_written("f.rs", 2, Ok(()));
    assert_eq!(ok.output, "successfully applied 2 replacement(s) to 'f.rs'");
    let bad = replace_written("f.rs", 2, Err("disk full".into()));
    assert!(bad.output.contains("failed to write modified content"));
}

#[test]
fn shell_component_reports_command_failure() {
    let ok = shell_tool_result(0, "hello\n", "", None);
    assert!(ok.success);
    assert!(ok.output.contains("hello"));
    assert_eq!(ok.output, "exit_code: 0\nstdout:\nhello\n\nstderr:\n");
    assert!(ok.error.is_none());
    let failed = shell_tool_result(7, "", "boom", None);
    assert!(!failed.success);
    assert!(failed.output.contains("exit_code: 7"));
    assert_eq!(failed.error.as_deref(), Some("command exited with status 7"));
    let timed = shell_tool_result(-1, "", "", Some("command timed out after 1000 ms".into()));
    assert!(!timed.success);
    assert_eq!(timed.output, "failed to execute command: command timed out after 1000 ms");
    let args = JsonValue::Object(vec![("command".into(), JsonValue::String("echo hi".into()))]);
    assert_eq!(shell_command_of("shell", &args).unwrap(), "echo hi");
    assert_eq!(shell_command_of("other", &args).unwrap_err(), "unknown tool: other");
    assert_eq!(shell_command_of("shell", &JsonValue::Null).unwrap_err(), "missing string argument 'command'");
}

#[test]
fn image_viewer_component_view_test() {
    assert!(default_include_base64());
    assert_eq!(max_file_size_bytes(None), DEFAULT_MAX_FILE_SIZE_BYTES);
    assert_eq!(max_file_size_bytes(Some(10)), 10);
    assert_eq!(detect_supported_format(&PNG_1X1).unwrap(), SupportedImageFormat::Png);
    assert_eq!(SupportedImageFormat::Png.mime_type(), "image/png");
    assert_eq!(detect_supported_format(&[0xFF, 0xD8, 0xFF, 0x00]).unwrap(), SupportedImageFormat::Jpeg);
    assert_eq!(detect_supported_format(b"RIFF\0\0\0\0WEBPVP8 ").unwrap(), SupportedImageFormat::Webp);
    assert!(detect_supported_format(b"GIF89a...").unwrap_err().contains("GIF format is not supported"));
    assert!(detect_supported_format(b"BM....").unwrap_err().starts_with("BMP"));
    assert!(detect_supported_format(b"<?xml?><SVG width='1'/>").unwrap_err().contains("SVG format is not supported"));
    assert!(detect_supported_format(b"hello").unwrap_err().starts_with("unrecognized"));

    assert_eq!(format_file_size(0), "0 B");
    assert_eq!(format_file_size(1023), "1023 B");
    assert_eq!(format_file_size(1536), "1.50 KB (1536 bytes)");
    assert_eq!(format_file_size(1048576), "1.00 MB (1048576 bytes)");
    for n in [1024usize, 1030, 5000, 123456, 1048575, 2_000_000, 20_971_520, 123_456_789] {
        let expected = if n < 1024 * 1024 {
            format!("{:.2} KB ({n} bytes)", n as f64 / 1024.0)
        } else {
            format!("{:.2} MB ({n} bytes)", n as f64 / (1024.0 * 1024.0))
        };
        assert_eq!(format_file_size(n), expected);
    }

    assert!(check_image_file("a.png", Ok((false, 10)), 100).is_none());
    let dir = check_image_file("imgs", Ok((true, 0)), 100).unwrap();
    assert!(matches!(&dir.output, ViewOutput::Text(t) if t.contains("is a directory")));
    let big = check_image_file("a.png", Ok((false, 101)), 100).unwrap();
    assert!(matches!(&big.output, ViewOutput::Text(t) if t == "image file 'a.png' is too large (101 bytes, exceeds limit of 100 bytes)"));

    let r = view_image_bytes("pixel.png", Ok(PNG_1X1.to_vec()), false);
    assert!(r.success);
    match &r.output {
        ViewOutput::Text(t) => {
            assert!(t.contains("Format: image/png"));
            assert!(t.contains("Dimensions: 1 x 1"));
            assert!(t.contains("File Size: 67 B"));
        },
        _ => panic!("expected text"),
    }
    let r = view_image_bytes("pixel.png", Ok(PNG_1X1.to_vec()), true);
    match &r.output {
        ViewOutput::Parts(parts) => {
            assert_eq!(parts.len(), 2);
            assert!(matches!(&parts[0], ViewPart::InputText { text } if text.contains("Dimensions: 1 x 1")));
            assert!(matches!(&parts[1], ViewPart::InputImage { image_url: Some(u) } if u.starts_with("data:image/png;base64,iVBORw0KGgo")));
        },
        _ => panic!("expected parts"),
    }
    let r = view_image_bytes("bad.png", Err("denied".into()), true);
    assert!(matches!(&r.output, ViewOutput::Text(t) if t.contains("failed to read image file")));
    let r = view_image_bytes("x.gif", Ok(b"GIF87a......".to_vec()), true);
    assert!(matches!(&r.output, ViewOutput::Text(t) if t.contains("GIF format is not supported")));
}

#[test]
fn file_sizes_beyond_f64_precision_match_float_formatting() {
    for n in [usize::MAX, (1usize << 53) + 1, (1usize << 60) + 12345, (1usize << 54) + 3] {
        let expected = format!("{:.2} MB ({n} bytes)", n as f64 / (1024.0 * 1024.0));
        assert_eq!(format_file_size(n), expected);
    }
}

#[test]
fn decoded_image_reports_dimension_failures_and_summaries() {
    let bytes = PNG_1X1.to_vec();
    let r = view_decoded_image("p.png", &bytes, SupportedImageFormat::Png, Err("bad header".into()), false);
    assert!(!r.success);
    assert_eq!(r.error.as_deref(), Some("image decode error: bad header"));
    let ok = view_decoded_image("p.png", &bytes, SupportedImageFormat::Png, Ok((3, 4)), false);
    assert!(ok.success);
    match ok.output {
        ViewOutput::Text(t) => assert!(t.contains("- Dimensions: 3 x 4")),
        _ => panic!("expected text"),
    }
}
