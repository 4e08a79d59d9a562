use agiworkforce::lsp::{frame_message, get_lsp_command, parse_content_length};

#[test]
fn lsp_command_for_known_languages() {
    let (cmd, args) = get_lsp_command("rust").unwrap();
    assert_eq!(cmd, "rust-analyzer");
    assert!(args.is_empty());

    let (cmd, args) = get_lsp_command("javascript").unwrap();
    assert_eq!(cmd, "typescript-language-server");
    assert_eq!(args, vec!["--stdio".to_string()]);

    assert_eq!(get_lsp_command("python").unwrap().0, "pylsp");
    assert_eq!(get_lsp_command("go").unwrap().0, "gopls");
    assert_eq!(get_lsp_command("java").unwrap().0, "jdtls");
    assert_eq!(get_lsp_command("c").unwrap().0, "clangd");
    assert_eq!(get_lsp_command("cpp").unwrap().0, "clangd");
}

#[test]
fn lsp_command_unsupported_language() {
    assert_eq!(
        get_lsp_command("cobol").unwrap_err(),
        "Unsupported language: cobol"
    );
    // Matching is exact: no case folding.
    assert!(get_lsp_command("Rust").is_err());
}

#[test]
fn frame_counts_bytes_not_characters() {
    assert_eq!(frame_message("{}"), "Content-Length: 2\r\n\r\n{}");
    // "é" is two bytes in UTF-8.
    assert_eq!(frame_message("é"), "Content-Length: 2\r\n\r\né");
    assert_eq!(frame_message(""), "Content-Length: 0\r\n\r\n");
}

#[test]
fn content_length_header_is_read() {
    assert_eq!(parse_content_length("Content-Length: 42\r\n"), Ok(42));
    assert_eq!(parse_content_length("  Content-Length: 7  "), Ok(7));
    assert_eq!(parse_content_length("Content-Length: +7"), Ok(7));
}

#[test]
fn content_length_header_errors() {
    assert_eq!(
        parse_content_length("Content-Type: text\r\n").unwrap_err(),
        "Invalid header"
    );
    assert_eq!(parse_content_length("").unwrap_err(), "Invalid header");
    assert_eq!(
        parse_content_length("Content-Length: abc").unwrap_err(),
        "Invalid content length: invalid digit found in string"
    );
    assert_eq!(
        parse_content_length("Content-Length: 99999999999999999999999").unwrap_err(),
        "Invalid content length: number too large to fit in target type"
    );
}

#[test]
fn content_length_round_trip() {
    for body in ["", "{\"jsonrpc\":\"2.0\"}", "naïve ☃ text"] {
        let framed = frame_message(body);
        let header_end = framed.find('\n').unwrap() + 1;
        let header = &framed[..header_end];
        assert_eq!(parse_content_length(header), Ok(body.len()));
        assert_eq!(&framed[header_end..], format!("\r\n{}", body));
    }
}
