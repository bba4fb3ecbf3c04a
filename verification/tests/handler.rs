use imago::cli::{choose_api_key, Cli};
use imago::error::ImagoError;
use imago::image_handler::{compose_filename, is_filename_char, ImageHandler, TerminalSupport};
use imago::text::{join_strings, str_contains, str_ends_with, str_eq, str_starts_with, u16_to_string};

fn cli(width: u32) -> Cli {
    Cli {
        prompt: "a sunset".to_string(),
        output: None,
        width,
        height: None,
        no_preview: false,
        model: "gemini-2.5-flash-image".to_string(),
        api_key: None,
        verbose: false,
        no_color: false,
    }
}

fn handler() -> ImageHandler {
    ImageHandler::new(60, None, true)
}

#[test]
fn validate_rejects_zero_width() {
    assert_eq!(
        cli(0).validate(),
        Err(ImagoError::ResponseFormatError {
            message: "Width must be greater than 0".to_string(),
        })
    );
    assert_eq!(cli(60).validate(), Ok(()));
}

#[test]
fn api_key_choice_prefers_explicit_key() {
    assert_eq!(
        choose_api_key(Some("cli".to_string()), Some("env".to_string())),
        Ok("cli".to_string())
    );
    assert_eq!(
        choose_api_key(None, Some("env".to_string())),
        Ok("env".to_string())
    );
    assert_eq!(choose_api_key(None, None), Err(ImagoError::MissingApiKey));
}

#[test]
fn resolve_path_defaults_to_filename() {
    let h = handler();
    let f = "20260101_abcd1234.png".to_string();
    assert_eq!(h.resolve_output_path(None, false, &f), f);
}

#[test]
fn resolve_path_joins_directories() {
    let h = handler();
    let f = "img.png".to_string();
    assert_eq!(
        h.resolve_output_path(Some(&"out".to_string()), true, &f),
        "out/img.png"
    );
    assert_eq!(
        h.resolve_output_path(Some(&"out/".to_string()), false, &f),
        "out/img.png"
    );
}

#[test]
fn resolve_path_keeps_image_extensions() {
    let h = handler();
    let f = "img.png".to_string();
    assert_eq!(
        h.resolve_output_path(Some(&"pic.jpeg".to_string()), false, &f),
        "pic.jpeg"
    );
    assert_eq!(
        h.resolve_output_path(Some(&"pic.webp".to_string()), false, &f),
        "pic.webp"
    );
}

#[test]
fn resolve_path_renames_other_extensions() {
    let h = handler();
    let f = "img.png".to_string();
    assert_eq!(
        h.resolve_output_path(Some(&"pic.txt".to_string()), false, &f),
        "pic.png"
    );
    assert_eq!(
        h.resolve_output_path(Some(&"dir/pic.tar.gz".to_string()), false, &f),
        "dir/pic.tar.png"
    );
}

#[test]
fn resolve_path_appends_extension_when_missing() {
    let h = handler();
    let f = "img.png".to_string();
    assert_eq!(
        h.resolve_output_path(Some(&"pic".to_string()), false, &f),
        "pic.png"
    );
    assert_eq!(
        h.resolve_output_path(Some(&".hidden".to_string()), false, &f),
        ".hidden.png"
    );
    assert_eq!(
        h.resolve_output_path(Some(&"..".to_string()), false, &f),
        ".."
    );
}

#[test]
fn filename_composition_is_exact() {
    assert_eq!(
        compose_filename("202601011200", "abcd1234"),
        "202601011200_abcd1234.png"
    );
    assert!(is_filename_char('a'));
    assert!(is_filename_char('0'));
    assert!(!is_filename_char('A'));
    assert!(!is_filename_char('-'));
}

#[test]
fn terminal_support_priority_order() {
    let term_kitty = "xterm-kitty".to_string();
    let tp_iterm = "iTerm.app".to_string();
    let tp_wez = "WezTerm".to_string();
    assert_eq!(
        ImageHandler::detect_terminal_support(true, true, None, None),
        TerminalSupport::Kitty
    );
    assert_eq!(
        ImageHandler::detect_terminal_support(false, true, None, None),
        TerminalSupport::ITerm2
    );
    assert_eq!(
        ImageHandler::detect_terminal_support(false, false, Some(&term_kitty), None),
        TerminalSupport::Kitty
    );
    assert_eq!(
        ImageHandler::detect_terminal_support(false, false, None, Some(&tp_iterm)),
        TerminalSupport::ITerm2
    );
    assert_eq!(
        ImageHandler::detect_terminal_support(false, false, None, Some(&tp_wez)),
        TerminalSupport::Kitty
    );
    assert_eq!(
        ImageHandler::detect_terminal_support(false, false, None, None),
        TerminalSupport::HalfBlocks
    );
}

#[test]
fn error_messages_are_exact() {
    assert_eq!(
        ImagoError::ApiError {
            status: 503,
            message: "oops".to_string(),
        }
        .message(),
        "API error (status 503): oops"
    );
    assert_eq!(
        ImagoError::MissingApiKey.message(),
        "API key not found. Please set GEMINI_API_KEY environment variable"
    );
    assert_eq!(
        ImagoError::SafetyFilter("why".to_string()).message(),
        "Safety filter blocked image generation. Reason: why"
    );
    assert_eq!(
        ImagoError::NoImageData.message(),
        "No image data found in response"
    );
    assert_eq!(
        ImagoError::ResponseFormatError {
            message: "bad".to_string(),
        }
        .message(),
        "Invalid response format: bad"
    );
    assert_eq!(ImagoError::Timeout.message(), "Request timeout");
}

#[test]
fn retryable_errors_are_network_and_5xx() {
    assert!(ImagoError::NetworkError("down".to_string()).is_retryable());
    assert!(ImagoError::ApiError {
        status: 500,
        message: String::new(),
    }
    .is_retryable());
    assert!(ImagoError::ApiError {
        status: 599,
        message: String::new(),
    }
    .is_retryable());
    assert!(!ImagoError::ApiError {
        status: 404,
        message: String::new(),
    }
    .is_retryable());
    assert!(!ImagoError::Timeout.is_retryable());
    assert!(!ImagoError::NoImageData.is_retryable());
}

#[test]
fn text_helpers_behave_as_specified() {
    assert!(str_eq("abc", "abc"));
    assert!(!str_eq("abc", "abd"));
    assert!(str_starts_with("image/png", "image/"));
    assert!(!str_starts_with("text/plain", "image/"));
    assert!(str_ends_with("pic.jpeg", ".jpeg"));
    assert!(!str_ends_with("pic.jpeg", ".jpg"));
    assert!(str_contains("xterm-kitty", "kitty"));
    assert!(!str_contains("xterm-256color", "kitty"));
    assert!(str_contains("anything", ""));
    assert_eq!(u16_to_string(0), "0");
    assert_eq!(u16_to_string(65535), "65535");
    let parts = vec!["a".to_string(), "b".to_string(), "c".to_string()];
    assert_eq!(join_strings(&parts, ", "), "a, b, c");
    assert_eq!(join_strings(&Vec::<String>::new(), ", "), "");
}
