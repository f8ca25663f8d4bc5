use md_preview::cli::{
    finish_request, scan_args, AppError, ParsedArgs, RenderRequest, ScaleFacts, EXIT_INVALID_INPUT,
};
use md_preview::enhance::PreviewTheme;

enum Command {
    Help,
    Version,
    Render(RenderRequest),
}

fn scaled(logical: Option<u32>, scale: Option<f64>) -> Option<u32> {
    let scaled = (f64::from(logical?) * scale?).round();
    if scaled < 1.0 || scaled > 8192.0 {
        None
    } else {
        Some(scaled as u32)
    }
}

fn parse_args(args: Vec<String>) -> Result<Command, AppError> {
    let numbers: Vec<bool> = args.iter().map(|a| a.parse::<f64>().is_ok()).collect();
    match scan_args(&args, &numbers)? {
        ParsedArgs::Help => Ok(Command::Help),
        ParsedArgs::Version => Ok(Command::Version),
        ParsedArgs::Options(scan) => {
            let scale = scan.scale.as_deref().and_then(|s| s.parse::<f64>().ok());
            let in_range = scale.map(|v| v.is_finite() && (0.5..=4.0).contains(&v)).unwrap_or(false);
            let facts = ScaleFacts {
                in_range,
                pixel_width: if in_range { scaled(scan.width, scale) } else { None },
                pixel_height: if in_range { scaled(scan.height, scale) } else { None },
            };
            finish_request(scan, facts).map(Command::Render)
        }
    }
}

fn complete_args() -> Vec<String> {
    [
        "--input",
        "doc.md",
        "--output",
        "tile.png",
        "--page",
        "2",
        "--width",
        "960",
        "--height",
        "540",
        "--scale",
        "2",
        "--theme",
        "dark",
        "--timeout-ms",
        "20000",
    ]
    .into_iter()
    .map(str::to_string)
    .collect()
}

fn error_of(args: Vec<String>) -> AppError {
    match parse_args(args) {
        Ok(_) => panic!("expected an error"),
        Err(error) => error,
    }
}

fn with_value(option: &str, value: &str) -> Vec<String> {
    let mut args = complete_args();
    let at = args.iter().position(|a| a == option).expect("option present");
    args[at + 1] = value.to_string();
    args
}

#[test]
fn parses_complete_render_request() {
    let Command::Render(request) = parse_args(complete_args()).expect("valid request") else {
        panic!("expected render request");
    };
    assert_eq!(request.page, 2);
    assert_eq!(request.pixel_width, 1920);
    assert_eq!(request.pixel_height, 1080);
    assert_eq!(request.theme, PreviewTheme::Dark);
    assert!(!request.software_rendering);
}

#[test]
fn parses_software_rendering_flag() {
    let mut args = complete_args();
    args.push("--software-rendering".to_string());
    let Command::Render(request) = parse_args(args).expect("valid request") else {
        panic!("expected render request");
    };
    assert!(request.software_rendering);
}

#[test]
fn rejects_duplicate_and_out_of_bounds_options() {
    let mut duplicate = complete_args();
    duplicate.extend(["--page".to_string(), "3".to_string()]);
    assert!(parse_args(duplicate)
        .err()
        .expect("duplicate must fail")
        .message
        .contains("duplicate option"));

    let mut too_wide = complete_args();
    let width = too_wide
        .iter()
        .position(|value| value == "--width")
        .expect("width option");
    too_wide[width + 1] = "8192".to_string();
    assert!(parse_args(too_wide).is_err());
}

#[test]
fn request_keeps_every_option() {
    let Command::Render(request) = parse_args(complete_args()).expect("valid request") else {
        panic!("expected render request");
    };
    assert_eq!(request.input, "doc.md");
    assert_eq!(request.output, "tile.png");
    assert_eq!(request.width, 960);
    assert_eq!(request.height, 540);
    assert_eq!(request.scale, "2");
    assert_eq!(request.timeout_ms, 20000);
}

#[test]
fn help_and_version_stand_alone() {
    assert!(matches!(parse_args(vec!["--help".to_string()]), Ok(Command::Help)));
    assert!(matches!(parse_args(vec!["-h".to_string()]), Ok(Command::Help)));
    assert!(matches!(parse_args(vec!["--version".to_string()]), Ok(Command::Version)));
    let error = error_of(vec!["--help".to_string(), "--version".to_string()]);
    assert_eq!(error.message, "unknown option: --help");
}

#[test]
fn empty_command_line_is_refused() {
    let error = error_of(Vec::new());
    assert_eq!(error.code, EXIT_INVALID_INPUT);
    assert_eq!(error.message, "missing required options; try --help");
}

#[test]
fn positional_and_unknown_arguments_are_refused() {
    assert_eq!(
        error_of(vec!["doc.md".to_string()]).message,
        "unexpected positional argument: doc.md"
    );
    assert_eq!(
        error_of(vec!["--colour".to_string(), "red".to_string()]).message,
        "unknown option: --colour"
    );
    assert_eq!(
        error_of(vec!["--page".to_string()]).message,
        "missing value for --page"
    );
}

#[test]
fn values_must_read() {
    assert_eq!(
        error_of(with_value("--page", "two")).message,
        "invalid value for --page: two"
    );
    assert_eq!(
        error_of(with_value("--width", "-5")).message,
        "invalid value for --width: -5"
    );
    assert_eq!(
        error_of(with_value("--scale", "big")).message,
        "invalid value for --scale: big"
    );
    assert_eq!(
        error_of(with_value("--timeout-ms", "1e3")).message,
        "invalid value for --timeout-ms: 1e3"
    );
    assert_eq!(
        error_of(with_value("--theme", "sepia")).message,
        "--theme must be light or dark"
    );
    let Command::Render(request) = parse_args(with_value("--page", "+7")).expect("plus sign reads")
    else {
        panic!("expected render request");
    };
    assert_eq!(request.page, 7);
}

#[test]
fn duplicate_flag_is_refused() {
    let mut args = complete_args();
    args.push("--software-rendering".to_string());
    args.push("--software-rendering".to_string());
    assert_eq!(error_of(args).message, "duplicate option: --software-rendering");
}

#[test]
fn limits_are_checked_in_order() {
    assert_eq!(
        error_of(with_value("--width", "63")).message,
        "--width must be between 64 and 4096"
    );
    assert_eq!(
        error_of(with_value("--height", "4097")).message,
        "--height must be between 64 and 4096"
    );
    assert_eq!(
        error_of(with_value("--scale", "4.5")).message,
        "--scale must be between 0.5 and 4"
    );
    assert_eq!(
        error_of(with_value("--scale", "NaN")).message,
        "--scale must be between 0.5 and 4"
    );
    assert_eq!(
        error_of(with_value("--timeout-ms", "99")).message,
        "--timeout-ms must be between 100 and 120000"
    );
    let mut wide = with_value("--width", "4096");
    let at = wide.iter().position(|a| a == "--scale").expect("scale option");
    wide[at + 1] = "3".to_string();
    assert_eq!(error_of(wide).message, "scaled width must not exceed 8192 pixels");
    let mut large = with_value("--width", "4096");
    let at = large.iter().position(|a| a == "--height").expect("height option");
    large[at + 1] = "4096".to_string();
    assert_eq!(
        error_of(large).message,
        "scaled output exceeds the 33554432 pixel limit"
    );
}

#[test]
fn missing_options_are_named() {
    let mut args = complete_args();
    args.drain(0..2);
    assert_eq!(error_of(args).message, "missing required option: --input");
    let mut args = complete_args();
    args.drain(6..8);
    assert_eq!(error_of(args).message, "missing required option: --width");
    let mut args = complete_args();
    args.drain(12..14);
    assert_eq!(error_of(args).message, "missing required option: --theme");
}

#[test]
fn pixel_sizes_outside_the_limits_are_refused() {
    let error = scan_args(&complete_args(), &vec![false; 16]).err().expect("scale must read");
    assert_eq!(error.message, "invalid value for --scale: 2");
    let numbers: Vec<bool> = complete_args().iter().map(|a| a.parse::<f64>().is_ok()).collect();
    let scan = match scan_args(&complete_args(), &numbers) {
        Ok(ParsedArgs::Options(scan)) => scan,
        _ => panic!("expected options"),
    };
    let facts = ScaleFacts {
        in_range: true,
        pixel_width: Some(9000),
        pixel_height: Some(1080),
    };
    let error = finish_request(scan, facts).err().expect("too wide");
    assert_eq!(error.message, "scaled width must not exceed 8192 pixels");
}
