use md_preview::cli::{
    check_snapshot, check_source_length, check_source_metadata, output_file_name, parse_title,
    temporary_file_name, unsafe_content_error, RenderAction, RenderRequest, RenderSession,
    ReadyInfo, SnapshotOutcome, TitleEvent, EXIT_INVALID_INPUT, EXIT_PAGE_RANGE,
    EXIT_RENDER_FAILURE, EXIT_RENDER_TIMEOUT, EXIT_SOURCE_FAILURE, EXIT_UNSAFE_CONTENT,
};
use md_preview::cli::{after_create, check_output_not_source, check_output_target, CreateOutcome, TemporaryStep, EXIT_OUTPUT_FAILURE};
use md_preview::enhance::PreviewTheme;
use md_preview::snapshot::SnapshotInputError;
use md_preview::MAX_MARKDOWN_BYTES;

fn request() -> RenderRequest {
    RenderRequest {
        input: "doc.md".to_string(),
        output: "tile.png".to_string(),
        page: 0,
        width: 640,
        height: 360,
        scale: "1".to_string(),
        theme: PreviewTheme::Light,
        timeout_ms: 20_000,
        software_rendering: false,
        pixel_width: 640,
        pixel_height: 360,
    }
}

fn ready(pages: u32) -> ReadyInfo {
    ReadyInfo {
        pages,
        total_height: 1880,
        viewport_width: 640,
        viewport_height: 360,
    }
}

#[test]
fn parses_readiness_titles() {
    assert_eq!(
        parse_title("md-preview-ready:4:1880:960:540"),
        TitleEvent::Ready {
            pages: 4,
            total_height: 1880,
            viewport_width: 960,
            viewport_height: 540,
        }
    );
    assert_eq!(
        parse_title("md-preview-page-out-of-range:4"),
        TitleEvent::PageOutOfRange(4)
    );
    assert_eq!(
        parse_title("md-preview-failed:document exceeds page limit"),
        TitleEvent::Failed("document exceeds page limit".to_string())
    );
}

#[test]
fn malformed_reports_are_failures() {
    assert_eq!(parse_title("Untitled"), TitleEvent::Ignore);
    assert_eq!(parse_title(""), TitleEvent::Ignore);
    assert_eq!(
        parse_title("md-preview-ready:4:1880:960"),
        TitleEvent::Failed("invalid readiness metadata".to_string())
    );
    assert_eq!(
        parse_title("md-preview-ready:4:1880:960:5x0"),
        TitleEvent::Failed("invalid readiness metadata".to_string())
    );
    assert_eq!(
        parse_title("md-preview-ready:4294967296:1:1:1"),
        TitleEvent::Failed("invalid readiness metadata".to_string())
    );
    assert_eq!(
        parse_title("md-preview-page-out-of-range:many"),
        TitleEvent::Failed("invalid page-range metadata".to_string())
    );
    assert_eq!(
        parse_title("md-preview-failed:"),
        TitleEvent::Failed(String::new())
    );
}

#[test]
fn readiness_title_reads_back_its_numbers() {
    let title = format!("md-preview-ready:{}:{}:{}:{}", 4096u32, u64::MAX, 8192u32, 0u32);
    assert_eq!(
        parse_title(&title),
        TitleEvent::Ready {
            pages: 4096,
            total_height: u64::MAX,
            viewport_width: 8192,
            viewport_height: 0,
        }
    );
    assert_eq!(
        parse_title(&format!("md-preview-page-out-of-range:{}", u32::MAX)),
        TitleEvent::PageOutOfRange(u32::MAX)
    );
}

#[test]
fn rejects_oversized_source_before_rendering() {
    let error = check_source_metadata(true, MAX_MARKDOWN_BYTES as u64 + 1, "large.md")
        .err()
        .expect("oversized source must fail");
    assert_eq!(error.code, EXIT_SOURCE_FAILURE);
    assert_eq!(error.message, "source exceeds the 8388608 byte limit");
}

#[test]
fn source_must_be_a_regular_file_within_the_limit() {
    let error = check_source_metadata(false, 10, "/tmp/docs").err().expect("not a file");
    assert_eq!(error.code, EXIT_SOURCE_FAILURE);
    assert_eq!(error.message, "source is not a regular file: /tmp/docs");
    assert!(check_source_metadata(true, MAX_MARKDOWN_BYTES as u64, "doc.md").is_ok());
    assert!(check_source_length(MAX_MARKDOWN_BYTES).is_ok());
    assert_eq!(
        check_source_length(MAX_MARKDOWN_BYTES + 1).err().expect("too long").code,
        EXIT_SOURCE_FAILURE
    );
}

#[test]
fn unsafe_markdown_is_reported_with_its_reason() {
    let error = unsafe_content_error(&SnapshotInputError::TooManyImages);
    assert_eq!(error.code, EXIT_UNSAFE_CONTENT);
    assert_eq!(
        error.message,
        "unsafe Markdown: document exceeds the embedded image count limit"
    );
    let error = unsafe_content_error(&SnapshotInputError::UnsafeImage {
        url: "a\"b.png".to_string(),
        reason: "image path is not a regular file".to_string(),
    });
    assert_eq!(
        error.message,
        "unsafe Markdown: unsafe image \"a\\\"b.png\": image path is not a regular file"
    );
}

#[test]
fn output_must_name_a_png_file() {
    assert_eq!(output_file_name("out/tile.png").expect("png"), "tile.png");
    assert_eq!(output_file_name("tile.png").expect("png"), "tile.png");
    let error = output_file_name("tile.jpg").err().expect("not png");
    assert_eq!(error.code, EXIT_INVALID_INPUT);
    assert_eq!(error.message, "--output must end in .png");
    assert!(output_file_name(".png").is_err());
    assert!(output_file_name("dir/").is_err());
    assert_eq!(
        temporary_file_name("tile.png", 4242, 7),
        ".tile.png.md-preview-render.4242.7.tmp"
    );
}

#[test]
fn first_outcome_wins() {
    let mut session = RenderSession::new();
    assert!(session.on_timeout());
    assert!(!session.on_load_failed("about:blank", "gone"));
    assert_eq!(
        session.on_title("md-preview-failed:late"),
        RenderAction::Wait
    );
    let error = session.outcome().err().expect("timed out");
    assert_eq!(error.code, EXIT_RENDER_TIMEOUT);
    assert_eq!(error.message, "timed out waiting for render completion");
}

#[test]
fn snapshot_starts_once_and_settles() {
    let mut session = RenderSession::new();
    assert_eq!(session.on_title("Loading"), RenderAction::Wait);
    let action = session.on_title("md-preview-ready:2:720:640:360");
    assert_eq!(
        action,
        RenderAction::TakeSnapshot(ReadyInfo {
            pages: 2,
            total_height: 720,
            viewport_width: 640,
            viewport_height: 360,
        })
    );
    assert_eq!(
        session.on_title("md-preview-ready:2:720:640:360"),
        RenderAction::Wait
    );
    let RenderAction::TakeSnapshot(info) = action else {
        panic!("expected a snapshot");
    };
    assert!(session.on_snapshot(SnapshotOutcome::Image));
    assert!(!session.on_timeout());
    assert_eq!(session.outcome().expect("snapshot"), info);
}

#[test]
fn page_reports_settle_with_their_status() {
    let mut session = RenderSession::new();
    assert_eq!(
        session.on_title("md-preview-page-out-of-range:3"),
        RenderAction::Quit
    );
    let error = session.outcome().err().expect("out of range");
    assert_eq!(error.code, EXIT_PAGE_RANGE);
    assert_eq!(error.message, "page is out of range; document has 3 page(s)");

    let mut session = RenderSession::new();
    assert_eq!(
        session.on_title("md-preview-failed:image decode failed"),
        RenderAction::Quit
    );
    let error = session.outcome().err().expect("failed");
    assert_eq!(error.code, EXIT_RENDER_FAILURE);
    assert_eq!(error.message, "page readiness failed: image decode failed");

    let mut session = RenderSession::new();
    assert!(session.on_load_failed("about:blank", "network down"));
    assert_eq!(
        session.outcome().err().expect("load failed").message,
        "page load failed for about:blank: network down"
    );

    let mut session = RenderSession::new();
    session.on_title("md-preview-ready:1:1880:640:360");
    assert!(session.on_snapshot(SnapshotOutcome::Failed("no surface".to_string())));
    assert_eq!(
        session.outcome().err().expect("snapshot failed").message,
        "snapshot failed: no surface"
    );

    let mut session = RenderSession::new();
    session.on_title("md-preview-ready:1:1880:640:360");
    assert!(session.on_snapshot(SnapshotOutcome::NotImage));
    assert_eq!(
        session.outcome().err().expect("not an image").message,
        "snapshot did not return an image surface"
    );

    let error = RenderSession::new().outcome().err().expect("no result");
    assert_eq!(error.code, EXIT_RENDER_FAILURE);
    assert_eq!(error.message, "renderer stopped without a result");
}

#[test]
fn finished_snapshot_must_match_the_request() {
    assert!(check_snapshot(&request(), ready(1), 640, 360).is_ok());
    let mut info = ready(1);
    info.viewport_width = 600;
    assert_eq!(
        check_snapshot(&request(), info, 640, 360).err().expect("viewport").message,
        "logical viewport mismatch: expected 640x360, got 600x360"
    );
    assert_eq!(
        check_snapshot(&request(), ready(1), -1, 360).err().expect("surface").message,
        "snapshot dimensions mismatch: expected 640x360, got -1x360"
    );
}

#[test]
fn temporary_output_attempts() {
    assert!(matches!(after_create(0, CreateOutcome::Created, "/out"), TemporaryStep::Use));
    assert!(matches!(
        after_create(0, CreateOutcome::AlreadyExists, "/out"),
        TemporaryStep::Retry(1)
    ));
    let TemporaryStep::Fail(error) = after_create(99, CreateOutcome::AlreadyExists, "/out") else {
        panic!("attempts are spent");
    };
    assert_eq!(error.code, EXIT_OUTPUT_FAILURE);
    assert_eq!(error.message, "cannot allocate temporary output in /out");
    let TemporaryStep::Fail(error) =
        after_create(3, CreateOutcome::Failed("read-only file system".to_string()), "/out")
    else {
        panic!("creation failed");
    };
    assert_eq!(
        error.message,
        "cannot create temporary output in /out: read-only file system"
    );
    assert!(check_output_target(false, "/out/tile.png").is_ok());
    let error = check_output_target(true, "/out/tile.png").err().expect("directory");
    assert_eq!(error.code, EXIT_OUTPUT_FAILURE);
    assert_eq!(error.message, "output path is a directory: /out/tile.png");
}

#[test]
fn a_sequence_of_events_is_decided_by_its_first_outcome() {
    let mut session = RenderSession::new();
    let mut snapshots = 0;
    let titles = [
        "Loading",
        "md-preview-ready:1:360:640:360",
        "md-preview-ready:1:360:640:360",
        "md-preview-failed:late",
        "md-preview-page-out-of-range:9",
    ];
    for title in titles {
        if let RenderAction::TakeSnapshot(_) = session.on_title(title) {
            snapshots += 1;
        }
    }
    assert_eq!(snapshots, 1);
    assert!(!session.on_snapshot(SnapshotOutcome::Image));
    assert!(!session.on_timeout());
    let error = session.outcome().err().expect("the failure came first");
    assert_eq!(error.message, "page readiness failed: late");
}

#[test]
fn successful_snapshot_carries_the_first_readiness_report() {
    let mut session = RenderSession::new();
    assert!(!session.on_snapshot(SnapshotOutcome::Image));
    session.on_title("md-preview-ready:3:2000:640:360");
    session.on_title("md-preview-ready:9:9999:1:1");
    assert!(session.on_snapshot(SnapshotOutcome::Image));
    assert_eq!(
        session.outcome().expect("snapshot"),
        ReadyInfo {
            pages: 3,
            total_height: 2000,
            viewport_width: 640,
            viewport_height: 360,
        }
    );
}

#[test]
fn output_must_not_replace_the_source() {
    let error = check_output_not_source("/docs/doc.md", "/docs/./doc.md")
        .err()
        .expect("same file");
    assert_eq!(error.code, EXIT_INVALID_INPUT);
    assert_eq!(error.message, "--output must not replace the source file");
    assert!(check_output_not_source("/docs/tile.png", "/docs/doc.md").is_ok());
}
