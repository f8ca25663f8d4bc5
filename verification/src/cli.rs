//! The decisions of the snapshot command-line tool: its exit statuses, reading
//! its arguments and the limits on a request, reading the readiness reports
//! that a rendered page writes into its title, which event of the renderer
//! settles the outcome, and the checks on the source, the output path and the
//! finished snapshot. Running the browser engine, the clock, the file system
//! and the floating-point scale arithmetic is the caller's part.
use vstd::prelude::*;
use vstd::string::StringExecFns;
use crate::enhance::PreviewTheme;
use crate::numbers::{
    decimal, decimal_chars, lemma_decimal_digits, lemma_decimal_roundtrip, parse_unsigned,
    parse_unsigned_text, signed_decimal, signed_decimal_chars,
};
use crate::paths::{
    components_of, eq_chars, extension_of, file_name, file_name_of, path_components,
    path_extension, split_char, split_on,
    string_views, views,
};
use crate::snapshot::{error_message, SnapshotInputError};
use crate::MAX_MARKDOWN_BYTES;
use crate::text::{
    chars_of, find_from, has_prefix, is_ascii_digit, lemma_find_from, lemma_find_from_skip,
    occurs_at, starts_with, string_from_chars,
};

verus! {

/// Exit status for invalid arguments.
pub const EXIT_INVALID_INPUT: i32 = 2;

/// Exit status when the Markdown source cannot be read.
pub const EXIT_SOURCE_FAILURE: i32 = 3;

/// Exit status for unsafe content or paths.
pub const EXIT_UNSAFE_CONTENT: i32 = 4;

/// Exit status when rendering fails.
pub const EXIT_RENDER_FAILURE: i32 = 5;

/// Exit status when rendering does not finish in time.
pub const EXIT_RENDER_TIMEOUT: i32 = 6;

/// Exit status when the output cannot be written.
pub const EXIT_OUTPUT_FAILURE: i32 = 7;

/// Exit status when the requested page does not exist.
pub const EXIT_PAGE_RANGE: i32 = 8;

/// A failure of the tool: its exit status and its message.
#[derive(Debug)]
pub struct AppError {
    pub code: i32,
    pub message: String,
}

/// The mathematical value of an `AppError`.
pub struct AppErrorView {
    pub code: i32,
    pub message: Seq<char>,
}

impl View for AppError {
    type V = AppErrorView;

    open spec fn view(&self) -> AppErrorView {
        AppErrorView { code: self.code, message: self.message@ }
    }
}

/// An error with the status for invalid arguments.
pub open spec fn invalid(message: Seq<char>) -> AppErrorView {
    AppErrorView { code: EXIT_INVALID_INPUT, message }
}

impl AppError {
    /// An error with the given status and message.
    pub fn new(code: i32, message: String) -> (r: AppError)
        ensures
            r.code == code,
            r.message@ == message@,
    {
        AppError { code, message }
    }

    /// An error for invalid arguments.
    pub fn invalid(message: String) -> (r: AppError)
        ensures
            r@ == invalid(message@),
    {
        AppError { code: EXIT_INVALID_INPUT, message }
    }
}

/// `s` and `lit` are the same text.
fn is_text(s: &str, lit: &str) -> (r: bool)
    ensures
        r == (s@ == lit@),
{
    let a = chars_of(s);
    let b = chars_of(lit);
    eq_chars(a.as_slice(), b.as_slice())
}

/// The text of `a` followed by `b`.
fn joined(a: &str, b: &str) -> (r: String)
    ensures
        r@ == a@ + b@,
{
    let mut s = a.to_owned();
    s.append(b);
    s
}

/// The decimal numeral of `n` as a string.
fn decimal_string(n: u64) -> (r: String)
    ensures
        r@ == decimal(n as nat),
{
    let digits = decimal_chars(n);
    string_from_chars(digits.as_slice())
}

/// The title prefix of a page that has too few pages for the request.
pub const PAGE_RANGE_PREFIX: &'static str = "md-preview-page-out-of-range:";

/// The title prefix of a page that failed to settle.
pub const FAILED_PREFIX: &'static str = "md-preview-failed:";

/// The title prefix of a page that is ready for its snapshot.
pub const READY_PREFIX: &'static str = "md-preview-ready:";

/// What a page reports in its title.
#[derive(Debug, PartialEq, Eq)]
pub enum TitleEvent {
    /// Not a report.
    Ignore,
    /// The page is ready: its page count, full height and viewport size.
    Ready { pages: u32, total_height: u64, viewport_width: u32, viewport_height: u32 },
    /// The requested page does not exist; the document has this many pages.
    PageOutOfRange(u32),
    /// The page failed to settle, for this reason.
    Failed(String),
}

/// The mathematical value of a `TitleEvent`.
pub enum TitleEventView {
    Ignore,
    Ready { pages: u32, total_height: u64, viewport_width: u32, viewport_height: u32 },
    PageOutOfRange(u32),
    Failed(Seq<char>),
}

impl View for TitleEvent {
    type V = TitleEventView;

    open spec fn view(&self) -> TitleEventView {
        match self {
            TitleEvent::Ignore => TitleEventView::Ignore,
            TitleEvent::Ready { pages, total_height, viewport_width, viewport_height } =>
                TitleEventView::Ready {
                pages: *pages,
                total_height: *total_height,
                viewport_width: *viewport_width,
                viewport_height: *viewport_height,
            },
            TitleEvent::PageOutOfRange(n) => TitleEventView::PageOutOfRange(*n),
            TitleEvent::Failed(reason) => TitleEventView::Failed(reason@),
        }
    }
}

/// The event that the fields of a readiness report stand for.
pub open spec fn ready_event(fields: Seq<Seq<char>>) -> TitleEventView {
    if fields.len() != 4 {
        TitleEventView::Failed("invalid readiness metadata"@)
    } else {
        match (
            parse_unsigned(fields[0], u32::MAX as nat),
            parse_unsigned(fields[1], u64::MAX as nat),
            parse_unsigned(fields[2], u32::MAX as nat),
            parse_unsigned(fields[3], u32::MAX as nat),
        ) {
            (Some(pages), Some(total_height), Some(viewport_width), Some(viewport_height)) =>
                TitleEventView::Ready {
                pages: pages as u32,
                total_height: total_height as u64,
                viewport_width: viewport_width as u32,
                viewport_height: viewport_height as u32,
            },
            _ => TitleEventView::Failed("invalid readiness metadata"@),
        }
    }
}

/// What the title `t` of a page reports: a page-range report carries the page
/// count; a failure report its reason; a readiness report four numbers
/// separated by `:` (page count, full height, viewport width and height);
/// anything else is no report. A report whose numbers do not read is a failure.
pub open spec fn title_event(t: Seq<char>) -> TitleEventView {
    if starts_with(t, PAGE_RANGE_PREFIX@) {
        match parse_unsigned(t.skip(PAGE_RANGE_PREFIX@.len() as int), u32::MAX as nat) {
            Some(n) => TitleEventView::PageOutOfRange(n as u32),
            None => TitleEventView::Failed("invalid page-range metadata"@),
        }
    } else if starts_with(t, FAILED_PREFIX@) {
        TitleEventView::Failed(t.skip(FAILED_PREFIX@.len() as int))
    } else if !starts_with(t, READY_PREFIX@) {
        TitleEventView::Ignore
    } else {
        ready_event(split_char(t.skip(READY_PREFIX@.len() as int), ':'))
    }
}

/// Reads what the title of a page reports.
pub fn parse_title(title: &str) -> (r: TitleEvent)
    ensures
        r@ == title_event(title@),
{
    let t = chars_of(title);
    let range_prefix = chars_of(PAGE_RANGE_PREFIX);
    if has_prefix(t.as_slice(), range_prefix.as_slice()) {
        let rest = vstd::slice::slice_subrange(t.as_slice(), range_prefix.len(), t.len());
        assert(rest@ =~= title@.skip(PAGE_RANGE_PREFIX@.len() as int));
        return match parse_unsigned_text(rest, u32::MAX as u64) {
            Some(n) => TitleEvent::PageOutOfRange(n as u32),
            None => TitleEvent::Failed("invalid page-range metadata".to_owned()),
        };
    }
    let failed_prefix = chars_of(FAILED_PREFIX);
    if has_prefix(t.as_slice(), failed_prefix.as_slice()) {
        let rest = vstd::slice::slice_subrange(t.as_slice(), failed_prefix.len(), t.len());
        assert(rest@ =~= title@.skip(FAILED_PREFIX@.len() as int));
        return TitleEvent::Failed(string_from_chars(rest));
    }
    let ready_prefix = chars_of(READY_PREFIX);
    if !has_prefix(t.as_slice(), ready_prefix.as_slice()) {
        return TitleEvent::Ignore;
    }
    let rest = vstd::slice::slice_subrange(t.as_slice(), ready_prefix.len(), t.len());
    assert(rest@ =~= title@.skip(READY_PREFIX@.len() as int));
    let fields = split_on(rest, ':');
    assert(views(fields@).len() == fields@.len());
    if fields.len() != 4 {
        return TitleEvent::Failed("invalid readiness metadata".to_owned());
    }
    assert(fields@[0]@ == views(fields@)[0] && fields@[1]@ == views(fields@)[1] && fields@[2]@
        == views(fields@)[2] && fields@[3]@ == views(fields@)[3]);
    let pages = parse_unsigned_text(fields[0].as_slice(), u32::MAX as u64);
    let total_height = parse_unsigned_text(fields[1].as_slice(), u64::MAX);
    let viewport_width = parse_unsigned_text(fields[2].as_slice(), u32::MAX as u64);
    let viewport_height = parse_unsigned_text(fields[3].as_slice(), u32::MAX as u64);
    match (pages, total_height, viewport_width, viewport_height) {
        (Some(p), Some(h), Some(w), Some(v)) => TitleEvent::Ready {
            pages: p as u32,
            total_height: h,
            viewport_width: w as u32,
            viewport_height: v as u32,
        },
        _ => TitleEvent::Failed("invalid readiness metadata".to_owned()),
    }
}

/// Splitting at the first separator: a piece free of `sep`, then `sep`, then
/// the rest.
proof fn lemma_split_piece(a: Seq<char>, b: Seq<char>, sep: char)
    requires
        forall|i: int| 0 <= i < a.len() ==> a[i] != sep,
    ensures
        split_char(a + seq![sep] + b, sep) == seq![a] + split_char(b, sep),
{
    let s = a + seq![sep] + b;
    assert forall|j: int| 0 <= j < a.len() implies !occurs_at(s, j, seq![sep]) by {
        assert(s.subrange(j, j + 1)[0] == a[j]);
    }
    lemma_find_from_skip(s, seq![sep], 0, a.len() as int);
    assert(s.subrange(a.len() as int, a.len() + 1 as int) =~= seq![sep]);
    assert(s.take(a.len() as int) =~= a);
    assert(s.skip(a.len() + 1 as int) =~= b);
}

/// A text free of `sep` is one piece.
proof fn lemma_split_whole(a: Seq<char>, sep: char)
    requires
        forall|i: int| 0 <= i < a.len() ==> a[i] != sep,
    ensures
        split_char(a, sep) == seq![a],
{
    lemma_find_from(a, seq![sep], 0);
    if let Some(k) = find_from(a, seq![sep], 0) {
        assert(a.subrange(k, k + 1)[0] == a[k]);
    }
}

/// A decimal numeral holds no `:`.
proof fn lemma_decimal_no_colon(n: nat)
    ensures
        forall|i: int| 0 <= i < decimal(n).len() ==> decimal(n)[i] != ':',
{
    lemma_decimal_digits(n);
    assert forall|i: int| 0 <= i < decimal(n).len() implies decimal(n)[i] != ':' by {
        assert(is_ascii_digit(decimal(n)[i]));
    }
}

/// The readiness report that a page writes for its page count, full height and
/// viewport size.
pub open spec fn ready_title(
    pages: u32,
    total_height: u64,
    viewport_width: u32,
    viewport_height: u32,
) -> Seq<char> {
    READY_PREFIX@ + decimal(pages as nat) + seq![':'] + decimal(total_height as nat) + seq![':']
        + decimal(viewport_width as nat) + seq![':'] + decimal(viewport_height as nat)
}

/// A readiness report reads back as the numbers it was written from.
pub proof fn lemma_ready_title_reads_back(
    pages: u32,
    total_height: u64,
    viewport_width: u32,
    viewport_height: u32,
)
    ensures
        title_event(ready_title(pages, total_height, viewport_width, viewport_height))
            == (TitleEventView::Ready { pages, total_height, viewport_width, viewport_height }),
{
    reveal_strlit("md-preview-page-out-of-range:");
    reveal_strlit("md-preview-failed:");
    reveal_strlit("md-preview-ready:");
    let t = ready_title(pages, total_height, viewport_width, viewport_height);
    let a = decimal(pages as nat);
    let b = decimal(total_height as nat);
    let c = decimal(viewport_width as nat);
    let d = decimal(viewport_height as nat);
    assert(t[11] == 'r');
    if t.len() >= PAGE_RANGE_PREFIX@.len() {
        assert(t.subrange(0, PAGE_RANGE_PREFIX@.len() as int)[11] == 'r');
    }
    assert(t.subrange(0, FAILED_PREFIX@.len() as int)[11] == 'r');
    assert(t.subrange(0, READY_PREFIX@.len() as int) =~= READY_PREFIX@);
    let rest = t.skip(READY_PREFIX@.len() as int);
    assert(rest =~= a + seq![':'] + (b + seq![':'] + (c + seq![':'] + d)));
    lemma_decimal_no_colon(pages as nat);
    lemma_decimal_no_colon(total_height as nat);
    lemma_decimal_no_colon(viewport_width as nat);
    lemma_decimal_no_colon(viewport_height as nat);
    lemma_split_piece(a, b + seq![':'] + (c + seq![':'] + d), ':');
    lemma_split_piece(b, c + seq![':'] + d, ':');
    lemma_split_piece(c, d, ':');
    lemma_split_whole(d, ':');
    let fields = split_char(rest, ':');
    assert(fields =~= seq![a, b, c, d]);
    lemma_decimal_roundtrip(pages as nat, u32::MAX as nat);
    lemma_decimal_roundtrip(total_height as nat, u64::MAX as nat);
    lemma_decimal_roundtrip(viewport_width as nat, u32::MAX as nat);
    lemma_decimal_roundtrip(viewport_height as nat, u32::MAX as nat);
}

/// The page-range report that a page writes for its page count.
pub open spec fn page_range_title(pages: u32) -> Seq<char> {
    PAGE_RANGE_PREFIX@ + decimal(pages as nat)
}

/// A page-range report reads back as the page count it was written from.
pub proof fn lemma_page_range_title_reads_back(pages: u32)
    ensures
        title_event(page_range_title(pages)) == TitleEventView::PageOutOfRange(pages),
{
    let t = page_range_title(pages);
    assert(t.subrange(0, PAGE_RANGE_PREFIX@.len() as int) =~= PAGE_RANGE_PREFIX@);
    assert(t.skip(PAGE_RANGE_PREFIX@.len() as int) =~= decimal(pages as nat));
    lemma_decimal_roundtrip(pages as nat, u32::MAX as nat);
}

/// A failure report reads back as the reason it was written with.
pub proof fn lemma_failure_title_reads_back(reason: Seq<char>)
    ensures
        title_event(FAILED_PREFIX@ + reason) == TitleEventView::Failed(reason),
{
    reveal_strlit("md-preview-page-out-of-range:");
    reveal_strlit("md-preview-failed:");
    let t = FAILED_PREFIX@ + reason;
    assert(t[11] == 'f');
    if t.len() >= PAGE_RANGE_PREFIX@.len() {
        assert(t.subrange(0, PAGE_RANGE_PREFIX@.len() as int)[11] == 'f');
    }
    assert(t.subrange(0, FAILED_PREFIX@.len() as int) =~= FAILED_PREFIX@);
    assert(t.skip(FAILED_PREFIX@.len() as int) =~= reason);
}

/// The options found on a command line, before their values are checked
/// against the limits.
#[derive(Debug)]
pub struct ArgScan {
    pub input: Option<String>,
    pub output: Option<String>,
    pub page: Option<u32>,
    pub width: Option<u32>,
    pub height: Option<u32>,
    /// The `--scale` value as written; it reads as a floating-point number.
    pub scale: Option<String>,
    pub theme: Option<PreviewTheme>,
    pub timeout_ms: Option<u64>,
    pub software_rendering: bool,
}

/// The mathematical value of an `ArgScan`.
pub struct ArgScanView {
    pub input: Option<Seq<char>>,
    pub output: Option<Seq<char>>,
    pub page: Option<u32>,
    pub width: Option<u32>,
    pub height: Option<u32>,
    pub scale: Option<Seq<char>>,
    pub theme: Option<PreviewTheme>,
    pub timeout_ms: Option<u64>,
    pub software_rendering: bool,
}

/// The view of an optional string.
pub open spec fn text_view(o: Option<String>) -> Option<Seq<char>> {
    match o {
        Some(s) => Some(s@),
        None => None,
    }
}

impl View for ArgScan {
    type V = ArgScanView;

    open spec fn view(&self) -> ArgScanView {
        ArgScanView {
            input: text_view(self.input),
            output: text_view(self.output),
            page: self.page,
            width: self.width,
            height: self.height,
            scale: text_view(self.scale),
            theme: self.theme,
            timeout_ms: self.timeout_ms,
            software_rendering: self.software_rendering,
        }
    }
}

/// No option found yet.
pub open spec fn empty_scan() -> ArgScanView {
    ArgScanView {
        input: None,
        output: None,
        page: None,
        width: None,
        height: None,
        scale: None,
        theme: None,
        timeout_ms: None,
        software_rendering: false,
    }
}

/// The error for an option given twice.
pub open spec fn duplicate(option: Seq<char>) -> AppErrorView {
    invalid("duplicate option: "@ + option)
}

/// The error for a value that does not read as the option's type.
pub open spec fn bad_value(option: Seq<char>, value: Seq<char>) -> AppErrorView {
    invalid("invalid value for "@ + option + ": "@ + value)
}

/// The theme a value names.
pub open spec fn theme_named(value: Seq<char>) -> Option<PreviewTheme> {
    if value == "light"@ {
        Some(PreviewTheme::Light)
    } else if value == "dark"@ {
        Some(PreviewTheme::Dark)
    } else {
        None
    }
}

/// Taking in one option with its value: the value is read first (a number
/// for the page, the sizes and the timeout; `number` says whether it reads as
/// a floating-point number, which the scale must; a theme name for the
/// theme), then the option must not have been given before.
pub open spec fn scan_option(
    option: Seq<char>,
    value: Seq<char>,
    number: bool,
    st: ArgScanView,
) -> Result<ArgScanView, AppErrorView> {
    if option == "--input"@ {
        if st.input is Some {
            Err(duplicate(option))
        } else {
            Ok(ArgScanView { input: Some(value), ..st })
        }
    } else if option == "--output"@ {
        if st.output is Some {
            Err(duplicate(option))
        } else {
            Ok(ArgScanView { output: Some(value), ..st })
        }
    } else if option == "--page"@ {
        match parse_unsigned(value, u32::MAX as nat) {
            None => Err(bad_value(option, value)),
            Some(n) => if st.page is Some {
                Err(duplicate(option))
            } else {
                Ok(ArgScanView { page: Some(n as u32), ..st })
            },
        }
    } else if option == "--width"@ {
        match parse_unsigned(value, u32::MAX as nat) {
            None => Err(bad_value(option, value)),
            Some(n) => if st.width is Some {
                Err(duplicate(option))
            } else {
                Ok(ArgScanView { width: Some(n as u32), ..st })
            },
        }
    } else if option == "--height"@ {
        match parse_unsigned(value, u32::MAX as nat) {
            None => Err(bad_value(option, value)),
            Some(n) => if st.height is Some {
                Err(duplicate(option))
            } else {
                Ok(ArgScanView { height: Some(n as u32), ..st })
            },
        }
    } else if option == "--scale"@ {
        if !number {
            Err(bad_value(option, value))
        } else if st.scale is Some {
            Err(duplicate(option))
        } else {
            Ok(ArgScanView { scale: Some(value), ..st })
        }
    } else if option == "--theme"@ {
        match theme_named(value) {
            None => Err(invalid("--theme must be light or dark"@)),
            Some(t) => if st.theme is Some {
                Err(duplicate(option))
            } else {
                Ok(ArgScanView { theme: Some(t), ..st })
            },
        }
    } else if option == "--timeout-ms"@ {
        match parse_unsigned(value, u64::MAX as nat) {
            None => Err(bad_value(option, value)),
            Some(n) => if st.timeout_ms is Some {
                Err(duplicate(option))
            } else {
                Ok(ArgScanView { timeout_ms: Some(n as u64), ..st })
            },
        }
    } else {
        Err(invalid("unknown option: "@ + option))
    }
}

/// Reading the command line from position `i` on, with `st` found so far:
/// every argument there is an option (it begins with `--`); the flag
/// `--software-rendering` stands alone, every other option takes the next
/// argument as its value. `numbers[j]` says whether argument `j` reads as a
/// floating-point number.
pub open spec fn scan_from(
    args: Seq<Seq<char>>,
    numbers: Seq<bool>,
    i: int,
    st: ArgScanView,
) -> Result<ArgScanView, AppErrorView>
    decreases args.len() - i,
{
    if i < 0 || i >= args.len() {
        Ok(st)
    } else {
        let option = args[i];
        if !starts_with(option, "--"@) {
            Err(invalid("unexpected positional argument: "@ + option))
        } else if option == "--software-rendering"@ {
            if st.software_rendering {
                Err(duplicate(option))
            } else {
                scan_from(args, numbers, i + 1, ArgScanView { software_rendering: true, ..st })
            }
        } else if i + 1 >= args.len() {
            Err(invalid("missing value for "@ + option))
        } else {
            match scan_option(option, args[i + 1], numbers[i + 1], st) {
                Ok(next) => scan_from(args, numbers, i + 2, next),
                Err(e) => Err(e),
            }
        }
    }
}

/// What a command line asks for.
#[derive(Debug)]
pub enum ParsedArgs {
    Help,
    Version,
    Options(ArgScan),
}

/// The mathematical value of a `ParsedArgs`.
pub enum ParsedArgsView {
    Help,
    Version,
    Options(ArgScanView),
}

impl View for ParsedArgs {
    type V = ParsedArgsView;

    open spec fn view(&self) -> ParsedArgsView {
        match self {
            ParsedArgs::Help => ParsedArgsView::Help,
            ParsedArgs::Version => ParsedArgsView::Version,
            ParsedArgs::Options(s) => ParsedArgsView::Options(s@),
        }
    }
}

/// What the command line `args` asks for: help for `--help` or `-h` alone,
/// the version for `--version` alone, an error for no arguments, and
/// otherwise the options it gives.
pub open spec fn parsed_args(args: Seq<Seq<char>>, numbers: Seq<bool>) -> Result<
    ParsedArgsView,
    AppErrorView,
> {
    if args == seq!["--help"@] || args == seq!["-h"@] {
        Ok(ParsedArgsView::Help)
    } else if args == seq!["--version"@] {
        Ok(ParsedArgsView::Version)
    } else if args.len() == 0 {
        Err(invalid("missing required options; try --help"@))
    } else {
        match scan_from(args, numbers, 0, empty_scan()) {
            Ok(st) => Ok(ParsedArgsView::Options(st)),
            Err(e) => Err(e),
        }
    }
}

/// The error for an option given twice.
fn duplicate_error(option: &str) -> (r: AppError)
    ensures
        r@ == duplicate(option@),
{
    AppError::invalid(joined("duplicate option: ", option))
}

/// The error for a value that does not read.
fn bad_value_error(option: &str, value: &str) -> (r: AppError)
    ensures
        r@ == bad_value(option@, value@),
{
    let mut m = "invalid value for ".to_owned();
    m.append(option);
    m.append(": ");
    m.append(value);
    AppError::invalid(m)
}

/// Takes in one option with its value.
fn scan_one(option: &str, value: &str, number: bool, st: ArgScan) -> (r: Result<ArgScan, AppError>)
    ensures
        match r {
            Ok(next) => scan_option(option@, value@, number, st@) == Ok::<ArgScanView, AppErrorView>(next@),
            Err(e) => scan_option(option@, value@, number, st@) == Err::<ArgScanView, AppErrorView>(e@),
        },
{
    let mut st = st;
    if is_text(option, "--input") {
        if st.input.is_some() {
            return Err(duplicate_error(option));
        }
        st.input = Some(value.to_owned());
        Ok(st)
    } else if is_text(option, "--output") {
        if st.output.is_some() {
            return Err(duplicate_error(option));
        }
        st.output = Some(value.to_owned());
        Ok(st)
    } else if is_text(option, "--page") {
        let v = chars_of(value);
        match parse_unsigned_text(v.as_slice(), u32::MAX as u64) {
            None => Err(bad_value_error(option, value)),
            Some(n) => {
                if st.page.is_some() {
                    return Err(duplicate_error(option));
                }
                st.page = Some(n as u32);
                Ok(st)
            },
        }
    } else if is_text(option, "--width") {
        let v = chars_of(value);
        match parse_unsigned_text(v.as_slice(), u32::MAX as u64) {
            None => Err(bad_value_error(option, value)),
            Some(n) => {
                if st.width.is_some() {
                    return Err(duplicate_error(option));
                }
                st.width = Some(n as u32);
                Ok(st)
            },
        }
    } else if is_text(option, "--height") {
        let v = chars_of(value);
        match parse_unsigned_text(v.as_slice(), u32::MAX as u64) {
            None => Err(bad_value_error(option, value)),
            Some(n) => {
                if st.height.is_some() {
                    return Err(duplicate_error(option));
                }
                st.height = Some(n as u32);
                Ok(st)
            },
        }
    } else if is_text(option, "--scale") {
        if !number {
            return Err(bad_value_error(option, value));
        }
        if st.scale.is_some() {
            return Err(duplicate_error(option));
        }
        st.scale = Some(value.to_owned());
        Ok(st)
    } else if is_text(option, "--theme") {
        let theme = if is_text(value, "light") {
            PreviewTheme::Light
        } else if is_text(value, "dark") {
            PreviewTheme::Dark
        } else {
            return Err(AppError::invalid("--theme must be light or dark".to_owned()));
        };
        if st.theme.is_some() {
            return Err(duplicate_error(option));
        }
        st.theme = Some(theme);
        Ok(st)
    } else if is_text(option, "--timeout-ms") {
        let v = chars_of(value);
        match parse_unsigned_text(v.as_slice(), u64::MAX) {
            None => Err(bad_value_error(option, value)),
            Some(n) => {
                if st.timeout_ms.is_some() {
                    return Err(duplicate_error(option));
                }
                st.timeout_ms = Some(n);
                Ok(st)
            },
        }
    } else {
        Err(AppError::invalid(joined("unknown option: ", option)))
    }
}

/// Reads the options of a command line that is neither empty nor a request
/// for help or the version.
fn scan_options(args: &Vec<String>, numbers: &Vec<bool>) -> (r: Result<ArgScan, AppError>)
    requires
        numbers@.len() == args@.len(),
    ensures
        match r {
            Ok(st) => scan_from(string_views(args@), numbers@, 0, empty_scan()) == Ok::<ArgScanView, AppErrorView>(st@),
            Err(e) => scan_from(string_views(args@), numbers@, 0, empty_scan()) == Err::<ArgScanView, AppErrorView>(e@),
        },
{
    let ghost a = string_views(args@);
    let mut st = ArgScan {
        input: None,
        output: None,
        page: None,
        width: None,
        height: None,
        scale: None,
        theme: None,
        timeout_ms: None,
        software_rendering: false,
    };
    let mut index: usize = 0;
    while index < args.len()
        invariant
            a == string_views(args@),
            a.len() == args@.len(),
            numbers@.len() == args@.len(),
            index <= args@.len(),
            scan_from(a, numbers@, 0, empty_scan()) == scan_from(a, numbers@, index as int, st@),
        decreases args@.len() - index,
    {
        let option: &str = args[index].as_str();
        assert(option@ == a[index as int]);
        let oc = chars_of(option);
        let dashes = chars_of("--");
        if !has_prefix(oc.as_slice(), dashes.as_slice()) {
            return Err(AppError::invalid(joined("unexpected positional argument: ", option)));
        }
        if is_text(option, "--software-rendering") {
            if st.software_rendering {
                return Err(duplicate_error(option));
            }
            st.software_rendering = true;
            index = index + 1;
        } else {
            if index + 1 >= args.len() {
                return Err(AppError::invalid(joined("missing value for ", option)));
            }
            let value: &str = args[index + 1].as_str();
            assert(value@ == a[index + 1]);
            match scan_one(option, value, numbers[index + 1], st) {
                Ok(next) => {
                    st = next;
                },
                Err(e) => {
                    return Err(e);
                },
            }
            index = index + 2;
        }
    }
    Ok(st)
}

/// Reads a command line. `numbers[j]` says whether argument `j` reads as a
/// floating-point number.
pub fn scan_args(args: &Vec<String>, numbers: &Vec<bool>) -> (r: Result<ParsedArgs, AppError>)
    requires
        numbers@.len() == args@.len(),
    ensures
        match r {
            Ok(p) => parsed_args(string_views(args@), numbers@) == Ok::<ParsedArgsView, AppErrorView>(p@),
            Err(e) => parsed_args(string_views(args@), numbers@) == Err::<ParsedArgsView, AppErrorView>(e@),
        },
{
    let ghost a = string_views(args@);
    if args.len() == 1 {
        assert(a[0] == args@[0]@);
        if is_text(args[0].as_str(), "--help") || is_text(args[0].as_str(), "-h") {
            assert(a =~= seq![args@[0]@]);
            return Ok(ParsedArgs::Help);
        }
        if is_text(args[0].as_str(), "--version") {
            assert(a =~= seq![args@[0]@]);
            return Ok(ParsedArgs::Version);
        }
        assert(a =~= seq![args@[0]@]);
    }
    if args.len() == 0 {
        return Err(AppError::invalid("missing required options; try --help".to_owned()));
    }
    proof {
        if a == seq!["--help"@] || a == seq!["-h"@] || a == seq!["--version"@] {
            assert(a.len() == 1);
        }
    }
    match scan_options(args, numbers) {
        Ok(st) => Ok(ParsedArgs::Options(st)),
        Err(e) => Err(e),
    }
}

/// Smallest logical viewport width or height.
pub const MIN_DIMENSION: u32 = 64;

/// Largest logical viewport width or height.
pub const MAX_DIMENSION: u32 = 4096;

/// Largest scaled width or height, in pixels.
pub const MAX_PIXEL_DIMENSION: u32 = 8192;

/// Largest number of pixels in the output.
pub const MAX_OUTPUT_PIXELS: u64 = 33_554_432;

/// Shortest render timeout, in milliseconds.
pub const MIN_TIMEOUT_MS: u64 = 100;

/// Longest render timeout, in milliseconds.
pub const MAX_TIMEOUT_MS: u64 = 120_000;

/// What the caller worked out from the `--scale` value, a floating-point
/// number: whether it is finite and between 0.5 and 4, and the width and
/// height scaled by it and rounded, each where it lies between 1 and 8192.
#[derive(Copy, Clone, Debug)]
pub struct ScaleFacts {
    pub in_range: bool,
    pub pixel_width: Option<u32>,
    pub pixel_height: Option<u32>,
}

/// A checked request to render one page of a Markdown file.
#[derive(Debug)]
pub struct RenderRequest {
    pub input: String,
    pub output: String,
    pub page: u32,
    pub width: u32,
    pub height: u32,
    /// The scale as written on the command line.
    pub scale: String,
    pub theme: PreviewTheme,
    pub timeout_ms: u64,
    pub software_rendering: bool,
    pub pixel_width: u32,
    pub pixel_height: u32,
}

/// The mathematical value of a `RenderRequest`.
pub struct RenderRequestView {
    pub input: Seq<char>,
    pub output: Seq<char>,
    pub page: u32,
    pub width: u32,
    pub height: u32,
    pub scale: Seq<char>,
    pub theme: PreviewTheme,
    pub timeout_ms: u64,
    pub software_rendering: bool,
    pub pixel_width: u32,
    pub pixel_height: u32,
}

impl View for RenderRequest {
    type V = RenderRequestView;

    open spec fn view(&self) -> RenderRequestView {
        RenderRequestView {
            input: self.input@,
            output: self.output@,
            page: self.page,
            width: self.width,
            height: self.height,
            scale: self.scale@,
            theme: self.theme,
            timeout_ms: self.timeout_ms,
            software_rendering: self.software_rendering,
            pixel_width: self.pixel_width,
            pixel_height: self.pixel_height,
        }
    }
}

/// The error for an option that is missing.
pub open spec fn missing(option: Seq<char>) -> AppErrorView {
    invalid("missing required option: "@ + option)
}

/// A scaled size within the pixel limits.
pub open spec fn pixel_size(p: Option<u32>) -> Option<u32> {
    match p {
        Some(v) => if 1 <= v <= MAX_PIXEL_DIMENSION {
            Some(v)
        } else {
            None
        },
        None => None,
    }
}

/// The request that the options `st` make, given what the caller worked out
/// about the scale: the width, height, scale and timeout must be given and lie
/// within their limits (in that order), the scaled sizes must lie within the
/// pixel limits and their product within the output limit, and then the
/// input, output, page and theme must be given.
pub open spec fn finished_request(st: ArgScanView, facts: ScaleFacts) -> Result<
    RenderRequestView,
    AppErrorView,
> {
    if st.width is None {
        Err(missing("--width"@))
    } else if st.height is None {
        Err(missing("--height"@))
    } else if st.scale is None {
        Err(missing("--scale"@))
    } else if st.timeout_ms is None {
        Err(missing("--timeout-ms"@))
    } else if !(MIN_DIMENSION <= st.width.unwrap() <= MAX_DIMENSION) {
        Err(invalid("--width must be between 64 and 4096"@))
    } else if !(MIN_DIMENSION <= st.height.unwrap() <= MAX_DIMENSION) {
        Err(invalid("--height must be between 64 and 4096"@))
    } else if !facts.in_range {
        Err(invalid("--scale must be between 0.5 and 4"@))
    } else if !(MIN_TIMEOUT_MS <= st.timeout_ms.unwrap() <= MAX_TIMEOUT_MS) {
        Err(invalid("--timeout-ms must be between 100 and 120000"@))
    } else if pixel_size(facts.pixel_width) is None {
        Err(invalid("scaled width must not exceed 8192 pixels"@))
    } else if pixel_size(facts.pixel_height) is None {
        Err(invalid("scaled height must not exceed 8192 pixels"@))
    } else if facts.pixel_width.unwrap() as int * facts.pixel_height.unwrap() as int
        > MAX_OUTPUT_PIXELS {
        Err(invalid("scaled output exceeds the 33554432 pixel limit"@))
    } else if st.input is None {
        Err(missing("--input"@))
    } else if st.output is None {
        Err(missing("--output"@))
    } else if st.page is None {
        Err(missing("--page"@))
    } else if st.theme is None {
        Err(missing("--theme"@))
    } else {
        Ok(
            RenderRequestView {
                input: st.input.unwrap(),
                output: st.output.unwrap(),
                page: st.page.unwrap(),
                width: st.width.unwrap(),
                height: st.height.unwrap(),
                scale: st.scale.unwrap(),
                theme: st.theme.unwrap(),
                timeout_ms: st.timeout_ms.unwrap(),
                software_rendering: st.software_rendering,
                pixel_width: facts.pixel_width.unwrap(),
                pixel_height: facts.pixel_height.unwrap(),
            },
        )
    }
}

/// The error for a missing option.
fn missing_error(option: &str) -> (r: AppError)
    ensures
        r@ == missing(option@),
{
    AppError::invalid(joined("missing required option: ", option))
}

/// Checks the options of a command line against the limits and makes the
/// request, given what the caller worked out about the scale.
pub fn finish_request(st: ArgScan, facts: ScaleFacts) -> (r: Result<RenderRequest, AppError>)
    ensures
        match r {
            Ok(q) => finished_request(st@, facts) == Ok::<RenderRequestView, AppErrorView>(q@),
            Err(e) => finished_request(st@, facts) == Err::<RenderRequestView, AppErrorView>(e@),
        },
{
    let width = match st.width {
        Some(w) => w,
        None => {
            return Err(missing_error("--width"));
        },
    };
    let height = match st.height {
        Some(h) => h,
        None => {
            return Err(missing_error("--height"));
        },
    };
    if st.scale.is_none() {
        return Err(missing_error("--scale"));
    }
    let timeout_ms = match st.timeout_ms {
        Some(t) => t,
        None => {
            return Err(missing_error("--timeout-ms"));
        },
    };
    if !(MIN_DIMENSION <= width && width <= MAX_DIMENSION) {
        return Err(AppError::invalid("--width must be between 64 and 4096".to_owned()));
    }
    if !(MIN_DIMENSION <= height && height <= MAX_DIMENSION) {
        return Err(AppError::invalid("--height must be between 64 and 4096".to_owned()));
    }
    if !facts.in_range {
        return Err(AppError::invalid("--scale must be between 0.5 and 4".to_owned()));
    }
    if !(MIN_TIMEOUT_MS <= timeout_ms && timeout_ms <= MAX_TIMEOUT_MS) {
        return Err(AppError::invalid("--timeout-ms must be between 100 and 120000".to_owned()));
    }
    let pixel_width = match facts.pixel_width {
        Some(p) if 1 <= p && p <= MAX_PIXEL_DIMENSION => p,
        _ => {
            return Err(AppError::invalid("scaled width must not exceed 8192 pixels".to_owned()));
        },
    };
    let pixel_height = match facts.pixel_height {
        Some(p) if 1 <= p && p <= MAX_PIXEL_DIMENSION => p,
        _ => {
            return Err(AppError::invalid("scaled height must not exceed 8192 pixels".to_owned()));
        },
    };
    assert((pixel_width as u64) * (pixel_height as u64) <= 8192 * 8192) by (nonlinear_arith)
        requires
            pixel_width <= 8192,
            pixel_height <= 8192,
    ;
    if (pixel_width as u64) * (pixel_height as u64) > MAX_OUTPUT_PIXELS {
        return Err(
            AppError::invalid("scaled output exceeds the 33554432 pixel limit".to_owned()),
        );
    }
    let ArgScan { input, output, page, scale, theme, software_rendering, .. } = st;
    let input = match input {
        Some(i) => i,
        None => {
            return Err(missing_error("--input"));
        },
    };
    let output = match output {
        Some(o) => o,
        None => {
            return Err(missing_error("--output"));
        },
    };
    let page = match page {
        Some(p) => p,
        None => {
            return Err(missing_error("--page"));
        },
    };
    let theme = match theme {
        Some(t) => t,
        None => {
            return Err(missing_error("--theme"));
        },
    };
    let scale = match scale {
        Some(s) => s,
        None => {
            return Err(missing_error("--scale"));
        },
    };
    Ok(
        RenderRequest {
            input,
            output,
            page,
            width,
            height,
            scale,
            theme,
            timeout_ms,
            software_rendering,
            pixel_width,
            pixel_height,
        },
    )
}

/// What a page's readiness report carried.
#[derive(Copy, Clone, Debug, PartialEq, Eq)]
pub struct ReadyInfo {
    pub pages: u32,
    pub total_height: u64,
    pub viewport_width: u32,
    pub viewport_height: u32,
}

/// What the caller does after an event of the renderer.
#[derive(Copy, Clone, Debug, PartialEq, Eq)]
pub enum RenderAction {
    /// Keep waiting for events.
    Wait,
    /// The outcome is settled: stop waiting.
    Quit,
    /// Take the snapshot of the ready page.
    TakeSnapshot(ReadyInfo),
}

/// How taking a snapshot ended.
#[derive(Debug)]
pub enum SnapshotOutcome {
    /// The engine failed, with this message.
    Failed(String),
    /// The engine returned something that is not an image surface.
    NotImage,
    /// The engine returned an image surface.
    Image,
}

/// The outcome of an error, as the session holds it.
pub open spec fn outcome_view(r: Result<ReadyInfo, AppError>) -> Result<ReadyInfo, AppErrorView> {
    match r {
        Ok(info) => Ok(info),
        Err(e) => Err(e@),
    }
}

/// The outcome a session holds after `completed` arrives: the first outcome
/// stays.
pub open spec fn settled_with(
    settled: Option<Result<ReadyInfo, AppErrorView>>,
    completed: Result<ReadyInfo, AppErrorView>,
) -> Option<Result<ReadyInfo, AppErrorView>> {
    if settled is None {
        Some(completed)
    } else {
        settled
    }
}

/// An error with the status for a failed render.
pub open spec fn render_failure(message: Seq<char>) -> AppErrorView {
    AppErrorView { code: EXIT_RENDER_FAILURE, message }
}

/// The failure a page's title reports, if it reports one.
pub open spec fn title_failure(ev: TitleEventView) -> Option<AppErrorView> {
    match ev {
        TitleEventView::Failed(reason) => Some(render_failure("page readiness failed: "@ + reason)),
        TitleEventView::PageOutOfRange(pages) => Some(
            AppErrorView {
                code: EXIT_PAGE_RANGE,
                message: "page is out of range; document has "@ + decimal(pages as nat)
                    + " page(s)"@,
            },
        ),
        _ => None,
    }
}

/// The outcome that a finished snapshot attempt brings.
pub open spec fn snapshot_completion(info: ReadyInfo, outcome: SnapshotOutcome) -> Result<
    ReadyInfo,
    AppErrorView,
> {
    match outcome {
        SnapshotOutcome::Failed(message) => Err(render_failure("snapshot failed: "@ + message@)),
        SnapshotOutcome::NotImage => Err(
            render_failure("snapshot did not return an image surface"@),
        ),
        SnapshotOutcome::Image => Ok(info),
    }
}


/// An event of the renderer, as a render session takes it in.
pub enum SessionEvent {
    /// The page failed to load (its URI and the error's text).
    LoadFailed(Seq<char>, Seq<char>),
    /// The page changed its title.
    Title(Seq<char>),
    /// Taking the snapshot of the ready page ended.
    Snapshot(SnapshotOutcome),
    /// The time allowed for the render ran out.
    Timeout,
}

/// The error for a render that did not finish in time.
pub open spec fn timeout_error() -> AppErrorView {
    AppErrorView { code: EXIT_RENDER_TIMEOUT, message: "timed out waiting for render completion"@ }
}

/// What a readiness report carries, if the event is one.
pub open spec fn ready_info(ev: SessionEvent) -> Option<ReadyInfo> {
    match ev {
        SessionEvent::Title(t) => match title_event(t) {
            TitleEventView::Ready { pages, total_height, viewport_width, viewport_height } => Some(
                ReadyInfo { pages, total_height, viewport_width, viewport_height },
            ),
            _ => None,
        },
        _ => None,
    }
}

/// The outcome that an event brings, if it brings one, given the readiness
/// report that the snapshot was requested for (if any): a load failure, a
/// failure or page-range report and the timeout each bring one; a finished
/// snapshot brings one when a snapshot was requested, carrying that report's
/// numbers; other titles bring none.
pub open spec fn event_completion(requested: Option<ReadyInfo>, ev: SessionEvent) -> Option<
    Result<ReadyInfo, AppErrorView>,
> {
    match ev {
        SessionEvent::LoadFailed(uri, error) => Some(
            Err(render_failure("page load failed for "@ + uri + ": "@ + error)),
        ),
        SessionEvent::Title(t) => match title_failure(title_event(t)) {
            Some(e) => Some(Err(e)),
            None => None,
        },
        SessionEvent::Snapshot(outcome) => match requested {
            Some(info) => Some(snapshot_completion(info, outcome)),
            None => None,
        },
        SessionEvent::Timeout => Some(Err(timeout_error())),
    }
}

/// The readiness report the snapshot is requested for after an event: the
/// first one stays.
pub open spec fn requested_after(requested: Option<ReadyInfo>, ev: SessionEvent) -> Option<
    ReadyInfo,
> {
    match requested {
        Some(info) => Some(info),
        None => ready_info(ev),
    }
}

/// The session's outcome and requested snapshot after one event.
pub open spec fn session_step(
    settled: Option<Result<ReadyInfo, AppErrorView>>,
    requested: Option<ReadyInfo>,
    ev: SessionEvent,
) -> (Option<Result<ReadyInfo, AppErrorView>>, Option<ReadyInfo>) {
    (
        match event_completion(requested, ev) {
            Some(c) => settled_with(settled, c),
            None => settled,
        },
        requested_after(requested, ev),
    )
}

/// The session's outcome and requested snapshot after a sequence of events.
pub open spec fn session_after(
    settled: Option<Result<ReadyInfo, AppErrorView>>,
    requested: Option<ReadyInfo>,
    evs: Seq<SessionEvent>,
) -> (Option<Result<ReadyInfo, AppErrorView>>, Option<ReadyInfo>)
    decreases evs.len(),
{
    if evs.len() == 0 {
        (settled, requested)
    } else {
        let (s, q) = session_step(settled, requested, evs[0]);
        session_after(s, q, evs.drop_first())
    }
}

/// The outcome that the first event bringing one brings.
pub open spec fn first_completion(requested: Option<ReadyInfo>, evs: Seq<SessionEvent>) -> Option<
    Result<ReadyInfo, AppErrorView>,
>
    decreases evs.len(),
{
    if evs.len() == 0 {
        None
    } else {
        match event_completion(requested, evs[0]) {
            Some(c) => Some(c),
            None => first_completion(requested_after(requested, evs[0]), evs.drop_first()),
        }
    }
}

/// What the first readiness report of a sequence of events carries.
pub open spec fn first_ready(evs: Seq<SessionEvent>) -> Option<ReadyInfo>
    decreases evs.len(),
{
    if evs.len() == 0 {
        None
    } else {
        match ready_info(evs[0]) {
            Some(info) => Some(info),
            None => first_ready(evs.drop_first()),
        }
    }
}

/// How many snapshots a sequence of events starts, given whether one was
/// started before: each readiness report starts one while none was started.
pub open spec fn snapshots_started(started: bool, evs: Seq<SessionEvent>) -> nat
    decreases evs.len(),
{
    if evs.len() == 0 {
        0
    } else {
        let ready = ready_info(evs[0]) is Some;
        (if ready && !started {
            1nat
        } else {
            0nat
        }) + snapshots_started(started || ready, evs.drop_first())
    }
}

/// A settled session stays settled on the same outcome, whatever follows.
pub proof fn lemma_settled_stays(
    outcome: Result<ReadyInfo, AppErrorView>,
    requested: Option<ReadyInfo>,
    evs: Seq<SessionEvent>,
)
    ensures
        session_after(Some(outcome), requested, evs).0 == Some(outcome),
    decreases evs.len(),
{
    if evs.len() > 0 {
        let (s, q) = session_step(Some(outcome), requested, evs[0]);
        lemma_settled_stays(outcome, q, evs.drop_first());
    }
}

/// A render's result is decided by the first event that brings an outcome:
/// from an unsettled session, the settled outcome after any sequence of events
/// is the outcome of its first terminal event (none if there is none).
pub proof fn lemma_first_outcome_decides(requested: Option<ReadyInfo>, evs: Seq<SessionEvent>)
    ensures
        session_after(None, requested, evs).0 == first_completion(requested, evs),
    decreases evs.len(),
{
    if evs.len() > 0 {
        let (s, q) = session_step(None, requested, evs[0]);
        match event_completion(requested, evs[0]) {
            Some(c) => {
                lemma_settled_stays(c, q, evs.drop_first());
            },
            None => {
                lemma_first_outcome_decides(q, evs.drop_first());
            },
        }
    }
}

/// A successful render reports the numbers of the page's first readiness
/// report: from a fresh session, whatever the events, an `Ok` outcome carries
/// exactly what the first readiness report carried.
pub proof fn lemma_success_is_first_ready(evs: Seq<SessionEvent>)
    ensures
        session_after(None, None, evs).0 matches Some(Ok(info)) ==> first_ready(evs) == Some(info),
{
    lemma_success_carries_request(None, evs);
}

proof fn lemma_success_carries_request(requested: Option<ReadyInfo>, evs: Seq<SessionEvent>)
    ensures
        session_after(None, requested, evs).0 matches Some(Ok(info)) ==> match requested {
            Some(r) => info == r,
            None => first_ready(evs) == Some(info),
        },
    decreases evs.len(),
{
    if evs.len() > 0 {
        let (s, q) = session_step(None, requested, evs[0]);
        match event_completion(requested, evs[0]) {
            Some(c) => {
                lemma_settled_stays(c, q, evs.drop_first());
            },
            None => {
                lemma_success_carries_request(q, evs.drop_first());
            },
        }
    }
}

/// A render takes at most one snapshot: from a fresh session any sequence of
/// events starts at most one, and once one is started no event starts another.
pub proof fn lemma_one_snapshot(started: bool, evs: Seq<SessionEvent>)
    ensures
        snapshots_started(started, evs) <= (if started {
            0nat
        } else {
            1nat
        }),
    decreases evs.len(),
{
    if evs.len() > 0 {
        let ready = ready_info(evs[0]) is Some;
        lemma_one_snapshot(started || ready, evs.drop_first());
    }
}

/// The decisions of one render: the first outcome that arrives (a failure
/// reported by the page or the engine, the snapshot, or the timeout) is the
/// result, the snapshot is taken at most once, for the first readiness report,
/// and a successful snapshot carries that report's numbers.
pub struct RenderSession {
    result: Option<Result<ReadyInfo, AppError>>,
    requested: Option<ReadyInfo>,
}

impl RenderSession {
    /// The outcome settled so far.
    pub closed spec fn settled(&self) -> Option<Result<ReadyInfo, AppErrorView>> {
        match self.result {
            Some(r) => Some(outcome_view(r)),
            None => None,
        }
    }

    /// The readiness report that the snapshot was requested for, if any.
    pub closed spec fn requested(&self) -> Option<ReadyInfo> {
        self.requested
    }

    /// Whether the snapshot has been started.
    pub open spec fn started(&self) -> bool {
        self.requested() is Some
    }

    /// A session before any event.
    pub fn new() -> (r: RenderSession)
        ensures
            r.settled() is None,
            r.requested() is None,
    {
        RenderSession { result: None, requested: None }
    }

    /// Takes in an outcome; the first one stays. Returns whether this one
    /// settled the session.
    fn settle(&mut self, completed: Result<ReadyInfo, AppError>) -> (quit: bool)
        ensures
            final(self).settled() == settled_with(old(self).settled(), outcome_view(completed)),
            final(self).requested() == old(self).requested(),
            quit == old(self).settled() is None,
    {
        if self.result.is_none() {
            self.result = Some(completed);
            true
        } else {
            false
        }
    }

    /// The page failed to load. Returns whether this settled the session.
    pub fn on_load_failed(&mut self, uri: &str, error: &str) -> (quit: bool)
        ensures
            (final(self).settled(), final(self).requested()) == session_step(
                old(self).settled(),
                old(self).requested(),
                SessionEvent::LoadFailed(uri@, error@),
            ),
            quit == old(self).settled() is None,
    {
        let mut m = "page load failed for ".to_owned();
        m.append(uri);
        m.append(": ");
        m.append(error);
        self.settle(Err(AppError::new(EXIT_RENDER_FAILURE, m)))
    }

    /// The page changed its title: a failure report settles the session, and
    /// the first readiness report starts the snapshot.
    pub fn on_title(&mut self, title: &str) -> (a: RenderAction)
        ensures
            (final(self).settled(), final(self).requested()) == session_step(
                old(self).settled(),
                old(self).requested(),
                SessionEvent::Title(title@),
            ),
            title_failure(title_event(title@)) is Some ==> a == (if old(self).settled() is None {
                RenderAction::Quit
            } else {
                RenderAction::Wait
            }),
            title_event(title@) is Ignore ==> a == RenderAction::Wait,
            ready_info(SessionEvent::Title(title@)) matches Some(info) ==> a == (if old(
                self,
            ).started() {
                RenderAction::Wait
            } else {
                RenderAction::TakeSnapshot(info)
            }),
    {
        match parse_title(title) {
            TitleEvent::Ignore => RenderAction::Wait,
            TitleEvent::Failed(reason) => {
                let quit = self.settle(
                    Err(
                        AppError::new(
                            EXIT_RENDER_FAILURE,
                            joined("page readiness failed: ", reason.as_str()),
                        ),
                    ),
                );
                if quit {
                    RenderAction::Quit
                } else {
                    RenderAction::Wait
                }
            },
            TitleEvent::PageOutOfRange(pages) => {
                let mut m = "page is out of range; document has ".to_owned();
                let count = decimal_string(pages as u64);
                m.append(count.as_str());
                m.append(" page(s)");
                let quit = self.settle(Err(AppError::new(EXIT_PAGE_RANGE, m)));
                if quit {
                    RenderAction::Quit
                } else {
                    RenderAction::Wait
                }
            },
            TitleEvent::Ready { pages, total_height, viewport_width, viewport_height } => {
                if self.requested.is_some() {
                    RenderAction::Wait
                } else {
                    let info = ReadyInfo { pages, total_height, viewport_width, viewport_height };
                    self.requested = Some(info);
                    RenderAction::TakeSnapshot(info)
                }
            },
        }
    }

    /// Taking the requested snapshot ended with `outcome`; with no snapshot
    /// requested nothing changes. Returns whether this settled the session (the
    /// caller then keeps the image).
    pub fn on_snapshot(&mut self, outcome: SnapshotOutcome) -> (quit: bool)
        ensures
            (final(self).settled(), final(self).requested()) == session_step(
                old(self).settled(),
                old(self).requested(),
                SessionEvent::Snapshot(outcome),
            ),
            quit == (old(self).settled() is None && old(self).started()),
    {
        let info = match self.requested {
            Some(info) => info,
            None => {
                return false;
            },
        };
        let completed = match outcome {
            SnapshotOutcome::Failed(message) => Err(
                AppError::new(EXIT_RENDER_FAILURE, joined("snapshot failed: ", message.as_str())),
            ),
            SnapshotOutcome::NotImage => Err(
                AppError::new(
                    EXIT_RENDER_FAILURE,
                    "snapshot did not return an image surface".to_owned(),
                ),
            ),
            SnapshotOutcome::Image => Ok(info),
        };
        self.settle(completed)
    }

    /// The time allowed for the render ran out. Returns whether this settled
    /// the session.
    pub fn on_timeout(&mut self) -> (quit: bool)
        ensures
            (final(self).settled(), final(self).requested()) == session_step(
                old(self).settled(),
                old(self).requested(),
                SessionEvent::Timeout,
            ),
            quit == old(self).settled() is None,
    {
        self.settle(
            Err(
                AppError::new(
                    EXIT_RENDER_TIMEOUT,
                    "timed out waiting for render completion".to_owned(),
                ),
            ),
        )
    }

    /// The result of the render: the settled outcome, or a failure where none
    /// arrived.
    pub fn outcome(self) -> (r: Result<ReadyInfo, AppError>)
        ensures
            outcome_view(r) == (match self.settled() {
                Some(o) => o,
                None => Err(render_failure("renderer stopped without a result"@)),
            }),
    {
        match self.result {
            Some(r) => r,
            None => Err(
                AppError::new(EXIT_RENDER_FAILURE, "renderer stopped without a result".to_owned()),
            ),
        }
    }
}

/// The check of a finished snapshot against the request: the page's viewport
/// must have the requested logical size and the image the scaled size.
pub open spec fn snapshot_check(
    request: RenderRequestView,
    info: ReadyInfo,
    surface_width: i32,
    surface_height: i32,
) -> Result<(), AppErrorView> {
    if info.viewport_width != request.width || info.viewport_height != request.height {
        Err(
            render_failure(
                "logical viewport mismatch: expected "@ + decimal(request.width as nat) + "x"@
                    + decimal(request.height as nat) + ", got "@ + decimal(
                    info.viewport_width as nat,
                ) + "x"@ + decimal(info.viewport_height as nat),
            ),
        )
    } else if surface_width != request.pixel_width as i32 || surface_height
        != request.pixel_height as i32 {
        Err(
            render_failure(
                "snapshot dimensions mismatch: expected "@ + decimal(request.pixel_width as nat)
                    + "x"@ + decimal(request.pixel_height as nat) + ", got "@ + signed_decimal(
                    surface_width as int,
                ) + "x"@ + signed_decimal(surface_height as int),
            ),
        )
    } else {
        Ok(())
    }
}

/// Checks a finished snapshot against the request.
pub fn check_snapshot(
    request: &RenderRequest,
    info: ReadyInfo,
    surface_width: i32,
    surface_height: i32,
) -> (r: Result<(), AppError>)
    ensures
        match r {
            Ok(()) => snapshot_check(request@, info, surface_width, surface_height) is Ok,
            Err(e) => snapshot_check(request@, info, surface_width, surface_height) == Err::<(), AppErrorView>(e@),
        },
{
    if info.viewport_width != request.width || info.viewport_height != request.height {
        let mut m = "logical viewport mismatch: expected ".to_owned();
        m.append(decimal_string(request.width as u64).as_str());
        m.append("x");
        m.append(decimal_string(request.height as u64).as_str());
        m.append(", got ");
        m.append(decimal_string(info.viewport_width as u64).as_str());
        m.append("x");
        m.append(decimal_string(info.viewport_height as u64).as_str());
        return Err(AppError::new(EXIT_RENDER_FAILURE, m));
    }
    if surface_width != request.pixel_width as i32 || surface_height != request.pixel_height as i32 {
        let mut m = "snapshot dimensions mismatch: expected ".to_owned();
        m.append(decimal_string(request.pixel_width as u64).as_str());
        m.append("x");
        m.append(decimal_string(request.pixel_height as u64).as_str());
        m.append(", got ");
        let sw = signed_decimal_chars(surface_width);
        m.append(string_from_chars(sw.as_slice()).as_str());
        m.append("x");
        let sh = signed_decimal_chars(surface_height);
        m.append(string_from_chars(sh.as_slice()).as_str());
        return Err(AppError::new(EXIT_RENDER_FAILURE, m));
    }
    Ok(())
}

/// An error with the status for an unreadable source.
pub open spec fn source_failure(message: Seq<char>) -> AppErrorView {
    AppErrorView { code: EXIT_SOURCE_FAILURE, message }
}

/// The check of the source file's metadata: it must be a regular file of at
/// most the Markdown size limit. `display` names the file in the message.
pub open spec fn source_metadata_check(is_file: bool, len: u64, display: Seq<char>) -> Result<
    (),
    AppErrorView,
> {
    if !is_file {
        Err(source_failure("source is not a regular file: "@ + display))
    } else if len > MAX_MARKDOWN_BYTES {
        Err(source_failure("source exceeds the 8388608 byte limit"@))
    } else {
        Ok(())
    }
}

/// Checks the source file's metadata.
pub fn check_source_metadata(is_file: bool, len: u64, display: &str) -> (r: Result<(), AppError>)
    ensures
        match r {
            Ok(()) => source_metadata_check(is_file, len, display@) is Ok,
            Err(e) => source_metadata_check(is_file, len, display@) == Err::<(), AppErrorView>(e@),
        },
{
    if !is_file {
        return Err(
            AppError::new(EXIT_SOURCE_FAILURE, joined("source is not a regular file: ", display)),
        );
    }
    if len > MAX_MARKDOWN_BYTES as u64 {
        return Err(
            AppError::new(EXIT_SOURCE_FAILURE, "source exceeds the 8388608 byte limit".to_owned()),
        );
    }
    Ok(())
}

/// Checks the number of bytes read from the source: at most the Markdown size
/// limit.
pub fn check_source_length(len: usize) -> (r: Result<(), AppError>)
    ensures
        len <= MAX_MARKDOWN_BYTES <==> r is Ok,
        r matches Err(e) ==> e@ == source_failure("source exceeds the 8388608 byte limit"@),
{
    if len > MAX_MARKDOWN_BYTES {
        return Err(
            AppError::new(EXIT_SOURCE_FAILURE, "source exceeds the 8388608 byte limit".to_owned()),
        );
    }
    Ok(())
}

/// The error for Markdown that cannot be rendered as a snapshot.
pub fn unsafe_content_error(e: &SnapshotInputError) -> (r: AppError)
    ensures
        r.code == EXIT_UNSAFE_CONTENT,
        r.message@ == "unsafe Markdown: "@ + error_message(e@),
{
    let m = e.message();
    AppError::new(EXIT_UNSAFE_CONTENT, joined("unsafe Markdown: ", m.as_str()))
}

/// The file name of the output path, which must end in `.png`.
pub open spec fn output_name(path: Seq<char>) -> Result<Seq<char>, AppErrorView> {
    if path_extension(path) != Some("png"@) {
        Err(invalid("--output must end in .png"@))
    } else {
        match file_name(path) {
            Some(name) => Ok(name),
            None => Err(invalid("--output must name a file"@)),
        }
    }
}

/// The file name of the output path.
pub fn output_file_name(path: &str) -> (r: Result<String, AppError>)
    ensures
        match r {
            Ok(name) => output_name(path@) == Ok::<Seq<char>, AppErrorView>(name@),
            Err(e) => output_name(path@) == Err::<Seq<char>, AppErrorView>(e@),
        },
{
    let p = chars_of(path);
    let png = chars_of("png");
    let is_png = match extension_of(p.as_slice()) {
        Some(ext) => eq_chars(ext.as_slice(), png.as_slice()),
        None => false,
    };
    if !is_png {
        return Err(AppError::invalid("--output must end in .png".to_owned()));
    }
    match file_name_of(p.as_slice()) {
        Some(name) => Ok(string_from_chars(name.as_slice())),
        None => Err(AppError::invalid("--output must name a file".to_owned())),
    }
}

/// The name of the temporary file that the output is written to before it
/// replaces the output: hidden, after the output's name, the process and the
/// attempt.
pub open spec fn temporary_name(name: Seq<char>, process: u32, attempt: u32) -> Seq<char> {
    seq!['.'] + name + ".md-preview-render."@ + decimal(process as nat) + seq!['.'] + decimal(
        attempt as nat,
    ) + ".tmp"@
}

/// The name of the temporary output file.
pub fn temporary_file_name(name: &str, process: u32, attempt: u32) -> (r: String)
    ensures
        r@ == temporary_name(name@, process, attempt),
{
    let mut t = ".".to_owned();
    proof {
        reveal_strlit(".");
    }
    assert(t@ =~= seq!['.']);
    t.append(name);
    t.append(".md-preview-render.");
    t.append(decimal_string(process as u64).as_str());
    let ghost before = t@;
    t.append(".");
    assert(t@ =~= before + seq!['.']);
    t.append(decimal_string(attempt as u64).as_str());
    t.append(".tmp");
    t
}

/// How many names the tool tries for the temporary output file.
pub const TEMPORARY_ATTEMPTS: u32 = 100;

/// An error with the status for an output failure.
pub open spec fn output_failure(message: Seq<char>) -> AppErrorView {
    AppErrorView { code: EXIT_OUTPUT_FAILURE, message }
}

/// The check of the output path: it must not name a directory. `display` names
/// the path in the message.
pub open spec fn output_target_check(is_dir: bool, display: Seq<char>) -> Result<(), AppErrorView> {
    if is_dir {
        Err(output_failure("output path is a directory: "@ + display))
    } else {
        Ok(())
    }
}

/// Checks that the output path does not name a directory.
pub fn check_output_target(is_dir: bool, display: &str) -> (r: Result<(), AppError>)
    ensures
        match r {
            Ok(()) => output_target_check(is_dir, display@) is Ok,
            Err(e) => output_target_check(is_dir, display@) == Err::<(), AppErrorView>(e@),
        },
{
    if is_dir {
        return Err(AppError::new(EXIT_OUTPUT_FAILURE, joined("output path is a directory: ", display)));
    }
    Ok(())
}

/// How creating a new temporary file went.
#[derive(Debug)]
pub enum CreateOutcome {
    /// The file was created.
    Created,
    /// A file of that name exists already.
    AlreadyExists,
    /// Creating failed for another reason (the error's text).
    Failed(String),
}

/// What to do after an attempt to create the temporary output file.
#[derive(Debug)]
pub enum TemporaryStep {
    /// Write to the file just created.
    Use,
    /// Try again with this attempt number.
    Retry(u32),
    /// Give up with this error.
    Fail(AppError),
}

/// The mathematical value of a `TemporaryStep`.
pub enum TemporaryStepView {
    Use,
    Retry(u32),
    Fail(AppErrorView),
}

impl View for TemporaryStep {
    type V = TemporaryStepView;

    open spec fn view(&self) -> TemporaryStepView {
        match self {
            TemporaryStep::Use => TemporaryStepView::Use,
            TemporaryStep::Retry(n) => TemporaryStepView::Retry(*n),
            TemporaryStep::Fail(e) => TemporaryStepView::Fail(e@),
        }
    }
}

/// The step after attempt `attempt` to create a temporary file in the directory
/// `parent` ended with `outcome`: a created file is used; a name that exists
/// already is retried with the next attempt, until all attempts are spent; any
/// other failure ends the search.
pub open spec fn temporary_step(attempt: u32, outcome: CreateOutcome, parent: Seq<char>) -> TemporaryStepView {
    match outcome {
        CreateOutcome::Created => TemporaryStepView::Use,
        CreateOutcome::AlreadyExists => if attempt + 1 < TEMPORARY_ATTEMPTS {
            TemporaryStepView::Retry((attempt + 1) as u32)
        } else {
            TemporaryStepView::Fail(output_failure("cannot allocate temporary output in "@ + parent))
        },
        CreateOutcome::Failed(e) => TemporaryStepView::Fail(
            output_failure("cannot create temporary output in "@ + parent + ": "@ + e@),
        ),
    }
}

/// Decides what follows an attempt to create the temporary output file.
pub fn after_create(attempt: u32, outcome: CreateOutcome, parent: &str) -> (r: TemporaryStep)
    requires
        attempt < TEMPORARY_ATTEMPTS,
    ensures
        r@ == temporary_step(attempt, outcome, parent@),
{
    match outcome {
        CreateOutcome::Created => TemporaryStep::Use,
        CreateOutcome::AlreadyExists => {
            if attempt + 1 < TEMPORARY_ATTEMPTS {
                TemporaryStep::Retry(attempt + 1)
            } else {
                TemporaryStep::Fail(
                    AppError::new(
                        EXIT_OUTPUT_FAILURE,
                        joined("cannot allocate temporary output in ", parent),
                    ),
                )
            }
        },
        CreateOutcome::Failed(e) => {
            let mut m = "cannot create temporary output in ".to_owned();
            m.append(parent);
            m.append(": ");
            m.append(e.as_str());
            TemporaryStep::Fail(AppError::new(EXIT_OUTPUT_FAILURE, m))
        },
    }
}

/// The temporary file search ends: every retry moves to a later attempt that
/// is still within the number of attempts.
pub proof fn lemma_temporary_search_ends(attempt: u32, outcome: CreateOutcome, parent: Seq<char>)
    requires
        attempt < TEMPORARY_ATTEMPTS,
    ensures
        temporary_step(attempt, outcome, parent) matches TemporaryStepView::Retry(next) ==> attempt
            < next < TEMPORARY_ATTEMPTS,
{
}

/// The check that the output does not replace the source: the two paths must
/// not have the same components (`Path` equality).
pub open spec fn output_source_check(output: Seq<char>, source: Seq<char>) -> Result<(), AppErrorView> {
    if path_components(output) == path_components(source) {
        Err(invalid("--output must not replace the source file"@))
    } else {
        Ok(())
    }
}

/// Checks that the output path is not the source path.
pub fn check_output_not_source(output: &str, source: &str) -> (r: Result<(), AppError>)
    ensures
        match r {
            Ok(()) => output_source_check(output@, source@) is Ok,
            Err(e) => output_source_check(output@, source@) == Err::<(), AppErrorView>(e@),
        },
{
    let a = components_of(chars_of(output).as_slice());
    let b = components_of(chars_of(source).as_slice());
    assert(views(a@).len() == a@.len() && views(b@).len() == b@.len());
    let mut same = a.len() == b.len();
    let mut i: usize = 0;
    while same && i < a.len()
        invariant
            views(a@) == path_components(output@),
            views(b@) == path_components(source@),
            i <= a@.len(),
            a@.len() == b@.len() || !same,
            same ==> forall|j: int| 0 <= j < i ==> views(a@)[j] == views(b@)[j],
            !same ==> views(a@) != views(b@),
        decreases a@.len() - i,
    {
        if !eq_chars(a[i].as_slice(), b[i].as_slice()) {
            assert(views(a@)[i as int] != views(b@)[i as int]);
            same = false;
        }
        i = i + 1;
    }
    if same {
        assert(views(a@) =~= views(b@));
        return Err(AppError::invalid("--output must not replace the source file".to_owned()));
    }
    Ok(())
}

} // verus!
