use unzip_tool::category::Category;
use unzip_tool::error::{terminal_status, ExtractionError, Severity, StatusEvent};
use unzip_tool::event::{EventQueue, Fraction, ProgressEvent};
use unzip_tool::extraction::Phase;
use unzip_tool::format::ArchiveFormat;
use unzip_tool::listing::CatalogRow;
use unzip_tool::protocol::{Reply, Request};
use unzip_tool::session::Session;

fn row(name: &str) -> CatalogRow {
    CatalogRow { name: name.to_string(), category: Category::Generic, preview: String::new() }
}

#[test]
fn new_session_is_ready() {
    let session = Session::new();
    assert_eq!(session.status().message, "Ready");
    assert_eq!(session.status().severity, Severity::Info);
    assert!(!session.is_extracting());
    assert_eq!(session.progress(), Fraction { numerator: 0, denominator: 1 });
    assert!(session.catalog().is_empty());
    assert_eq!(session.archive_path(), None);
    assert_eq!(session.output_dir(), None);
    assert!(!session.can_retry());
}

#[test]
fn selecting_an_archive_replaces_the_catalog() {
    let mut session = Session::new();
    session.select_archive("a.zip".to_string(), vec![row("one"), row("two")]);
    assert_eq!(session.archive_path(), Some("a.zip"));
    assert_eq!(session.catalog().len(), 2);
    session.select_archive("b.zip".to_string(), vec![row("three")]);
    assert_eq!(session.archive_path(), Some("b.zip"));
    assert_eq!(session.catalog().len(), 1);
    assert_eq!(session.catalog()[0].name, "three");
    session.select_archive("c.rar".to_string(), Vec::new());
    assert!(session.catalog().is_empty());
}

#[test]
fn extraction_needs_both_paths() {
    let mut session = Session::new();
    assert!(session.request_extraction().is_none());
    assert_eq!(session.status().message, "请同时选择压缩文件和输出目录");
    assert_eq!(session.status().severity, Severity::Error);
    assert!(!session.is_extracting());
    assert!(session.can_retry());

    session.select_archive("a.zip".to_string(), Vec::new());
    assert!(session.request_extraction().is_none());
    assert!(!session.is_extracting());

    let mut other = Session::new();
    other.select_output("out".to_string());
    assert_eq!(other.output_dir(), Some("out"));
    assert!(other.request_extraction().is_none());
    assert_eq!(other.status().severity, Severity::Error);
}

#[test]
fn extraction_with_both_paths_starts_a_job() {
    let mut session = Session::new();
    session.select_archive("archive.tar.gz".to_string(), Vec::new());
    session.select_output("out".to_string());
    let job = session.request_extraction().unwrap();
    assert_eq!(job.phase(), Phase::Idle);
    assert_eq!(job.format(), ArchiveFormat::GzipTar);
    assert!(session.is_extracting());
    assert_eq!(session.status().message, "正在解压...");
    assert_eq!(session.status().severity, Severity::Info);

    let mut progress = EventQueue::new();
    let mut statuses = EventQueue::new();
    let mut job = job;
    let request = job.start(&mut progress, &mut statuses);
    assert!(matches!(request, Request::CheckWritable { ref output_dir } if output_dir == "out"));
    let request = job.handle(Reply::Writable, &mut progress, &mut statuses);
    assert!(
        matches!(request, Request::OpenArchive { ref archive_path, .. } if archive_path == "archive.tar.gz")
    );
}

#[test]
fn second_request_while_extracting_is_a_no_op() {
    let mut session = Session::new();
    session.select_archive("a.zip".to_string(), Vec::new());
    session.select_output("out".to_string());
    assert!(session.request_extraction().is_some());
    assert!(session.request_extraction().is_none());
    assert!(session.is_extracting());
    assert_eq!(session.status().message, "正在解压...");
}

#[test]
fn retry_clears_an_error_status_only() {
    let mut session = Session::new();
    session.retry();
    assert_eq!(session.status().message, "Ready");

    session.request_extraction();
    assert!(session.can_retry());
    session.retry();
    assert_eq!(session.status().message, "准备重试...");
    assert_eq!(session.status().severity, Severity::Info);
    assert!(!session.can_retry());
}

#[test]
fn progress_events_are_taken_in() {
    let mut session = Session::new();
    session.select_archive("a.zip".to_string(), Vec::new());
    session.select_output("out".to_string());
    session.request_extraction();

    session.apply_progress(ProgressEvent::step(0, 2));
    assert_eq!(session.progress(), Fraction { numerator: 1, denominator: 2 });
    assert!(session.is_extracting());
    session.apply_progress(ProgressEvent::step(1, 2));
    assert!(session.is_extracting());
    session.apply_progress(ProgressEvent::terminal());
    assert_eq!(session.progress(), Fraction::whole());
    assert!(!session.is_extracting());
}

#[test]
fn status_events_are_taken_in() {
    let mut session = Session::new();
    session.apply_status(terminal_status(Err(ExtractionError::WriteFailure)));
    assert_eq!(session.status().severity, Severity::Error);
    assert_eq!(session.status().message, "错误: 无法写入文件，磁盘可能已满或没有权限");
    session.apply_status(StatusEvent { message: "ok".to_string(), severity: Severity::Success });
    assert_eq!(session.status().message, "ok");
}

#[test]
fn polling_drains_both_queues_in_order() {
    let mut session = Session::new();
    session.select_archive("a.zip".to_string(), Vec::new());
    session.select_output("out".to_string());
    session.request_extraction();

    let mut progress = EventQueue::new();
    let mut statuses = EventQueue::new();
    session.poll(&mut progress, &mut statuses);
    assert!(session.is_extracting());
    assert_eq!(session.status().message, "正在解压...");

    progress.send(ProgressEvent::step(0, 3));
    progress.send(ProgressEvent::step(1, 3));
    session.poll(&mut progress, &mut statuses);
    assert!(progress.is_empty());
    assert_eq!(session.progress(), Fraction { numerator: 2, denominator: 3 });
    assert!(session.is_extracting());

    progress.send(ProgressEvent::step(2, 3));
    progress.send(ProgressEvent::terminal());
    statuses.send(terminal_status(Ok(())));
    session.poll(&mut progress, &mut statuses);
    assert!(progress.is_empty());
    assert!(statuses.is_empty());
    assert_eq!(session.progress(), Fraction::whole());
    assert!(!session.is_extracting());
    assert_eq!(session.status().severity, Severity::Success);
    assert_eq!(session.status().message, "解压成功！");
}

#[test]
fn session_is_released_when_its_job_fails() {
    let mut session = Session::new();
    session.select_archive("a.zip".to_string(), Vec::new());
    session.select_output("out".to_string());
    let mut job = session.request_extraction().unwrap();
    let mut progress = EventQueue::new();
    let mut statuses = EventQueue::new();
    job.start(&mut progress, &mut statuses);
    job.handle(Reply::ReadOnly, &mut progress, &mut statuses);
    session.poll(&mut progress, &mut statuses);
    assert!(!session.is_extracting());
    assert!(session.can_retry());
    assert_eq!(session.status().message, "错误: 输出目录是只读的，请检查权限");
    assert!(session.request_extraction().is_some());
}
