use unzip_tool::error::{terminal_status, ExtractionError, Severity, StatusEvent};
use unzip_tool::event::{EventQueue, Fraction, ProgressEvent};

#[test]
fn queue_hands_events_out_oldest_first() {
    let mut queue = EventQueue::new();
    assert!(queue.is_empty());
    queue.send(1u32);
    queue.send(2);
    queue.send(3);
    assert_eq!(queue.len(), 3);
    assert_eq!(queue.try_recv(), Some(1));
    queue.send(4);
    assert_eq!(queue.try_recv(), Some(2));
    assert_eq!(queue.try_recv(), Some(3));
    assert_eq!(queue.try_recv(), Some(4));
    assert_eq!(queue.try_recv(), None);
    assert!(queue.is_empty());
}

#[test]
fn receiving_from_an_empty_queue_gives_nothing() {
    let mut queue: EventQueue<ProgressEvent> = EventQueue::new();
    assert_eq!(queue.try_recv(), None);
    assert_eq!(queue.try_recv(), None);
    assert_eq!(queue.len(), 0);
}

#[test]
fn queue_buffers_many_events() {
    let mut queue = EventQueue::new();
    for i in 0..10_000usize {
        queue.send(i);
    }
    assert_eq!(queue.len(), 10_000);
    for i in 0..10_000usize {
        assert_eq!(queue.try_recv(), Some(i));
    }
    assert_eq!(queue.try_recv(), None);
}

#[test]
fn step_event_counts_from_one() {
    let first = ProgressEvent::step(0, 4);
    assert_eq!(first.fraction, Fraction { numerator: 1, denominator: 4 });
    assert!(!first.finished);
    let last = ProgressEvent::step(3, 4);
    assert_eq!(last.fraction, Fraction { numerator: 4, denominator: 4 });
    assert!(!last.finished);
    assert!(last.fraction.is_complete());
    assert!(!first.fraction.is_complete());
}

#[test]
fn terminal_event_is_whole_and_finished() {
    let event = ProgressEvent::terminal();
    assert!(event.finished);
    assert_eq!(event.fraction, Fraction::whole());
    assert_eq!(event.fraction, Fraction { numerator: 1, denominator: 1 });
    assert!(event.fraction.is_complete());
    assert_eq!(event.fraction.numerator as f32 / event.fraction.denominator as f32, 1.0);
}

#[test]
fn fraction_without_denominator_is_not_complete() {
    assert!(!Fraction { numerator: 0, denominator: 0 }.is_complete());
    assert!(!Fraction { numerator: 0, denominator: 1 }.is_complete());
}

#[test]
fn user_messages_of_the_error_categories() {
    assert_eq!(ExtractionError::ReadOnlyOutput.user_message(), "输出目录是只读的，请检查权限");
    assert_eq!(ExtractionError::UnsupportedFormat.user_message(), "不支持的文件格式");
    assert_eq!(ExtractionError::CorruptArchive.user_message(), "无法读取压缩文件，文件可能已损坏");
    assert_eq!(ExtractionError::WriteFailure.user_message(), "无法写入文件，磁盘可能已满或没有权限");
    assert_eq!(ExtractionError::Unknown.user_message(), "解压过程中发生未知错误");
}

#[test]
fn terminal_status_of_success() {
    let status = terminal_status(Ok(()));
    assert_eq!(status.severity, Severity::Success);
    assert_eq!(status.message, "解压成功！");
}

#[test]
fn terminal_status_of_each_failure() {
    for error in [
        ExtractionError::ReadOnlyOutput,
        ExtractionError::UnsupportedFormat,
        ExtractionError::CorruptArchive,
        ExtractionError::WriteFailure,
        ExtractionError::Unknown,
    ] {
        let status = terminal_status(Err(error));
        assert_eq!(status.severity, Severity::Error);
        assert_eq!(status.message, format!("错误: {}", error.user_message()));
    }
    assert_eq!(
        terminal_status(Err(ExtractionError::Unknown)).message,
        "错误: 解压过程中发生未知错误"
    );
}

#[test]
fn status_events_can_be_cloned() {
    let status = StatusEvent { message: "Ready".to_string(), severity: Severity::Info };
    let copy = status.clone();
    assert_eq!(copy.message, "Ready");
    assert_eq!(copy.severity, Severity::Info);
}

#[test]
fn marks_of_the_severities() {
    assert_eq!(Severity::Info.mark(), "\u{2139}\u{fe0f}");
    assert_eq!(Severity::Success.mark(), "\u{2705}");
    assert_eq!(Severity::Error.mark(), "\u{274c}");
}
