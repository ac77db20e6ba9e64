//! Why a job fails, and what its terminal status says.

use vstd::prelude::*;
use vstd::string::StringExecFns;

verus! {

/// The categories of failure of a listing or an extraction.
#[derive(Clone, Copy, Debug, PartialEq, Eq, Structural)]
pub enum ExtractionError {
    /// The permission bits of the output directory mark it read-only.
    ReadOnlyOutput,
    /// The extension of the archive path names no supported container.
    UnsupportedFormat,
    /// The archive could not be read, or its structure is malformed.
    CorruptArchive,
    /// A directory or file below the output directory could not be written.
    WriteFailure,
    /// Anything else.
    Unknown,
}

/// Which side of an operation went wrong, as the driver reports it.
#[derive(Clone, Copy, Debug, PartialEq, Eq, Structural)]
pub enum Fault {
    /// Reading the archive failed.
    Archive,
    /// Writing below the output directory failed.
    Write,
    /// The operation failed for another reason.
    Other,
}

/// How a status message is to be taken.
#[derive(Clone, Copy, Debug, PartialEq, Eq, Structural)]
pub enum Severity {
    Info,
    Success,
    Error,
}

/// A human-readable status message with its severity.
#[derive(Debug)]
pub struct StatusEvent {
    pub message: String,
    pub severity: Severity,
}

/// What a status event says, as plain values.
pub struct StatusView {
    pub message: Seq<char>,
    pub severity: Severity,
}

impl View for StatusEvent {
    type V = StatusView;

    open spec fn view(&self) -> StatusView {
        StatusView { message: self.message@, severity: self.severity }
    }
}

impl Clone for StatusEvent {
    fn clone(&self) -> (copy: Self)
        ensures
            copy@ == self@,
    {
        StatusEvent { message: self.message.clone(), severity: self.severity }
    }
}

/// The views of a sequence of status events, in order.
pub open spec fn status_views(events: Seq<StatusEvent>) -> Seq<StatusView> {
    events.map_values(|event: StatusEvent| event@)
}

/// The failure category that a fault reported by the driver stands for.
pub open spec fn error_of_fault(fault: Fault) -> ExtractionError {
    match fault {
        Fault::Archive => ExtractionError::CorruptArchive,
        Fault::Write => ExtractionError::WriteFailure,
        Fault::Other => ExtractionError::Unknown,
    }
}

/// The message that opens every error status.
pub open spec fn error_prefix() -> Seq<char> {
    "错误: "@
}

/// The message of the status that reports success.
pub open spec fn success_message() -> Seq<char> {
    "解压成功！"@
}

/// The terminal status of a job that ended with `outcome`.
pub open spec fn terminal_status_view(outcome: Result<(), ExtractionError>) -> StatusView {
    match outcome {
        Ok(_) => StatusView { message: success_message(), severity: Severity::Success },
        Err(error) => StatusView {
            message: error_prefix() + error.explanation(),
            severity: Severity::Error,
        },
    }
}

impl Severity {
    /// The mark that stands in front of a status of this severity.
    pub open spec fn mark_text(self) -> Seq<char> {
        match self {
            Severity::Info => "\u{2139}\u{fe0f}"@,
            Severity::Success => "\u{2705}"@,
            Severity::Error => "\u{274c}"@,
        }
    }

    /// The mark that stands in front of a status of this severity.
    pub fn mark(&self) -> (mark: &'static str)
        ensures
            mark@ == self.mark_text(),
    {
        match self {
            Severity::Info => "\u{2139}\u{fe0f}",
            Severity::Success => "\u{2705}",
            Severity::Error => "\u{274c}",
        }
    }
}

impl Fault {
    /// The failure category that this fault stands for.
    pub fn to_error(&self) -> (error: ExtractionError)
        ensures
            error == error_of_fault(*self),
    {
        match self {
            Fault::Archive => ExtractionError::CorruptArchive,
            Fault::Write => ExtractionError::WriteFailure,
            Fault::Other => ExtractionError::Unknown,
        }
    }
}

impl ExtractionError {
    /// The fixed text that tells the user about a failure of this category.
    pub open spec fn explanation(self) -> Seq<char> {
        match self {
            ExtractionError::ReadOnlyOutput => "输出目录是只读的，请检查权限"@,
            ExtractionError::UnsupportedFormat => "不支持的文件格式"@,
            ExtractionError::CorruptArchive => "无法读取压缩文件，文件可能已损坏"@,
            ExtractionError::WriteFailure => "无法写入文件，磁盘可能已满或没有权限"@,
            ExtractionError::Unknown => "解压过程中发生未知错误"@,
        }
    }

    /// The fixed text that tells the user about a failure of this category. It
    /// depends on the category alone, never on the underlying cause.
    pub fn user_message(&self) -> (text: &'static str)
        ensures
            text@ == self.explanation(),
    {
        match self {
            ExtractionError::ReadOnlyOutput => "输出目录是只读的，请检查权限",
            ExtractionError::UnsupportedFormat => "不支持的文件格式",
            ExtractionError::CorruptArchive => "无法读取压缩文件，文件可能已损坏",
            ExtractionError::WriteFailure => "无法写入文件，磁盘可能已满或没有权限",
            ExtractionError::Unknown => "解压过程中发生未知错误",
        }
    }
}

/// The terminal status of a job: the success message, or the error prefix
/// followed by the explanation of the failure category.
pub fn terminal_status(outcome: Result<(), ExtractionError>) -> (status: StatusEvent)
    ensures
        status@ == terminal_status_view(outcome),
{
    match outcome {
        Ok(_) => StatusEvent { message: "解压成功！".to_owned(), severity: Severity::Success },
        Err(error) => {
            let message = "错误: ".to_owned().concat(error.user_message());
            StatusEvent { message, severity: Severity::Error }
        },
    }
}

} // verus!
