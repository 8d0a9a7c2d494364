//! The application-level error type shared by configuration, history and
//! pipeline plumbing, with user-facing messages.

use vstd::prelude::*;

verus! {

/// What can go wrong around the pipeline: configuration problems, file
/// system and per-file failures, and cooperative cancellation. Payloads are
/// plain messages or paths rendered as text.
#[derive(Debug, Clone)]
pub enum AppError {
    ConfigError(String),
    IoError(String),
    ProcessingError(String),
    InvalidDirectory(String),
    ProcessorNotFound(String),
    ExcelError(String),
    TomlDeserializeError(String),
    TomlSerializeError(String),
    HistoryError(String),
    DirectoryNotFound(String),
    DirectoryNotReadable(String),
    DirectoryNotWritable(String),
    InsufficientDiskSpace,
    OperationCancelled,
    PolarsError(String),
}

/// The user-facing message of each error.
pub open spec fn spec_user_message(e: AppError) -> Seq<char> {
    match e {
        AppError::ConfigError(m) => "配置错误: "@ + m@,
        AppError::IoError(m) => "文件操作失败: "@ + m@,
        AppError::ProcessingError(m) => "处理失败: "@ + m@,
        AppError::InvalidDirectory(p) => "无效的目录: "@ + p@,
        AppError::ProcessorNotFound(id) => "未找到处理器: "@ + id@,
        AppError::ExcelError(m) => "Excel 文件错误: "@ + m@,
        AppError::TomlDeserializeError(m) => "配置文件解析失败: "@ + m@,
        AppError::TomlSerializeError(m) => "配置文件保存失败: "@ + m@,
        AppError::HistoryError(m) => "历史记录错误: "@ + m@,
        AppError::DirectoryNotFound(p) => "目录不存在: "@ + p@,
        AppError::DirectoryNotReadable(p) => "目录不可读: "@ + p@,
        AppError::DirectoryNotWritable(p) => "目录不可写: "@ + p@,
        AppError::InsufficientDiskSpace => "磁盘空间不足"@,
        AppError::OperationCancelled => "操作已取消"@,
        AppError::PolarsError(m) => "数据处理错误: "@ + m@,
    }
}

impl AppError {
    /// Builds a configuration error.
    pub fn config_error(msg: &str) -> (e: AppError)
        ensures
            e matches AppError::ConfigError(m) && m@ == msg@,
    {
        AppError::ConfigError(msg.to_owned())
    }

    /// Builds a processing error.
    pub fn processing_error(msg: &str) -> (e: AppError)
        ensures
            e matches AppError::ProcessingError(m) && m@ == msg@,
    {
        AppError::ProcessingError(msg.to_owned())
    }

    /// Builds a workbook error.
    pub fn excel_error(msg: &str) -> (e: AppError)
        ensures
            e matches AppError::ExcelError(m) && m@ == msg@,
    {
        AppError::ExcelError(msg.to_owned())
    }

    /// Builds a history error.
    pub fn history_error(msg: &str) -> (e: AppError)
        ensures
            e matches AppError::HistoryError(m) && m@ == msg@,
    {
        AppError::HistoryError(msg.to_owned())
    }

    /// Builds a tabular-data error.
    pub fn polars_error(msg: &str) -> (e: AppError)
        ensures
            e matches AppError::PolarsError(m) && m@ == msg@,
    {
        AppError::PolarsError(msg.to_owned())
    }

    /// Whether this is a file I/O error.
    pub fn is_io_error(&self) -> (r: bool)
        ensures
            r == (self is IoError),
    {
        match self {
            AppError::IoError(_) => true,
            _ => false,
        }
    }

    /// Whether this is a configuration error.
    pub fn is_config_error(&self) -> (r: bool)
        ensures
            r == (self is ConfigError),
    {
        match self {
            AppError::ConfigError(_) => true,
            _ => false,
        }
    }

    /// Whether this is a processing error.
    pub fn is_processing_error(&self) -> (r: bool)
        ensures
            r == (self is ProcessingError),
    {
        match self {
            AppError::ProcessingError(_) => true,
            _ => false,
        }
    }

    /// Renders the user-facing message, exactly as [`spec_user_message`]
    /// states it.
    pub fn user_message(&self) -> (r: String)
        ensures
            r@ == spec_user_message(*self),
    {
        match self {
            AppError::ConfigError(m) => {
                let mut s = "配置错误: ".to_owned();
                s.append(m.as_str());
                s
            },
            AppError::IoError(m) => {
                let mut s = "文件操作失败: ".to_owned();
                s.append(m.as_str());
                s
            },
            AppError::ProcessingError(m) => {
                let mut s = "处理失败: ".to_owned();
                s.append(m.as_str());
                s
            },
            AppError::InvalidDirectory(p) => {
                let mut s = "无效的目录: ".to_owned();
                s.append(p.as_str());
                s
            },
            AppError::ProcessorNotFound(id) => {
                let mut s = "未找到处理器: ".to_owned();
                s.append(id.as_str());
                s
            },
            AppError::ExcelError(m) => {
                let mut s = "Excel 文件错误: ".to_owned();
                s.append(m.as_str());
                s
            },
            AppError::TomlDeserializeError(m) => {
                let mut s = "配置文件解析失败: ".to_owned();
                s.append(m.as_str());
                s
            },
            AppError::TomlSerializeError(m) => {
                let mut s = "配置文件保存失败: ".to_owned();
                s.append(m.as_str());
                s
            },
            AppError::HistoryError(m) => {
                let mut s = "历史记录错误: ".to_owned();
                s.append(m.as_str());
                s
            },
            AppError::DirectoryNotFound(p) => {
                let mut s = "目录不存在: ".to_owned();
                s.append(p.as_str());
                s
            },
            AppError::DirectoryNotReadable(p) => {
                let mut s = "目录不可读: ".to_owned();
                s.append(p.as_str());
                s
            },
            AppError::DirectoryNotWritable(p) => {
                let mut s = "目录不可写: ".to_owned();
                s.append(p.as_str());
                s
            },
            AppError::InsufficientDiskSpace => "磁盘空间不足".to_owned(),
            AppError::OperationCancelled => "操作已取消".to_owned(),
            AppError::PolarsError(m) => {
                let mut s = "数据处理错误: ".to_owned();
                s.append(m.as_str());
                s
            },
        }
    }
}

} // verus!
