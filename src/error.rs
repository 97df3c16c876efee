//! Errors of the provisioning core.

use vstd::prelude::*;
use crate::text::join2;

verus! {

/// Errors that end an operation. Outside failures (disk, JSON, network)
/// arrive as their message text.
pub enum AppError {
    Io(String),
    Serde(String),
    Network(String),
    PathResolution,
    InstanceNotFound(String),
    Generic(String),
    /// No base directory has been configured.
    NoBaseDirectory,
    /// The version index has no entry with this id.
    VersionNotFound(String),
    /// The descriptor names no core archive URL.
    MissingCoreUrl,
    /// An asset hash is too short to have a two-character prefix.
    MalformedAssetIndex,
}

/// The human-readable text of an error.
pub open spec fn error_text(e: AppError) -> Seq<char> {
    match e {
        AppError::Io(m) => "I/O Error: "@ + m@,
        AppError::Serde(m) => "JSON Error: "@ + m@,
        AppError::Network(m) => "Network Error: "@ + m@,
        AppError::PathResolution => "Failed to resolve AppData directory"@,
        AppError::InstanceNotFound(p) => "Instance path not found: "@ + p@,
        AppError::Generic(m) => m@,
        AppError::NoBaseDirectory => "尚未配置基础数据目录"@,
        AppError::VersionNotFound(id) => "未找到目标版本 URL: "@ + id@,
        AppError::MissingCoreUrl => "JSON 中无客户端 URL"@,
        AppError::MalformedAssetIndex => "资源索引中有不足两个字符的哈希"@,
    }
}

impl AppError {
    /// The human-readable text of this error.
    pub fn message(&self) -> (r: String)
        ensures
            r@ == error_text(*self),
    {
        match self {
            AppError::Io(m) => join2("I/O Error: ", m.as_str()),
            AppError::Serde(m) => join2("JSON Error: ", m.as_str()),
            AppError::Network(m) => join2("Network Error: ", m.as_str()),
            AppError::PathResolution => String::from_str("Failed to resolve AppData directory"),
            AppError::InstanceNotFound(p) => join2("Instance path not found: ", p.as_str()),
            AppError::Generic(m) => m.clone(),
            AppError::NoBaseDirectory => String::from_str("尚未配置基础数据目录"),
            AppError::VersionNotFound(id) => join2("未找到目标版本 URL: ", id.as_str()),
            AppError::MissingCoreUrl => String::from_str("JSON 中无客户端 URL"),
            AppError::MalformedAssetIndex => String::from_str(
                "资源索引中有不足两个字符的哈希",
            ),
        }
    }
}

} // verus!
