use vstd::prelude::*;

use crate::text::{decimal, push_decimal, push_str};

verus! {

/// Errors of the download engine.
#[derive(Debug, Clone, PartialEq, Eq)]
pub enum NebulaError {
    /// No task has this id.
    TaskNotFound(String),
    /// The task's state does not allow the action (pausing a finished task).
    InvalidTaskState { current: String, action: String },
    /// A task with this id is already registered.
    TaskAlreadyExists(String),
    /// The source's protocol is not supported.
    UnsupportedProtocol(String),
    /// The URL is malformed.
    InvalidUrl(String),
    /// The magnet link is malformed.
    InvalidMagnet(String),
    /// The torrent metainfo could not be read.
    TorrentParseError(String),
    /// The connection failed.
    NetworkError(String),
    /// The server answered with a status that is not a success.
    HttpError { status_code: u16, message: String },
    /// The server does not accept byte ranges.
    ResumeNotSupported,
    /// A connect or read timeout expired.
    Timeout(String),
    /// A file operation failed.
    IoError { path: String, message: String },
    /// Not enough room on the disk.
    InsufficientDiskSpace { required: u64, available: u64 },
    /// The operation is not permitted.
    PermissionDenied(String),
    /// The DHT could not be started.
    DhtError(String),
    /// A tracker could not be reached.
    TrackerError(String),
    /// No peer offers the torrent.
    NoPeersAvailable,
    /// The configuration is invalid.
    InvalidConfig(String),
    /// An unexpected internal failure.
    Internal(String),
}

impl NebulaError {
    /// The user-facing message of this error.
    pub open spec fn message(&self) -> Seq<char> {
        match self {
            NebulaError::TaskNotFound(s) => "任务不存在: "@ + s@,
            NebulaError::InvalidTaskState { current, action } => "任务状态无效: 当前状态为 "@ + current@
                + "，无法执行 "@ + action@,
            NebulaError::TaskAlreadyExists(s) => "任务已存在: "@ + s@,
            NebulaError::UnsupportedProtocol(s) => "不支持的协议: "@ + s@,
            NebulaError::InvalidUrl(s) => "无效的 URL: "@ + s@,
            NebulaError::InvalidMagnet(s) => "无效的磁力链接: "@ + s@,
            NebulaError::TorrentParseError(s) => "Torrent 文件解析失败: "@ + s@,
            NebulaError::NetworkError(s) => "网络连接失败: "@ + s@,
            NebulaError::HttpError { status_code, message } => "HTTP 请求失败: 状态码 "@ + decimal(
                *status_code as nat,
            ) + " - "@ + message@,
            NebulaError::ResumeNotSupported => "服务器不支持断点续传"@,
            NebulaError::Timeout(s) => "连接超时: "@ + s@,
            NebulaError::IoError { path, message } => "文件操作失败: "@ + path@ + " - "@ + message@,
            NebulaError::InsufficientDiskSpace { required, available } => "磁盘空间不足: 需要 "@
                + decimal(*required as nat) + " 字节，可用 "@ + decimal(*available as nat)
                + " 字节"@,
            NebulaError::PermissionDenied(s) => "权限不足: "@ + s@,
            NebulaError::DhtError(s) => "DHT 网络启动失败: "@ + s@,
            NebulaError::TrackerError(s) => "Tracker 连接失败: "@ + s@,
            NebulaError::NoPeersAvailable => "没有可用的 Peer"@,
            NebulaError::InvalidConfig(s) => "配置无效: "@ + s@,
            NebulaError::Internal(s) => "内部错误: "@ + s@,
        }
    }

    /// Renders the user-facing message.
    pub fn to_string(&self) -> (r: String)
        ensures
            r@ == self.message(),
    {
        let mut r = String::new();
        match self {
            NebulaError::TaskNotFound(s) => {
                push_str(&mut r, "任务不存在: ");
                push_str(&mut r, s.as_str());
            },
            NebulaError::InvalidTaskState { current, action } => {
                push_str(&mut r, "任务状态无效: 当前状态为 ");
                push_str(&mut r, current.as_str());
                push_str(&mut r, "，无法执行 ");
                push_str(&mut r, action.as_str());
            },
            NebulaError::TaskAlreadyExists(s) => {
                push_str(&mut r, "任务已存在: ");
                push_str(&mut r, s.as_str());
            },
            NebulaError::UnsupportedProtocol(s) => {
                push_str(&mut r, "不支持的协议: ");
                push_str(&mut r, s.as_str());
            },
            NebulaError::InvalidUrl(s) => {
                push_str(&mut r, "无效的 URL: ");
                push_str(&mut r, s.as_str());
            },
            NebulaError::InvalidMagnet(s) => {
                push_str(&mut r, "无效的磁力链接: ");
                push_str(&mut r, s.as_str());
            },
            NebulaError::TorrentParseError(s) => {
                push_str(&mut r, "Torrent 文件解析失败: ");
                push_str(&mut r, s.as_str());
            },
            NebulaError::NetworkError(s) => {
                push_str(&mut r, "网络连接失败: ");
                push_str(&mut r, s.as_str());
            },
            NebulaError::HttpError { status_code, message } => {
                push_str(&mut r, "HTTP 请求失败: 状态码 ");
                push_decimal(&mut r, *status_code as u128);
                push_str(&mut r, " - ");
                push_str(&mut r, message.as_str());
            },
            NebulaError::ResumeNotSupported => {
                push_str(&mut r, "服务器不支持断点续传");
            },
            NebulaError::Timeout(s) => {
                push_str(&mut r, "连接超时: ");
                push_str(&mut r, s.as_str());
            },
            NebulaError::IoError { path, message } => {
                push_str(&mut r, "文件操作失败: ");
                push_str(&mut r, path.as_str());
                push_str(&mut r, " - ");
                push_str(&mut r, message.as_str());
            },
            NebulaError::InsufficientDiskSpace { required, available } => {
                push_str(&mut r, "磁盘空间不足: 需要 ");
                push_decimal(&mut r, *required as u128);
                push_str(&mut r, " 字节，可用 ");
                push_decimal(&mut r, *available as u128);
                push_str(&mut r, " 字节");
            },
            NebulaError::PermissionDenied(s) => {
                push_str(&mut r, "权限不足: ");
                push_str(&mut r, s.as_str());
            },
            NebulaError::DhtError(s) => {
                push_str(&mut r, "DHT 网络启动失败: ");
                push_str(&mut r, s.as_str());
            },
            NebulaError::TrackerError(s) => {
                push_str(&mut r, "Tracker 连接失败: ");
                push_str(&mut r, s.as_str());
            },
            NebulaError::NoPeersAvailable => {
                push_str(&mut r, "没有可用的 Peer");
            },
            NebulaError::InvalidConfig(s) => {
                push_str(&mut r, "配置无效: ");
                push_str(&mut r, s.as_str());
            },
            NebulaError::Internal(s) => {
                push_str(&mut r, "内部错误: ");
                push_str(&mut r, s.as_str());
            },
        }
        r
    }
}

/// The error for a failed HTTP exchange, from what the client reports of it: a timeout,
/// a failed connection, a status the server sent, or anything else.
pub fn from_transport(timeout: bool, connect: bool, status: Option<u16>, message: String) -> (r: NebulaError)
    ensures
        timeout ==> r == NebulaError::Timeout(message),
        !timeout && connect ==> r == NebulaError::NetworkError(message),
        !timeout && !connect && status is Some ==> r == (NebulaError::HttpError {
            status_code: status->0,
            message,
        }),
        !timeout && !connect && status is None ==> r == NebulaError::NetworkError(message),
{
    if timeout {
        NebulaError::Timeout(message)
    } else if connect {
        NebulaError::NetworkError(message)
    } else {
        match status {
            Some(status_code) => NebulaError::HttpError { status_code, message },
            None => NebulaError::NetworkError(message),
        }
    }
}

/// The error for a failed file operation on `path`.
pub fn io_error(path: String, message: String) -> (r: NebulaError)
    ensures
        r == (NebulaError::IoError { path, message }),
{
    NebulaError::IoError { path, message }
}

} // verus!
