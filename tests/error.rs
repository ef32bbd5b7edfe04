use nebula_core::error::from_transport;
use nebula_core::NebulaError;

#[test]
fn test_error_display() {
    let err = NebulaError::TaskNotFound("task-123".to_string());
    assert!(err.to_string().contains("task-123"));

    let err = NebulaError::InvalidTaskState {
        current: "已完成".to_string(),
        action: "暂停".to_string(),
    };
    assert!(err.to_string().contains("已完成"));
    assert!(err.to_string().contains("暂停"));
}

#[test]
fn error_messages_with_numbers() {
    let err = NebulaError::HttpError { status_code: 404, message: "missing".to_string() };
    assert_eq!(err.to_string(), "HTTP 请求失败: 状态码 404 - missing");
    let err = NebulaError::InsufficientDiskSpace { required: 10, available: 3 };
    assert_eq!(err.to_string(), "磁盘空间不足: 需要 10 字节，可用 3 字节");
    assert_eq!(NebulaError::ResumeNotSupported.to_string(), "服务器不支持断点续传");
}

#[test]
fn transport_errors_are_classified() {
    assert_eq!(from_transport(true, true, Some(500), "t".to_string()), NebulaError::Timeout("t".to_string()));
    assert_eq!(from_transport(false, true, None, "c".to_string()), NebulaError::NetworkError("c".to_string()));
    assert_eq!(
        from_transport(false, false, Some(503), "s".to_string()),
        NebulaError::HttpError { status_code: 503, message: "s".to_string() }
    );
    assert_eq!(from_transport(false, false, None, "o".to_string()), NebulaError::NetworkError("o".to_string()));
}

#[test]
fn every_variant_has_its_message() {
    let s = |x: &str| x.to_string();
    let cases = vec![
        (NebulaError::TaskAlreadyExists(s("a")), "任务已存在: a"),
        (NebulaError::UnsupportedProtocol(s("FTP")), "不支持的协议: FTP"),
        (NebulaError::InvalidUrl(s("u")), "无效的 URL: u"),
        (NebulaError::InvalidMagnet(s("m")), "无效的磁力链接: m"),
        (NebulaError::TorrentParseError(s("t")), "Torrent 文件解析失败: t"),
        (NebulaError::Timeout(s("x")), "连接超时: x"),
        (NebulaError::IoError { path: s("/p"), message: s("m") }, "文件操作失败: /p - m"),
        (NebulaError::PermissionDenied(s("p")), "权限不足: p"),
        (NebulaError::DhtError(s("d")), "DHT 网络启动失败: d"),
        (NebulaError::TrackerError(s("t")), "Tracker 连接失败: t"),
        (NebulaError::NoPeersAvailable, "没有可用的 Peer"),
        (NebulaError::InvalidConfig(s("c")), "配置无效: c"),
        (NebulaError::Internal(s("i")), "内部错误: i"),
    ];
    for (e, m) in cases {
        assert_eq!(e.to_string(), m);
    }
}
