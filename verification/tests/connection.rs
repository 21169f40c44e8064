use meter_core::connection::{
    ConnectionCommand, ConnectionResult, ConnectionStatus, SerialDataBits, SerialParity,
    SerialSettings, SerialStopBits, StartFailure,
};

fn serial(path: &str) -> ConnectionCommand {
    ConnectionCommand::ConnectSerial {
        path: path.to_string(),
        settings: SerialSettings::default(),
    }
}

#[test]
fn the_usual_line_settings() {
    assert_eq!(
        SerialSettings::default(),
        SerialSettings {
            baud_rate: 2400,
            data_bits: SerialDataBits::Eight,
            parity: SerialParity::Even,
            stop_bits: SerialStopBits::One
        }
    );
}

#[test]
fn a_serial_connection_needs_a_port() {
    let refused = serial("").refused().unwrap();
    assert!(!refused.success);
    assert_eq!(refused.message, "请选择本机串口");
    assert!(serial("COM3").refused().is_none());
    assert!(ConnectionCommand::StopAll.refused().is_none());
}

#[test]
fn results_say_what_was_done() {
    let said = |c: &ConnectionCommand| c.result(Ok(())).message;
    assert_eq!(said(&serial("COM3")), "串口 COM3 已启动");
    assert_eq!(said(&ConnectionCommand::DisconnectSerial), "串口已断开");
    let client = ConnectionCommand::ConnectTcpClient { address: "h:1".to_string() };
    assert_eq!(said(&client), "已连接 TCP 服务端 h:1");
    assert_eq!(said(&ConnectionCommand::DisconnectTcpClient), "TCP 客户端已断开");
    let server = ConnectionCommand::StartTcpServer { address: "h:2".to_string() };
    assert_eq!(said(&server), "TCP 服务已在 h:2 启动");
    assert_eq!(said(&ConnectionCommand::StopTcpServer), "TCP 服务端已停止");
    assert_eq!(said(&ConnectionCommand::StopAll), "已停止全部监听连接");

    let failed = |c: &ConnectionCommand, e: StartFailure| {
        let r = c.result(Err(e));
        assert!(!r.success);
        r.message
    };
    let text = || "x".to_string();
    assert_eq!(failed(&serial("COM3"), StartFailure::Serial { error: text() }), "x");
    assert_eq!(failed(&server, StartFailure::Bind { error: text() }), "TCP 服务启动失败: x");
    assert_eq!(failed(&client, StartFailure::Reach { error: text() }), "TCP 连接失败: x");
    assert_eq!(failed(&client, StartFailure::RouterClosed), "Router 通道已关闭");
}

#[test]
fn ports_are_counted() {
    let found = ConnectionResult::ports_found(Ok(vec!["a".to_string(); 12]));
    assert!(found.success);
    assert_eq!(found.message, "检测到 12 个本机串口");
    assert_eq!(found.serial_ports.len(), 12);
    let failed = ConnectionResult::ports_found(Err("no".to_string()));
    assert!(!failed.success);
    assert_eq!(failed.message, "读取本机串口失败: no");
}

#[test]
fn the_status_follows_the_connections() {
    let mut status = ConnectionStatus::default();
    let server = ConnectionCommand::StartTcpServer { address: "h:2".to_string() };
    status.close_for(&server);
    status.opened_by(&server);
    let client = ConnectionCommand::ConnectTcpClient { address: "h:1".to_string() };
    status.opened_by(&client);
    status.opened_by(&serial("COM3"));
    assert_eq!(status.serial_path.as_deref(), Some("COM3"));
    assert_eq!(status.tcp_client_addr.as_deref(), Some("h:1"));
    assert_eq!(status.tcp_server_addr.as_deref(), Some("h:2"));
    status.close_for(&serial("COM4"));
    assert_eq!(status.serial_path, None);
    assert_eq!(status.tcp_server_addr.as_deref(), Some("h:2"));
    status.close_for(&ConnectionCommand::StopAll);
    assert_eq!(status.tcp_client_addr, None);
    assert_eq!(status.tcp_server_addr, None);
}
