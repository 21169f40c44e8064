//! Commands for the connections, their outcome, and which connections there are.

use crate::text::{append_integer, integer_text};
use vstd::prelude::*;

verus! {

/// What is to be done with the connections.
#[derive(Debug, Clone)]
pub enum ConnectionCommand {
    ListSerialPorts,
    ConnectSerial { path: String, settings: SerialSettings },
    DisconnectSerial,
    ConnectTcpClient { address: String },
    DisconnectTcpClient,
    StartTcpServer { address: String },
    StopTcpServer,
    StopAll,
}

/// How a serial line is set.
#[derive(Debug, Clone, Copy, PartialEq, Eq, Structural)]
pub struct SerialSettings {
    pub baud_rate: u32,
    pub data_bits: SerialDataBits,
    pub parity: SerialParity,
    pub stop_bits: SerialStopBits,
}

impl Default for SerialSettings {
    /// 2400 baud, 8 data bits, even parity, 1 stop bit.
    fn default() -> (r: SerialSettings)
        ensures
            r == (SerialSettings {
                baud_rate: 2400,
                data_bits: SerialDataBits::Eight,
                parity: SerialParity::Even,
                stop_bits: SerialStopBits::One,
            }),
    {
        SerialSettings {
            baud_rate: 2400,
            data_bits: SerialDataBits::Eight,
            parity: SerialParity::Even,
            stop_bits: SerialStopBits::One,
        }
    }
}

#[derive(Debug, Clone, Copy, PartialEq, Eq, Structural)]
pub enum SerialDataBits {
    Five,
    Six,
    Seven,
    Eight,
}

#[derive(Debug, Clone, Copy, PartialEq, Eq, Structural)]
pub enum SerialParity {
    NoParity,
    Odd,
    Even,
}

#[derive(Debug, Clone, Copy, PartialEq, Eq, Structural)]
pub enum SerialStopBits {
    One,
    Two,
}

/// How a command ended.
#[derive(Debug, Clone)]
pub struct ConnectionResult {
    pub success: bool,
    pub message: String,
    pub serial_ports: Vec<String>,
}

/// The connections that there are.
#[derive(Debug, Clone)]
pub struct ConnectionStatus {
    pub serial_path: Option<String>,
    pub tcp_client_addr: Option<String>,
    pub tcp_server_addr: Option<String>,
}

/// A text that may be there.
pub open spec fn text_of(t: Option<String>) -> Option<Seq<char>> {
    match t {
        Some(s) => Some(s@),
        None => None,
    }
}

/// Why a connection was not made.
#[derive(Debug, Clone)]
pub enum StartFailure {
    Serial { error: String },
    /// The server's address could not be bound.
    Bind { error: String },
    /// The remote server could not be reached.
    Reach { error: String },
    /// Nothing takes over connections any more.
    RouterClosed,
}

impl StartFailure {
    pub open spec fn text(self) -> Seq<char> {
        match self {
            StartFailure::Serial { error } => error@,
            StartFailure::Bind { error } => "TCP 服务启动失败: "@ + error@,
            StartFailure::Reach { error } => "TCP 连接失败: "@ + error@,
            StartFailure::RouterClosed => "Router 通道已关闭"@,
        }
    }

    /// The failure in words.
    pub fn message(&self) -> (r: String)
        ensures
            r@ == self.text(),
    {
        match self {
            StartFailure::Serial { error } => error.clone(),
            StartFailure::Bind { error } => joined("TCP 服务启动失败: ", error.as_str()),
            StartFailure::Reach { error } => joined("TCP 连接失败: ", error.as_str()),
            StartFailure::RouterClosed => "Router 通道已关闭".to_owned(),
        }
    }
}

fn joined(first: &str, second: &str) -> (r: String)
    ensures
        r@ == first@ + second@,
{
    let mut out: String = first.to_owned();
    out.append(second);
    out
}

fn joined3(first: &str, second: &str, third: &str) -> (r: String)
    ensures
        r@ == first@ + second@ + third@,
{
    let mut out: String = joined(first, second);
    out.append(third);
    out
}

impl ConnectionResult {
    /// A result without a list of ports.
    pub open spec fn says(self, success: bool, message: Seq<char>) -> bool {
        self.success == success && self.message@ == message && self.serial_ports@.len() == 0
    }

    pub fn success(message: String) -> (r: ConnectionResult)
        ensures
            r.says(true, message@),
    {
        ConnectionResult { success: true, message, serial_ports: Vec::new() }
    }

    pub fn failure(message: String) -> (r: ConnectionResult)
        ensures
            r.says(false, message@),
    {
        ConnectionResult { success: false, message, serial_ports: Vec::new() }
    }

    /// The result of a search for serial ports.
    pub fn ports_found(found: Result<Vec<String>, String>) -> (r: ConnectionResult)
        ensures
            found matches Ok(ports) ==> {
                &&& r.success
                &&& r.message@ == "检测到 "@ + integer_text(ports@.len() as int)
                    + " 个本机串口"@
                &&& r.serial_ports == ports
            },
            found matches Err(error) ==> r.says(false, "读取本机串口失败: "@ + error@),
    {
        match found {
            Ok(ports) => {
                let mut message: String = "检测到 ".to_owned();
                append_integer(&mut message, ports.len() as i128);
                message.append(" 个本机串口");
                ConnectionResult { success: true, message, serial_ports: ports }
            },
            Err(error) => ConnectionResult::failure(
                joined("读取本机串口失败: ", error.as_str()),
            ),
        }
    }
}

impl ConnectionCommand {
    /// The command opens a connection, which can fail.
    pub open spec fn opens(self) -> bool {
        self is ConnectSerial || self is ConnectTcpClient || self is StartTcpServer
    }

    /// The result of a command that is refused before anything is done: a serial connection
    /// without a port.
    pub fn refused(&self) -> (r: Option<ConnectionResult>)
        ensures
            r is Some <==> (self matches ConnectionCommand::ConnectSerial { path, .. }
                && path@.len() == 0),
            r matches Some(result) ==> result.says(false, "请选择本机串口"@),
    {
        match self {
            ConnectionCommand::ConnectSerial { path, .. } => {
                if path.as_str().unicode_len() == 0 {
                    Some(ConnectionResult::failure("请选择本机串口".to_owned()))
                } else {
                    None
                }
            },
            _ => None,
        }
    }

    pub open spec fn success_text(self) -> Seq<char> {
        match self {
            ConnectionCommand::ListSerialPorts => Seq::empty(),
            ConnectionCommand::ConnectSerial { path, .. } => "串口 "@ + path@ + " 已启动"@,
            ConnectionCommand::DisconnectSerial => "串口已断开"@,
            ConnectionCommand::ConnectTcpClient { address } => "已连接 TCP 服务端 "@
                + address@,
            ConnectionCommand::DisconnectTcpClient => "TCP 客户端已断开"@,
            ConnectionCommand::StartTcpServer { address } => "TCP 服务已在 "@ + address@
                + " 启动"@,
            ConnectionCommand::StopTcpServer => "TCP 服务端已停止"@,
            ConnectionCommand::StopAll => "已停止全部监听连接"@,
        }
    }

    /// The result of a command, given what became of opening its connection. Closing always
    /// succeeds.
    pub fn result(&self, outcome: Result<(), StartFailure>) -> (r: ConnectionResult)
        requires
            !(self is ListSerialPorts),
        ensures
            self.opens() ==> (outcome matches Err(e) ==> r.says(false, e.text())),
            outcome is Ok || !self.opens() ==> r.says(true, self.success_text()),
    {
        match self {
            ConnectionCommand::ListSerialPorts => ConnectionResult::success(String::new()),
            ConnectionCommand::ConnectSerial { path, .. } => match outcome {
                Ok(_) => ConnectionResult::success(
                    joined3("串口 ", path.as_str(), " 已启动"),
                ),
                Err(e) => ConnectionResult::failure(e.message()),
            },
            ConnectionCommand::ConnectTcpClient { address } => match outcome {
                Ok(_) => ConnectionResult::success(
                    joined("已连接 TCP 服务端 ", address.as_str()),
                ),
                Err(e) => ConnectionResult::failure(e.message()),
            },
            ConnectionCommand::StartTcpServer { address } => match outcome {
                Ok(_) => ConnectionResult::success(
                    joined3("TCP 服务已在 ", address.as_str(), " 启动"),
                ),
                Err(e) => ConnectionResult::failure(e.message()),
            },
            ConnectionCommand::DisconnectSerial => ConnectionResult::success(
                "串口已断开".to_owned(),
            ),
            ConnectionCommand::DisconnectTcpClient => ConnectionResult::success(
                "TCP 客户端已断开".to_owned(),
            ),
            ConnectionCommand::StopTcpServer => ConnectionResult::success(
                "TCP 服务端已停止".to_owned(),
            ),
            ConnectionCommand::StopAll => ConnectionResult::success(
                "已停止全部监听连接".to_owned(),
            ),
        }
    }
}

impl Default for ConnectionStatus {
    fn default() -> (r: ConnectionStatus)
        ensures
            r.serial_path is None,
            r.tcp_client_addr is None,
            r.tcp_server_addr is None,
    {
        ConnectionStatus { serial_path: None, tcp_client_addr: None, tcp_server_addr: None }
    }
}

impl ConnectionStatus {
    /// Follows the closing that a command begins with. A command that opens a connection
    /// first closes the one of its kind; one that closes all closes each.
    pub fn close_for(&mut self, command: &ConnectionCommand)
        ensures
            final(self).serial_path == (if command is ConnectSerial || command is DisconnectSerial
                || command is StopAll {
                None
            } else {
                old(self).serial_path
            }),
            final(self).tcp_client_addr == (if command is ConnectTcpClient
                || command is DisconnectTcpClient || command is StopAll {
                None
            } else {
                old(self).tcp_client_addr
            }),
            final(self).tcp_server_addr == (if command is StartTcpServer
                || command is StopTcpServer || command is StopAll {
                None
            } else {
                old(self).tcp_server_addr
            }),
    {
        match command {
            ConnectionCommand::ListSerialPorts => {},
            ConnectionCommand::ConnectSerial { .. } => {
                self.serial_path = None;
            },
            ConnectionCommand::DisconnectSerial => {
                self.serial_path = None;
            },
            ConnectionCommand::ConnectTcpClient { .. } => {
                self.tcp_client_addr = None;
            },
            ConnectionCommand::DisconnectTcpClient => {
                self.tcp_client_addr = None;
            },
            ConnectionCommand::StartTcpServer { .. } => {
                self.tcp_server_addr = None;
            },
            ConnectionCommand::StopTcpServer => {
                self.tcp_server_addr = None;
            },
            ConnectionCommand::StopAll => {
                self.serial_path = None;
                self.tcp_client_addr = None;
                self.tcp_server_addr = None;
            },
        }
    }

    /// Follows a connection that a command has opened. Other commands change nothing.
    pub fn opened_by(&mut self, command: &ConnectionCommand)
        ensures
            text_of(final(self).serial_path) == (match *command {
                ConnectionCommand::ConnectSerial { path, .. } => Some(path@),
                _ => text_of(old(self).serial_path),
            }),
            text_of(final(self).tcp_client_addr) == (match *command {
                ConnectionCommand::ConnectTcpClient { address } => Some(address@),
                _ => text_of(old(self).tcp_client_addr),
            }),
            text_of(final(self).tcp_server_addr) == (match *command {
                ConnectionCommand::StartTcpServer { address } => Some(address@),
                _ => text_of(old(self).tcp_server_addr),
            }),
    {
        match command {
            ConnectionCommand::ConnectSerial { path, .. } => {
                self.serial_path = Some(path.clone());
            },
            ConnectionCommand::ConnectTcpClient { address } => {
                self.tcp_client_addr = Some(address.clone());
            },
            ConnectionCommand::StartTcpServer { address } => {
                self.tcp_server_addr = Some(address.clone());
            },
            _ => {},
        }
    }
}

} // verus!
