//! The connection to the frame source (the ruler), as the rest of the program sees it.
use vstd::prelude::*;
use std::time::Duration;


verus! {

/// State of the connection to the ruler.
#[derive(Clone, Copy, Debug, PartialEq, Eq, Structural)]
pub enum ConnectionStatus {
    /// Not connected yet, or the connection dropped (the worker keeps retrying).
    Disconnected,
    Connecting,
    Connected,
}

impl ConnectionStatus {
    pub fn is_connected(self) -> (b: bool)
        ensures
            b == (self == ConnectionStatus::Connected),
    {
        match self {
            ConnectionStatus::Connected => true,
            _ => false,
        }
    }
}

/// Why no frame could be had from the ruler.
#[derive(Debug)]
pub enum FrameError {
    NotConnected,
    /// No new analysed frame arrived in time.
    Timeout(Duration),
    /// A command could not be sent.
    Send(String),
    /// The ruler answered with an error.
    Ruler { code: String, message: String },
}

/// The text `{:?}` prints for `d` (such as `5s` or `100ms`).
pub uninterp spec fn duration_debug_text(d: Duration) -> Seq<char>;

/// Formats `d` with `Duration`'s `Debug` implementation.
#[verifier::external_body]
fn duration_debug(d: Duration) -> (s: String)
    ensures
        s@ == duration_debug_text(d),
{
    format!("{d:?}")
}

/// The user-facing explanation of a frame error.
pub open spec fn frame_error_message(e: FrameError) -> Seq<char> {
    match e {
        FrameError::NotConnected => "尺子未连接"@,
        FrameError::Timeout(d) => "等待新分析帧超时（"@ + duration_debug_text(d) + "）"@,
        FrameError::Send(m) => "发送命令失败："@ + m@,
        FrameError::Ruler { code, message } => "尺子返回错误 ["@ + code@ + "]："@ + message@,
    }
}

impl FrameError {
    /// The user-facing explanation; see [`frame_error_message`].
    pub fn message(&self) -> (s: String)
        ensures
            s@ == frame_error_message(*self),
    {
        match self {
            FrameError::NotConnected => String::from_str("尺子未连接"),
            FrameError::Timeout(d) => {
                let mut s = String::from_str("等待新分析帧超时（");
                let shown = duration_debug(*d);
                s.append(shown.as_str());
                s.append("）");
                s
            },
            FrameError::Send(m) => {
                let mut s = String::from_str("发送命令失败：");
                s.append(m.as_str());
                s
            },
            FrameError::Ruler { code, message } => {
                let mut s = String::from_str("尺子返回错误 [");
                s.append(code.as_str());
                s.append("]：");
                s.append(message.as_str());
                s
            },
        }
    }
}

} // verus!
