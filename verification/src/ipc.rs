//! The IPC protocol: commands, responses, and the answer the server gives
//! to each command.
use vstd::prelude::*;
use std::sync::Arc;
use std::sync::atomic::{AtomicBool, Ordering};

use crate::probe::{path_join, joined_path};

verus! {

/// The IPC server's socket and running flag.
pub struct IpcServer {
    socket_path: String,
    running: Arc<AtomicBool>,
}

/// A command sent to the compositor.
#[derive(Debug, Clone)]
pub enum IpcCommand {
    Ping,
    ReloadConfig,
    Quit,
    FocusWindow(u64),
    CloseWindow(u64),
    MinimizeWindow(u64),
    MaximizeWindow(u64),
    FullscreenWindow(u64),
    SwitchWorkspace(String),
    ExecuteCommand(String),
    GetWindows,
    GetWorkspaces,
    GetOutputs,
    GetConfig,
    SetConfig { key: String, value: String },
}

/// The compositor's answer to a command.
#[derive(Debug)]
pub enum IpcResponse {
    Success,
    Error(String),
    Windows(Vec<WindowInfo>),
    Workspaces(Vec<String>),
    Outputs(Vec<OutputInfo>),
    Config(String),
}

/// A window, as the IPC protocol describes it.
#[derive(Debug)]
pub struct WindowInfo {
    pub id: u64,
    pub title: String,
    pub app_id: String,
    pub workspace: String,
    pub geometry: (i32, i32, i32, i32),
}

/// An output, as the IPC protocol describes it; `scale_percent` is its
/// scale in percent.
#[derive(Debug, Clone)]
pub struct OutputInfo {
    pub name: String,
    pub width: i32,
    pub height: i32,
    pub scale_percent: u32,
    pub enabled: bool,
}

/// The answer to a command, or to a line that is not one (`Err` holds the
/// decoder's message): `Ping` and the commands that are accepted get `Success`;
/// `GetWindows` an empty list; `GetWorkspaces` the workspaces 1 to 4;
/// `Quit` and `ExecuteCommand` are refused; an undecodable line is an
/// invalid command.
pub open spec fn answer_is(cmd: Result<IpcCommand, String>, r: IpcResponse) -> bool {
    match cmd {
        Ok(IpcCommand::GetWindows) => r matches IpcResponse::Windows(v) && v@.len() == 0,
        Ok(IpcCommand::GetWorkspaces) => r matches IpcResponse::Workspaces(v) && v@.map_values(
            |s: String| s@,
        ) == seq!["1"@, "2"@, "3"@, "4"@],
        Ok(IpcCommand::Quit) => r matches IpcResponse::Error(m) && m@
            == "Quit requires authentication via LABWC_PID check"@,
        Ok(IpcCommand::ExecuteCommand(_)) => r matches IpcResponse::Error(m) && m@
            == "ExecuteCommand blocked: use spawn_async_no_shell via config"@,
        Ok(_) => r matches IpcResponse::Success,
        Err(e) => r matches IpcResponse::Error(m) && m@ == "invalid command: "@ + e@,
    }
}

/// The answer to a decoded command, or to a line that could not be
/// decoded (see `answer_is`).
pub fn respond(cmd: Result<IpcCommand, String>) -> (r: IpcResponse)
    ensures
        answer_is(cmd, r),
{
    match cmd {
        Ok(IpcCommand::GetWindows) => IpcResponse::Windows(Vec::new()),
        Ok(IpcCommand::GetWorkspaces) => {
            let v = vec!["1".to_owned(), "2".to_owned(), "3".to_owned(), "4".to_owned()];
            assert(v@.map_values(|s: String| s@) =~= seq!["1"@, "2"@, "3"@, "4"@]);
            IpcResponse::Workspaces(v)
        },
        Ok(IpcCommand::Quit) => IpcResponse::Error(
            "Quit requires authentication via LABWC_PID check".to_owned(),
        ),
        Ok(IpcCommand::ExecuteCommand(_)) => IpcResponse::Error(
            "ExecuteCommand blocked: use spawn_async_no_shell via config".to_owned(),
        ),
        Ok(_) => IpcResponse::Success,
        Err(e) => {
            let mut m = "invalid command: ".to_owned();
            m.append(e.as_str());
            IpcResponse::Error(m)
        },
    }
}

impl IpcServer {
    /// The path of the server's socket.
    pub closed spec fn path(&self) -> Seq<char> {
        self.socket_path@
    }

    /// A stopped server whose socket is `labwc-rs-ipc.sock` in
    /// `runtime_dir`.
    pub fn new(runtime_dir: &str) -> (s: IpcServer)
        ensures
            s.path() == joined_path(runtime_dir@, "labwc-rs-ipc.sock"@),
    {
        IpcServer {
            socket_path: path_join(runtime_dir, "labwc-rs-ipc.sock"),
            running: Arc::new(AtomicBool::new(false)),
        }
    }

    /// The path of the server's socket.
    pub fn socket_path(&self) -> (p: &str)
        ensures
            p@ == self.path(),
    {
        self.socket_path.as_str()
    }

    /// The server's running flag.
    pub closed spec fn flag(&self) -> Arc<AtomicBool> {
        self.running
    }

    /// The running flag, shared with the thread that accepts clients: the
    /// server's own flag, not a copy.
    pub fn running_flag(&self) -> (f: Arc<AtomicBool>)
        ensures
            f == self.flag(),
    {
        Arc::clone(&self.running)
    }

    /// Marks the server running or stopped. The flag is shared with other
    /// threads, so nothing is stated of what later reads return.
    pub fn set_running(&self, running: bool) {
        self.running.store(running, Ordering::Relaxed);
    }

    /// Stops the server: it is marked stopped, so that the thread accepting
    /// clients ends. Its socket file is removed by the caller, which does
    /// the file system work.
    pub fn stop(&self) {
        self.set_running(false);
    }

    /// Reads the shared running flag.
    pub fn is_running(&self) -> bool {
        self.running.load(Ordering::Relaxed)
    }
}

} // verus!
