//! Messages between the editor window and the application, and the
//! socket of the process supervisor.
use vstd::prelude::*;
use vstd::string::*;

use crate::path::{join_path, path_joined};

verus! {

/// An event the editor window sends.
#[derive(Debug, Clone, Copy, PartialEq, Eq, Structural)]
pub enum RequestEvent {
    EnterFullScreen,
    ExitFullScreen,
    OpenFolder,
}

/// An event the application answers with.
#[derive(Debug, Clone)]
pub enum ResponseEvent {
    Error,
    Success,
    OpenFolder { path: String },
    DialogCancel,
}

/// A request from the editor window.
#[derive(Debug, Clone)]
pub struct Request {
    pub id: i32,
    pub event: RequestEvent,
}

/// The answer to a request.
#[derive(Debug, Clone)]
pub struct Response {
    pub id: i32,
    pub event: ResponseEvent,
    pub message: Option<String>,
}

impl Response {
    /// The answer that request `id` succeeded.
    pub fn ok(id: i32) -> (r: Self)
        ensures
            r.id == id,
            r.event is Success,
            r.message is None,
    {
        Response { id, event: ResponseEvent::Success, message: None }
    }

    /// The answer that request `id` failed with the error `message`.
    pub fn into_error(id: i32, message: String) -> (r: Self)
        ensures
            r.id == id,
            r.event is Error,
            r.message == Some(message),
    {
        Response { id, event: ResponseEvent::Error, message: Some(message) }
    }
}

impl Default for Response {
    fn default() -> (r: Self)
        ensures
            r.id == 0,
            r.event is Error,
            r.message is None,
    {
        Response { id: 0, event: ResponseEvent::Error, message: None }
    }
}

/// The socket the process supervisor listens on.
#[derive(Debug, Clone)]
pub struct SocketFile {
    path: String,
}

/// The socket file of the supervisor with process id `id` in `tmp_dir`.
pub open spec fn socket_path(tmp_dir: Seq<char>, id: Seq<char>) -> Seq<char> {
    path_joined(tmp_dir, "uwe-"@ + id + ".sock"@)
}

impl SocketFile {
    /// The path of the socket.
    pub closed spec fn spec_path(&self) -> Seq<char> {
        self.path@
    }

    /// The socket of the supervisor with process id `id`, in the temporary
    /// directory `tmp_dir`.
    pub fn new(tmp_dir: &str, id: &str) -> (r: Self)
        ensures
            r.spec_path() == socket_path(tmp_dir@, id@),
    {
        let mut name = String::from_str("uwe-");
        name.append(id);
        name.append(".sock");
        SocketFile { path: join_path(tmp_dir, name.as_str()) }
    }

    /// The path of the socket.
    pub fn path(&self) -> (r: &String)
        ensures
            r@ == self.spec_path(),
    {
        &self.path
    }
}

} // verus!
