//! What the local relay server is described by, and the decisions that its
//! handlers take before they answer.

use vstd::prelude::*;
use vstd::string::StringExecFns;
use crate::error::{ApiError, ApiErrorView};

verus! {

/// Name, address and served directory of the relay server.
#[derive(Debug, PartialEq, Eq)]
pub struct ServInfo {
    pub name: String,
    pub ip: String,
    pub port: u16,
    pub path: String,
}

/// Mathematical model of [`ServInfo`].
pub struct ServInfoView {
    pub name: Seq<char>,
    pub ip: Seq<char>,
    pub port: u16,
    pub path: Seq<char>,
}

impl View for ServInfo {
    type V = ServInfoView;

    open spec fn view(&self) -> ServInfoView {
        ServInfoView { name: self.name@, ip: self.ip@, port: self.port, path: self.path@ }
    }
}

impl Default for ServInfo {
    fn default() -> (info: ServInfo)
        ensures
            info@ == (ServInfoView {
                name: Seq::<char>::empty(),
                ip: Seq::<char>::empty(),
                port: 0,
                path: Seq::<char>::empty(),
            }),
    {
        ServInfo { name: String::new(), ip: String::new(), port: 0, path: String::new() }
    }
}

impl Clone for ServInfo {
    fn clone(&self) -> (copy: ServInfo)
        ensures
            copy == *self,
    {
        ServInfo {
            name: self.name.clone(),
            ip: self.ip.clone(),
            port: self.port,
            path: self.path.clone(),
        }
    }
}

impl ServInfo {
    /// The same server serving the directory `path`.
    pub fn with_path(self, path: String) -> (info: ServInfo)
        ensures
            info == (ServInfo { path, ..self }),
    {
        ServInfo { name: self.name, ip: self.ip, port: self.port, path }
    }

    /// The same server as it listens: on the address and port that it was
    /// bound to, serving the directory `path`.
    pub fn bound_to(self, ip: String, port: u16, path: String) -> (info: ServInfo)
        ensures
            info == (ServInfo { name: self.name, ip, port, path }),
    {
        ServInfo { name: self.name, ip, port, path }
    }
}

/// What a client may ask the window to do.
#[derive(Clone, Copy, Debug, PartialEq, Eq, Structural)]
pub enum HttpCmd {
    Refresh,
}

/// A request relayed to the window: a command and its parameter.
#[derive(Debug, PartialEq, Eq)]
pub struct HttpNotify {
    pub cmd: HttpCmd,
    pub param: Option<String>,
}

/// Mathematical model of [`HttpNotify`].
pub struct HttpNotifyView {
    pub cmd: HttpCmd,
    pub param: Option<Seq<char>>,
}

impl View for HttpNotify {
    type V = HttpNotifyView;

    open spec fn view(&self) -> HttpNotifyView {
        HttpNotifyView {
            cmd: self.cmd,
            param: match self.param {
                Some(p) => Some(p@),
                None => None,
            },
        }
    }
}

impl Clone for HttpNotify {
    fn clone(&self) -> (copy: HttpNotify)
        ensures
            copy == *self,
    {
        HttpNotify {
            cmd: self.cmd,
            param: match &self.param {
                Some(p) => Some(p.clone()),
                None => None,
            },
        }
    }
}

/// A second server is not started while one runs: with a server on record
/// the request fails with `Error`, without one it may go ahead.
pub fn check_not_running(current: &Option<ServInfo>) -> (verdict: Result<(), ApiError>)
    ensures
        current is None <==> verdict is Ok,
        verdict matches Err(e) ==> e@ == ApiErrorView::Error("The server is already running."@),
{
    match current {
        Some(_) => Err(ApiError::Error(String::from_str("The server is already running."))),
        None => Ok(()),
    }
}

/// The answer to a question for the server on record: the record, or the
/// words that say there is none.
pub fn serv_info_reply(current: Option<ServInfo>) -> (reply: Result<ServInfo, String>)
    ensures
        match current {
            Some(info) => reply == Ok::<ServInfo, String>(info),
            None => reply is Err && reply->Err_0@ == "No server info"@,
        },
{
    match current {
        Some(info) => Ok(info),
        None => Err(String::from_str("No server info")),
    }
}

/// What becomes of a text posted for relay. `body` is the posted text, absent
/// where the posted bytes were no UTF-8. A body that is no text is refused
/// first, then a relay without a window; otherwise the text is what is
/// emitted to the window and echoed to the client.
pub fn relay_text(body: Option<String>, has_window: bool) -> (outcome: Result<String, String>)
    ensures
        match body {
            None => outcome is Err && outcome->Err_0@ == "Invalid UTF-8"@,
            Some(text) => if has_window {
                outcome == Ok::<String, String>(text)
            } else {
                outcome is Err && outcome->Err_0@ == "No window"@
            },
        },
{
    match body {
        None => Err(String::from_str("Invalid UTF-8")),
        Some(text) => if has_window {
            Ok(text)
        } else {
            Err(String::from_str("No window"))
        },
    }
}

/// What becomes of a request posted for relay: without a window it is
/// refused; otherwise it is what is emitted to the window and echoed to the
/// client.
pub fn relay_notify(payload: HttpNotify, has_window: bool) -> (outcome: Result<HttpNotify, String>)
    ensures
        if has_window {
            outcome == Ok::<HttpNotify, String>(payload)
        } else {
            outcome is Err && outcome->Err_0@ == "No window"@
        },
{
    if has_window {
        Ok(payload)
    } else {
        Err(String::from_str("No window"))
    }
}

} // verus!
