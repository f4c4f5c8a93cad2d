//! What the command line asks for, and the usage text.
use vstd::prelude::*;
use crate::log::{LogApp, error_text};
use crate::text::{ascii, ascii_bytes, bytes_eq, concat, decimal};
use crate::view::lit;

verus! {

/// What the program is asked to do.
#[derive(PartialEq, Eq, Structural, Clone, Copy, Debug)]
pub enum AppAction {
    /// Start the server in the background.
    Start,
    /// Run the server.
    Go,
    /// Stop a running server.
    Stop,
    /// Print the usage text.
    Help,
}

/// The action a first argument names; no argument means `Help`.
pub open spec fn action_of(arg: Option<Seq<u8>>) -> Option<AppAction> {
    match arg {
        None => Some(AppAction::Help),
        Some(a) => if a == lit("start") {
            Some(AppAction::Start)
        } else if a == lit("go") {
            Some(AppAction::Go)
        } else if a == lit("stop") {
            Some(AppAction::Stop)
        } else if a == lit("help") {
            Some(AppAction::Help)
        } else {
            None
        },
    }
}

/// Reads the action from the first argument; an unknown word is the error
/// text of code 200 with the word.
pub fn args(arg: Option<&[u8]>) -> (r: Result<AppAction, Vec<u8>>)
    ensures
        match action_of(
            match arg {
                Some(a) => Some(a@),
                None => None,
            },
        ) {
            Some(x) => r == Ok::<AppAction, Vec<u8>>(x),
            None => r matches Err(e) && e@ == ascii_bytes("Error "@) + decimal(200) + ascii_bytes(
                error_text(200),
            ) + arg.unwrap()@,
        },
{
    proof {
        reveal_strlit("start");
        reveal_strlit("go");
        reveal_strlit("stop");
        reveal_strlit("help");
    }
    match arg {
        None => Ok(AppAction::Help),
        Some(a) => {
            if bytes_eq(a, ascii("start").as_slice()) {
                Ok(AppAction::Start)
            } else if bytes_eq(a, ascii("go").as_slice()) {
                Ok(AppAction::Go)
            } else if bytes_eq(a, ascii("stop").as_slice()) {
                Ok(AppAction::Stop)
            } else if bytes_eq(a, ascii("help").as_slice()) {
                Ok(AppAction::Help)
            } else {
                Err(LogApp::get_error(200, a))
            }
        },
    }
}

/// The usage text.
pub struct Help {}

impl Help {
    /// Description, version line and usage, as printed by `help`.
    pub fn help(version: &[u8]) -> (r: Vec<u8>)
        ensures
            r@ == lit("\nTryTeex is a high-speed FastCGI server for WEB applications written in the RUST programming language.\ntryteex version: ")
                + version@ + lit("\n\nUsage: tryteex [start|go|stop|help]\n\nActions:\n    start         : start tryteex server\n    go            : run tryteex server in the foreground\n    stop          : stop tryteex server without kill working threads\n    help          : this help\n\n"),
    {
        proof {
            reveal_strlit("\nTryTeex is a high-speed FastCGI server for WEB applications written in the RUST programming language.\ntryteex version: ");
            reveal_strlit("\n\nUsage: tryteex [start|go|stop|help]\n\nActions:\n    start         : start tryteex server\n    go            : run tryteex server in the foreground\n    stop          : stop tryteex server without kill working threads\n    help          : this help\n\n");
        }
        let head = ascii("\nTryTeex is a high-speed FastCGI server for WEB applications written in the RUST programming language.\ntryteex version: ");
        let tail = ascii("\n\nUsage: tryteex [start|go|stop|help]\n\nActions:\n    start         : start tryteex server\n    go            : run tryteex server in the foreground\n    stop          : stop tryteex server without kill working threads\n    help          : this help\n\n");
        concat(concat(head.as_slice(), version).as_slice(), tail.as_slice())
    }
}

} // verus!
