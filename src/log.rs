//! Error texts of the server and the settings of its log.
use vstd::prelude::*;
use crate::text::{ascii, ascii_bytes, concat, decimal, push_decimal};

verus! {

/// Message of an error code.
pub open spec fn error_text(err: u32) -> Seq<char> {
    if err == 1 {
        ": Can't write log to file. System message: "@
    } else if err == 2 {
        ": Can't open log file. System message: "@
    } else if err == 100 {
        ": Unknown error when opening config file: "@
    } else if err == 101 {
        ": Value \"max_connection\" must be > 0 in config file"@
    } else if err == 102 {
        ": Unknown value \"max_connection={}\" in config file"@
    } else if err == 103 {
        ": Unknown value \"socket={}\" in config file"@
    } else if err == 104 {
        ": Value \"socket\" mustn't be empty in config file"@
    } else if err == 105 {
        ": Value \"app\" must be > 0 in config file"@
    } else if err == 106 {
        ": Unknown value \"app={}\" in config file"@
    } else if err == 107 {
        ": Value \"dir\" mustn't be empty in config file"@
    } else if err == 108 {
        ": Value length \"dir={}\" must be < 1024 in config file"@
    } else if err == 109 {
        ": Value \"version\" mustn't be empty in config file"@
    } else if err == 110 {
        ": Value length \"version={}\" must be < 12 in config file"@
    } else if err == 111 {
        ": Value \"db_host\" mustn't be empty in config file"@
    } else if err == 112 {
        ": Value \"db_port\" mustn't be empty in config file"@
    } else if err == 113 {
        ": Value \"db_user\" mustn't be empty in config file"@
    } else if err == 114 {
        ": Value \"db_pwd\" mustn't be empty in config file"@
    } else if err == 115 {
        ": Value \"db_name\" mustn't be empty in config file"@
    } else if err == 116 {
        ": Value \"salt\" mustn't be empty in config file"@
    } else if err == 200 {
        ": Unknown command: "@
    } else if err == 201 {
        ": Start server error: "@
    } else if err == 250 {
        ": Can't send command. System error: "@
    } else if err == 251 {
        ": Read empty data from IRC channel."@
    } else if err == 252 {
        ": Unrecognized data read. Error: "@
    } else if err == 253 {
        ": Unrecognized IRC answer. Data: "@
    } else if err == 254 {
        ": Receive error data."@
    } else if err == 255 {
        ": Unrecognized IRC answer. Data: "@
    } else if err == 256 {
        ": Unrecognized IRC answer. Data: "@
    } else if err == 257 {
        ": Unrecognized data read. Error: "@
    } else if err == 258 {
        ": Unrecognized IRC answer. Data: "@
    } else if err == 259 {
        ": Receive error data."@
    } else if err == 260 {
        ": Can't read command from IRC channel. System error: "@
    } else if err == 261 {
        ": Unrecognized IRC answer. Data: "@
    } else if err == 262 {
        ": Receive error data."@
    } else if err == 263 {
        ": Can't send command. System error: "@
    } else if err == 264 {
        ": Permission denied to connect to IRC server"@
    } else if err == 265 {
        ": Connection refused of IRC server"@
    } else if err == 266 {
        ": Connection reset of IRC server"@
    } else if err == 267 {
        ": Connection aborted of IRC server"@
    } else if err == 268 {
        ": Not connected to IRC server"@
    } else if err == 269 {
        ": IP addr not available "@
    } else if err == 270 {
        ": Connection timeout. Maybe server IRC not started "@
    } else if err == 271 {
        ": Connection error: "@
    } else if err == 272 {
        ": Send to stdout error data. Error: "@
    } else if err == 300 {
        ": Permission denied to open IRC socket"@
    } else if err == 301 {
        ": Socket busy for opening IRC socket"@
    } else if err == 302 {
        ": IRC socket not avaibale for opening"@
    } else if err == 303 {
        ": Error open IRC socket. System error: "@
    } else if err == 350 {
        ": Error connect to sql server. Error text: "@
    } else if err == 351 {
        ": Error set time_zone. Error text: "@
    } else if err == 370 {
        ": Error get langs. Error text: "@
    } else if err == 380 {
        ": Error get templates. Error text: "@
    } else if err == 400 {
        ": Permission denied to open socket"@
    } else if err == 401 {
        ": Socket busy for opening socket"@
    } else if err == 402 {
        ": Socket not avaibale for opening"@
    } else if err == 403 {
        ": Error open socket. System error: "@
    } else if err == 500 {
        ": The network connection is abruptly disconnected. System error: "@
    } else if err == 501 {
        ": Mix up connections."@
    } else if err == 502 {
        ": Queue is wrong."@
    } else {
        ": Unknown error: "@
    }
}

fn error_message(err: u32) -> (r: Vec<u8>)
    ensures
        r@ == ascii_bytes(error_text(err)),
{
    if err == 1 {
        proof { reveal_strlit(": Can't write log to file. System message: "); }
        ascii(": Can't write log to file. System message: ")
    } else if err == 2 {
        proof { reveal_strlit(": Can't open log file. System message: "); }
        ascii(": Can't open log file. System message: ")
    } else if err == 100 {
        proof { reveal_strlit(": Unknown error when opening config file: "); }
        ascii(": Unknown error when opening config file: ")
    } else if err == 101 {
        proof { reveal_strlit(": Value \"max_connection\" must be > 0 in config file"); }
        ascii(": Value \"max_connection\" must be > 0 in config file")
    } else if err == 102 {
        proof { reveal_strlit(": Unknown value \"max_connection={}\" in config file"); }
        ascii(": Unknown value \"max_connection={}\" in config file")
    } else if err == 103 {
        proof { reveal_strlit(": Unknown value \"socket={}\" in config file"); }
        ascii(": Unknown value \"socket={}\" in config file")
    } else if err == 104 {
        proof { reveal_strlit(": Value \"socket\" mustn't be empty in config file"); }
        ascii(": Value \"socket\" mustn't be empty in config file")
    } else if err == 105 {
        proof { reveal_strlit(": Value \"app\" must be > 0 in config file"); }
        ascii(": Value \"app\" must be > 0 in config file")
    } else if err == 106 {
        proof { reveal_strlit(": Unknown value \"app={}\" in config file"); }
        ascii(": Unknown value \"app={}\" in config file")
    } else if err == 107 {
        proof { reveal_strlit(": Value \"dir\" mustn't be empty in config file"); }
        ascii(": Value \"dir\" mustn't be empty in config file")
    } else if err == 108 {
        proof { reveal_strlit(": Value length \"dir={}\" must be < 1024 in config file"); }
        ascii(": Value length \"dir={}\" must be < 1024 in config file")
    } else if err == 109 {
        proof { reveal_strlit(": Value \"version\" mustn't be empty in config file"); }
        ascii(": Value \"version\" mustn't be empty in config file")
    } else if err == 110 {
        proof { reveal_strlit(": Value length \"version={}\" must be < 12 in config file"); }
        ascii(": Value length \"version={}\" must be < 12 in config file")
    } else if err == 111 {
        proof { reveal_strlit(": Value \"db_host\" mustn't be empty in config file"); }
        ascii(": Value \"db_host\" mustn't be empty in config file")
    } else if err == 112 {
        proof { reveal_strlit(": Value \"db_port\" mustn't be empty in config file"); }
        ascii(": Value \"db_port\" mustn't be empty in config file")
    } else if err == 113 {
        proof { reveal_strlit(": Value \"db_user\" mustn't be empty in config file"); }
        ascii(": Value \"db_user\" mustn't be empty in config file")
    } else if err == 114 {
        proof { reveal_strlit(": Value \"db_pwd\" mustn't be empty in config file"); }
        ascii(": Value \"db_pwd\" mustn't be empty in config file")
    } else if err == 115 {
        proof { reveal_strlit(": Value \"db_name\" mustn't be empty in config file"); }
        ascii(": Value \"db_name\" mustn't be empty in config file")
    } else if err == 116 {
        proof { reveal_strlit(": Value \"salt\" mustn't be empty in config file"); }
        ascii(": Value \"salt\" mustn't be empty in config file")
    } else if err == 200 {
        proof { reveal_strlit(": Unknown command: "); }
        ascii(": Unknown command: ")
    } else if err == 201 {
        proof { reveal_strlit(": Start server error: "); }
        ascii(": Start server error: ")
    } else if err == 250 {
        proof { reveal_strlit(": Can't send command. System error: "); }
        ascii(": Can't send command. System error: ")
    } else if err == 251 {
        proof { reveal_strlit(": Read empty data from IRC channel."); }
        ascii(": Read empty data from IRC channel.")
    } else if err == 252 {
        proof { reveal_strlit(": Unrecognized data read. Error: "); }
        ascii(": Unrecognized data read. Error: ")
    } else if err == 253 {
        proof { reveal_strlit(": Unrecognized IRC answer. Data: "); }
        ascii(": Unrecognized IRC answer. Data: ")
    } else if err == 254 {
        proof { reveal_strlit(": Receive error data."); }
        ascii(": Receive error data.")
    } else if err == 255 {
        proof { reveal_strlit(": Unrecognized IRC answer. Data: "); }
        ascii(": Unrecognized IRC answer. Data: ")
    } else if err == 256 {
        proof { reveal_strlit(": Unrecognized IRC answer. Data: "); }
        ascii(": Unrecognized IRC answer. Data: ")
    } else if err == 257 {
        proof { reveal_strlit(": Unrecognized data read. Error: "); }
        ascii(": Unrecognized data read. Error: ")
    } else if err == 258 {
        proof { reveal_strlit(": Unrecognized IRC answer. Data: "); }
        ascii(": Unrecognized IRC answer. Data: ")
    } else if err == 259 {
        proof { reveal_strlit(": Receive error data."); }
        ascii(": Receive error data.")
    } else if err == 260 {
        proof { reveal_strlit(": Can't read command from IRC channel. System error: "); }
        ascii(": Can't read command from IRC channel. System error: ")
    } else if err == 261 {
        proof { reveal_strlit(": Unrecognized IRC answer. Data: "); }
        ascii(": Unrecognized IRC answer. Data: ")
    } else if err == 262 {
        proof { reveal_strlit(": Receive error data."); }
        ascii(": Receive error data.")
    } else if err == 263 {
        proof { reveal_strlit(": Can't send command. System error: "); }
        ascii(": Can't send command. System error: ")
    } else if err == 264 {
        proof { reveal_strlit(": Permission denied to connect to IRC server"); }
        ascii(": Permission denied to connect to IRC server")
    } else if err == 265 {
        proof { reveal_strlit(": Connection refused of IRC server"); }
        ascii(": Connection refused of IRC server")
    } else if err == 266 {
        proof { reveal_strlit(": Connection reset of IRC server"); }
        ascii(": Connection reset of IRC server")
    } else if err == 267 {
        proof { reveal_strlit(": Connection aborted of IRC server"); }
        ascii(": Connection aborted of IRC server")
    } else if err == 268 {
        proof { reveal_strlit(": Not connected to IRC server"); }
        ascii(": Not connected to IRC server")
    } else if err == 269 {
        proof { reveal_strlit(": IP addr not available "); }
        ascii(": IP addr not available ")
    } else if err == 270 {
        proof { reveal_strlit(": Connection timeout. Maybe server IRC not started "); }
        ascii(": Connection timeout. Maybe server IRC not started ")
    } else if err == 271 {
        proof { reveal_strlit(": Connection error: "); }
        ascii(": Connection error: ")
    } else if err == 272 {
        proof { reveal_strlit(": Send to stdout error data. Error: "); }
        ascii(": Send to stdout error data. Error: ")
    } else if err == 300 {
        proof { reveal_strlit(": Permission denied to open IRC socket"); }
        ascii(": Permission denied to open IRC socket")
    } else if err == 301 {
        proof { reveal_strlit(": Socket busy for opening IRC socket"); }
        ascii(": Socket busy for opening IRC socket")
    } else if err == 302 {
        proof { reveal_strlit(": IRC socket not avaibale for opening"); }
        ascii(": IRC socket not avaibale for opening")
    } else if err == 303 {
        proof { reveal_strlit(": Error open IRC socket. System error: "); }
        ascii(": Error open IRC socket. System error: ")
    } else if err == 350 {
        proof { reveal_strlit(": Error connect to sql server. Error text: "); }
        ascii(": Error connect to sql server. Error text: ")
    } else if err == 351 {
        proof { reveal_strlit(": Error set time_zone. Error text: "); }
        ascii(": Error set time_zone. Error text: ")
    } else if err == 370 {
        proof { reveal_strlit(": Error get langs. Error text: "); }
        ascii(": Error get langs. Error text: ")
    } else if err == 380 {
        proof { reveal_strlit(": Error get templates. Error text: "); }
        ascii(": Error get templates. Error text: ")
    } else if err == 400 {
        proof { reveal_strlit(": Permission denied to open socket"); }
        ascii(": Permission denied to open socket")
    } else if err == 401 {
        proof { reveal_strlit(": Socket busy for opening socket"); }
        ascii(": Socket busy for opening socket")
    } else if err == 402 {
        proof { reveal_strlit(": Socket not avaibale for opening"); }
        ascii(": Socket not avaibale for opening")
    } else if err == 403 {
        proof { reveal_strlit(": Error open socket. System error: "); }
        ascii(": Error open socket. System error: ")
    } else if err == 500 {
        proof { reveal_strlit(": The network connection is abruptly disconnected. System error: "); }
        ascii(": The network connection is abruptly disconnected. System error: ")
    } else if err == 501 {
        proof { reveal_strlit(": Mix up connections."); }
        ascii(": Mix up connections.")
    } else if err == 502 {
        proof { reveal_strlit(": Queue is wrong."); }
        ascii(": Queue is wrong.")
    } else {
        proof { reveal_strlit(": Unknown error: "); }
        ascii(": Unknown error: ")
    }
}

/// Settings of the error log: process id and directory.
#[derive(Debug)]
pub struct LogApp {
    pid: u32,
    dir: Vec<u8>,
}

impl LogApp {
    pub closed spec fn spec_pid(&self) -> u32 {
        self.pid
    }

    pub closed spec fn spec_dir(&self) -> Seq<u8> {
        self.dir@
    }

    pub fn new() -> (r: LogApp)
        ensures
            r.spec_pid() == 0,
            r.spec_dir().len() == 0,
    {
        LogApp { pid: 0, dir: Vec::new() }
    }

    /// Sets the process id and the directory of the log file.
    pub fn set(&mut self, pid: u32, dir: Vec<u8>)
        ensures
            final(self).spec_pid() == pid,
            final(self).spec_dir() == dir@,
    {
        self.pid = pid;
        self.dir = dir;
    }

    /// The process id.
    pub fn pid(&self) -> (r: u32)
        ensures
            r == self.spec_pid(),
    {
        self.pid
    }

    /// The directory of the log file.
    pub fn dir(&self) -> (r: &Vec<u8>)
        ensures
            r@ == self.spec_dir(),
    {
        &self.dir
    }

    /// `Error <code><message><text>`.
    pub fn get_error(err: u32, text: &[u8]) -> (r: Vec<u8>)
        ensures
            r@ == ascii_bytes("Error "@) + decimal(err as nat) + ascii_bytes(error_text(err)) + text@,
    {
        proof {
            reveal_strlit("Error ");
        }
        let mut s = ascii("Error ");
        push_decimal(&mut s, err as u64);
        let s = concat(s.as_slice(), error_message(err).as_slice());
        concat(s.as_slice(), text)
    }
}

} // verus!
