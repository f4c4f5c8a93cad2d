//! The configuration file `tryteex.conf`: its `key = value` settings checked
//! and applied over the defaults.
use vstd::prelude::*;
use crate::i18n::{ini_items, ini_pairs, properties};
use crate::log::{LogApp, error_text};
use crate::text::{ascii, ascii_bytes, bytes_eq, bytes_view, decimal, parse_u16, split_by, split_pat, u16_of};
use crate::fastcgi::slice_to_vec;
use crate::view::lit;

verus! {

/// The settings.
#[derive(Debug)]
pub struct Config {
    pub max_connection: u16,
    /// `host:port` addresses to listen on, as written.
    pub socket: Vec<Vec<u8>>,
    /// Port of the control channel on the loopback address.
    pub irc: u16,
    pub dir: Vec<u8>,
    pub version: Vec<u8>,
    pub db_host: Vec<u8>,
    pub db_port: Vec<u8>,
    pub db_user: Vec<u8>,
    pub db_pwd: Vec<u8>,
    pub db_name: Vec<u8>,
    pub time_zone: Vec<u8>,
    pub salt: Vec<u8>,
}

pub struct ConfigView {
    pub max_connection: u16,
    pub socket: Seq<Seq<u8>>,
    pub irc: u16,
    pub dir: Seq<u8>,
    pub version: Seq<u8>,
    pub db_host: Seq<u8>,
    pub db_port: Seq<u8>,
    pub db_user: Seq<u8>,
    pub db_pwd: Seq<u8>,
    pub db_name: Seq<u8>,
    pub time_zone: Seq<u8>,
    pub salt: Seq<u8>,
}

impl Config {
    pub open spec fn view(&self) -> ConfigView {
        ConfigView {
            max_connection: self.max_connection,
            socket: bytes_view(self.socket@),
            irc: self.irc,
            dir: self.dir@,
            version: self.version@,
            db_host: self.db_host@,
            db_port: self.db_port@,
            db_user: self.db_user@,
            db_pwd: self.db_pwd@,
            db_name: self.db_name@,
            time_zone: self.time_zone@,
            salt: self.salt@,
        }
    }
}

/// A setting's value when it is not empty, else the error code.
pub open spec fn non_empty(v: Seq<u8>, code: u32) -> Result<Seq<u8>, (u32, Seq<u8>)> {
    if v.len() == 0 {
        Err((code, v))
    } else {
        Ok(v)
    }
}

/// One setting applied; unknown keys are ignored.
pub open spec fn apply(c: ConfigView, k: Seq<u8>, v: Seq<u8>) -> Result<ConfigView, (u32, Seq<u8>)> {
    if k == lit("max_connection") {
        match u16_of(v) {
            None => Err((102, v)),
            Some(0) => Err((101, v)),
            Some(n) => Ok(ConfigView { max_connection: n, ..c }),
        }
    } else if k == lit("socket") {
        if v.len() == 0 {
            Err((104, v))
        } else {
            Ok(ConfigView { socket: split_pat(v, seq![44u8], v.len()), ..c })
        }
    } else if k == lit("irc") {
        match u16_of(v) {
            None => Err((106, v)),
            Some(0) => Err((105, v)),
            Some(n) => Ok(ConfigView { irc: n, ..c }),
        }
    } else if k == lit("dir") {
        if v.len() == 0 {
            Err((107, v))
        } else if v.len() >= 1024 {
            Err((108, v))
        } else {
            Ok(ConfigView { dir: v, ..c })
        }
    } else if k == lit("version") {
        if v.len() == 0 {
            Err((109, v))
        } else if v.len() >= 12 {
            Err((110, v))
        } else {
            Ok(ConfigView { version: v, ..c })
        }
    } else if k == lit("db_host") {
        match non_empty(v, 111) { Ok(x) => Ok(ConfigView { db_host: x, ..c }), Err(e) => Err(e) }
    } else if k == lit("db_port") {
        match non_empty(v, 112) { Ok(x) => Ok(ConfigView { db_port: x, ..c }), Err(e) => Err(e) }
    } else if k == lit("db_user") {
        match non_empty(v, 113) { Ok(x) => Ok(ConfigView { db_user: x, ..c }), Err(e) => Err(e) }
    } else if k == lit("db_pwd") {
        match non_empty(v, 114) { Ok(x) => Ok(ConfigView { db_pwd: x, ..c }), Err(e) => Err(e) }
    } else if k == lit("db_name") {
        match non_empty(v, 115) { Ok(x) => Ok(ConfigView { db_name: x, ..c }), Err(e) => Err(e) }
    } else if k == lit("time_zone") {
        Ok(ConfigView { time_zone: v, ..c })
    } else if k == lit("salt") {
        Ok(ConfigView { salt: v, ..c })
    } else {
        Ok(c)
    }
}

/// The settings applied in order; the first bad one decides the error.
pub open spec fn apply_all(c: ConfigView, ps: Seq<(Seq<u8>, Seq<u8>)>) -> Result<ConfigView, (u32, Seq<u8>)>
    decreases ps.len(),
{
    if ps.len() == 0 {
        Ok(c)
    } else {
        match apply_all(c, ps.drop_last()) {
            Err(e) => Err(e),
            Ok(c2) => apply(c2, ps.last().0, ps.last().1),
        }
    }
}

/// The configuration a file gives over the defaults; the salt must be set.
pub open spec fn config_of(c: ConfigView, text: Seq<char>) -> Result<ConfigView, (u32, Seq<u8>)> {
    match apply_all(c, properties(ini_items(text))) {
        Err(e) => Err(e),
        Ok(c2) => if c2.salt.len() == 0 {
            Err((116, Seq::empty()))
        } else {
            Ok(c2)
        },
    }
}

fn copy(v: &Vec<u8>) -> (r: Vec<u8>)
    ensures
        r@ == v@,
{
    let r = slice_to_vec(v.as_slice(), 0, v.len());
    assert(v@.subrange(0, v@.len() as int) =~= v@);
    r
}

fn is(k: &[u8], s: &str) -> (r: bool)
    requires
        s.is_ascii(),
    ensures
        r == (k@ == ascii_bytes(s@)),
{
    bytes_eq(k, ascii(s).as_slice())
}

impl Config {
    /// The defaults: 25 connections, listening on 127.0.0.1:9001, control
    /// port 9001, a local database, no time zone and no salt.
    pub fn defaults(dir: Vec<u8>, version: Vec<u8>) -> (r: Config)
        ensures
            r.max_connection == 25,
            r.irc == 9001,
            r.dir@ == dir@,
            r.version@ == version@,
            bytes_view(r.socket@) == seq![lit("127.0.0.1:9001")],
            r.db_host@ == lit("127.0.0.1"),
            r.db_port@ == lit("5432"),
            r.db_user@ == lit("user"),
            r.db_pwd@ == lit("pwd"),
            r.db_name@ == lit("name"),
            r.time_zone@.len() == 0,
            r.salt@.len() == 0,
    {
        proof {
            reveal_strlit("127.0.0.1:9001");
            reveal_strlit("127.0.0.1");
            reveal_strlit("5432");
            reveal_strlit("user");
            reveal_strlit("pwd");
            reveal_strlit("name");
        }
        let mut socket: Vec<Vec<u8>> = Vec::new();
        socket.push(ascii("127.0.0.1:9001"));
        assert(bytes_view(socket@) =~= seq![lit("127.0.0.1:9001")]);
        Config {
            max_connection: 25,
            socket,
            irc: 9001,
            dir,
            version,
            db_host: ascii("127.0.0.1"),
            db_port: ascii("5432"),
            db_user: ascii("user"),
            db_pwd: ascii("pwd"),
            db_name: ascii("name"),
            time_zone: Vec::new(),
            salt: Vec::new(),
        }
    }

    /// Applies one setting; `Err` holds the error code and the value.
    fn set(&mut self, k: &[u8], v: Vec<u8>) -> (r: Result<(), (u32, Vec<u8>)>)
        ensures
            match apply(old(self).view(), k@, v@) {
                Ok(c) => r is Ok && final(self).view() == c,
                Err((code, x)) => r matches Err((rc, rx)) && rc == code && rx@ == x,
            },
    {
        proof {
            reveal_strlit("max_connection");
            reveal_strlit("socket");
            reveal_strlit("irc");
            reveal_strlit("dir");
            reveal_strlit("version");
            reveal_strlit("db_host");
            reveal_strlit("db_port");
            reveal_strlit("db_user");
            reveal_strlit("db_pwd");
            reveal_strlit("db_name");
            reveal_strlit("time_zone");
            reveal_strlit("salt");
        }
        if is(k, "max_connection") {
            match parse_u16(v.as_slice()) {
                None => Err((102, v)),
                Some(0) => Err((101, v)),
                Some(n) => {
                    self.max_connection = n;
                    Ok(())
                },
            }
        } else if is(k, "socket") {
            if v.len() == 0 {
                return Err((104, v));
            }
            let comma: Vec<u8> = vec![44u8];
            assert(comma@ =~= seq![44u8]);
            self.socket = split_by(v.as_slice(), comma.as_slice(), v.len());
            Ok(())
        } else if is(k, "irc") {
            match parse_u16(v.as_slice()) {
                None => Err((106, v)),
                Some(0) => Err((105, v)),
                Some(n) => {
                    self.irc = n;
                    Ok(())
                },
            }
        } else if is(k, "dir") {
            if v.len() == 0 {
                Err((107, v))
            } else if v.len() >= 1024 {
                Err((108, v))
            } else {
                self.dir = v;
                Ok(())
            }
        } else if is(k, "version") {
            if v.len() == 0 {
                Err((109, v))
            } else if v.len() >= 12 {
                Err((110, v))
            } else {
                self.version = v;
                Ok(())
            }
        } else if is(k, "db_host") {
            if v.len() == 0 { Err((111, v)) } else { self.db_host = v; Ok(()) }
        } else if is(k, "db_port") {
            if v.len() == 0 { Err((112, v)) } else { self.db_port = v; Ok(()) }
        } else if is(k, "db_user") {
            if v.len() == 0 { Err((113, v)) } else { self.db_user = v; Ok(()) }
        } else if is(k, "db_pwd") {
            if v.len() == 0 { Err((114, v)) } else { self.db_pwd = v; Ok(()) }
        } else if is(k, "db_name") {
            if v.len() == 0 { Err((115, v)) } else { self.db_name = v; Ok(()) }
        } else if is(k, "time_zone") {
            self.time_zone = v;
            Ok(())
        } else if is(k, "salt") {
            self.salt = v;
            Ok(())
        } else {
            Ok(())
        }
    }

    /// Applies the settings of a configuration text over `self`; on an
    /// error the message is `Error <code>: <text><value>`.
    pub fn load(&mut self, text: &str) -> (r: Result<(), Vec<u8>>)
        ensures
            match config_of(old(self).view(), text@) {
                Ok(c) => r is Ok && final(self).view() == c,
                Err((code, v)) => r matches Err(e) && e@ == ascii_bytes("Error "@) + decimal(code as nat)
                    + ascii_bytes(error_text(code)) + v,
            },
    {
        let pairs = ini_pairs(text);
        let ghost ps = pairs@.map_values(|p: (Vec<u8>, Vec<u8>)| (p.0@, p.1@));
        let ghost start = self.view();
        let mut pairs = pairs;
        let n = pairs.len();
        let mut i: usize = 0;
        while pairs.len() > 0
            invariant
                i + pairs@.len() == n,
                n == ps.len(),
                ps == properties(ini_items(text@)),
                start == old(self).view(),
                forall|j: int| 0 <= j < pairs@.len() ==> (#[trigger] pairs@[j]).0@ == ps[i + j].0 && pairs@[j].1@ == ps[i + j].1,
                apply_all(start, ps.take(i as int)) == Ok::<ConfigView, (u32, Seq<u8>)>(self.view()),
            decreases pairs@.len(),
        {
            let ghost before = pairs@;
            let (k, v) = pairs.remove(0);
            assert(before[0] == (k, v));
            assert forall|j: int| 0 <= j < pairs@.len() implies (#[trigger] pairs@[j]).0@ == ps[i + 1 + j].0 && pairs@[j].1@ == ps[i + 1 + j].1 by {
                assert(pairs@[j] == before[j + 1]);
            }
            assert(ps.take(i + 1).drop_last() =~= ps.take(i as int));
            assert(ps.take(i + 1).last() == ps[i as int]);
            match self.set(k.as_slice(), v) {
                Ok(()) => {},
                Err((code, x)) => {
                    proof {
                        lemma_error_stays(start, ps, i as int + 1);
                    }
                    return Err(LogApp::get_error(code, x.as_slice()));
                },
            }
            i += 1;
        }
        assert(ps.take(n as int) =~= ps);
        if self.salt.len() == 0 {
            let nothing: Vec<u8> = Vec::new();
            return Err(LogApp::get_error(116, nothing.as_slice()));
        }
        Ok(())
    }
}

proof fn lemma_error_stays(c: ConfigView, ps: Seq<(Seq<u8>, Seq<u8>)>, i: int)
    requires
        0 < i <= ps.len(),
        apply_all(c, ps.take(i)) is Err,
    ensures
        apply_all(c, ps) == apply_all(c, ps.take(i)),
    decreases ps.len() - i,
{
    if i < ps.len() {
        assert(ps.take(i + 1).drop_last() =~= ps.take(i));
        lemma_error_stays(c, ps, i + 1);
    } else {
        assert(ps.take(i) =~= ps);
    }
}

} // verus!
