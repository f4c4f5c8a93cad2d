//! The response under construction: status, redirect, cookie, extra
//! assets, and the header block written before the body.
use vstd::prelude::*;
use crate::text::{ascii, ascii_bytes, concat, decimal, decimal_of, push_decimal};
use crate::view::lit;
use crate::session::ON_YEAR;
use crate::fastcgi::slice_to_vec;

verus! {

/// Reason phrase of an HTTP status code.
pub open spec fn reason(code: u16) -> Seq<char> {
    if code == 100 {
        "Continue"@
    } else if code == 101 {
        "Switching Protocols"@
    } else if code == 102 {
        "Processing"@
    } else if code == 103 {
        "Early Hints"@
    } else if code == 200 {
        "OK"@
    } else if code == 201 {
        "Created"@
    } else if code == 202 {
        "Accepted"@
    } else if code == 203 {
        "Non-Authoritative Information"@
    } else if code == 204 {
        "No Content"@
    } else if code == 205 {
        "Reset Content"@
    } else if code == 206 {
        "Partial Content"@
    } else if code == 207 {
        "Multi-Status"@
    } else if code == 208 {
        "Already Reported"@
    } else if code == 226 {
        "IM Used"@
    } else if code == 300 {
        "Multiple Choices"@
    } else if code == 301 {
        "Moved Permanently"@
    } else if code == 302 {
        "Found"@
    } else if code == 303 {
        "See Other"@
    } else if code == 304 {
        "Not Modified"@
    } else if code == 305 {
        "Use Proxy"@
    } else if code == 306 {
        "(Unused)"@
    } else if code == 307 {
        "Temporary Redirect"@
    } else if code == 308 {
        "Permanent Redirect"@
    } else if code == 400 {
        "Bad Request"@
    } else if code == 401 {
        "Unauthorized"@
    } else if code == 402 {
        "Payment Required"@
    } else if code == 403 {
        "Forbidden"@
    } else if code == 404 {
        "Not Found"@
    } else if code == 405 {
        "Method Not Allowed"@
    } else if code == 406 {
        "Not Acceptable"@
    } else if code == 407 {
        "Proxy Authentication Required"@
    } else if code == 408 {
        "Request Timeout"@
    } else if code == 409 {
        "Conflict"@
    } else if code == 410 {
        "Gone"@
    } else if code == 411 {
        "Length Required"@
    } else if code == 412 {
        "Precondition Failed"@
    } else if code == 413 {
        "Content Too Large"@
    } else if code == 414 {
        "URI Too Long"@
    } else if code == 415 {
        "Unsupported Media Type"@
    } else if code == 416 {
        "Range Not Satisfiable"@
    } else if code == 417 {
        "Expectation Failed"@
    } else if code == 418 {
        "(Unused)"@
    } else if code == 421 {
        "Misdirected Request"@
    } else if code == 422 {
        "Unprocessable Content"@
    } else if code == 423 {
        "Locked"@
    } else if code == 424 {
        "Failed Dependency"@
    } else if code == 425 {
        "Too Early"@
    } else if code == 426 {
        "Upgrade Required"@
    } else if code == 428 {
        "Precondition Required"@
    } else if code == 429 {
        "Too Many Requests"@
    } else if code == 431 {
        "Request Header Fields Too Large"@
    } else if code == 451 {
        "Unavailable For Legal Reasons"@
    } else if code == 500 {
        "Internal Server Error"@
    } else if code == 501 {
        "Not Implemented"@
    } else if code == 502 {
        "Bad Gateway"@
    } else if code == 503 {
        "Service Unavailable"@
    } else if code == 504 {
        "Gateway Timeout"@
    } else if code == 505 {
        "HTTP Version Not Supported"@
    } else if code == 506 {
        "Variant Also Negotiates"@
    } else if code == 507 {
        "Insufficient Storage"@
    } else if code == 508 {
        "Loop Detected"@
    } else if code == 510 {
        "Not Extended (OBSOLETED)"@
    } else if code == 511 {
        "Network Authentication Required"@
    } else {
        "Unassigned"@
    }
}

/// The reason phrase of `code` as bytes.
fn reason_text(code: u16) -> (r: Vec<u8>)
    ensures
        r@ == ascii_bytes(reason(code)),
{
    if code == 100 {
        proof { reveal_strlit("Continue"); }
        ascii("Continue")
    } else if code == 101 {
        proof { reveal_strlit("Switching Protocols"); }
        ascii("Switching Protocols")
    } else if code == 102 {
        proof { reveal_strlit("Processing"); }
        ascii("Processing")
    } else if code == 103 {
        proof { reveal_strlit("Early Hints"); }
        ascii("Early Hints")
    } else if code == 200 {
        proof { reveal_strlit("OK"); }
        ascii("OK")
    } else if code == 201 {
        proof { reveal_strlit("Created"); }
        ascii("Created")
    } else if code == 202 {
        proof { reveal_strlit("Accepted"); }
        ascii("Accepted")
    } else if code == 203 {
        proof { reveal_strlit("Non-Authoritative Information"); }
        ascii("Non-Authoritative Information")
    } else if code == 204 {
        proof { reveal_strlit("No Content"); }
        ascii("No Content")
    } else if code == 205 {
        proof { reveal_strlit("Reset Content"); }
        ascii("Reset Content")
    } else if code == 206 {
        proof { reveal_strlit("Partial Content"); }
        ascii("Partial Content")
    } else if code == 207 {
        proof { reveal_strlit("Multi-Status"); }
        ascii("Multi-Status")
    } else if code == 208 {
        proof { reveal_strlit("Already Reported"); }
        ascii("Already Reported")
    } else if code == 226 {
        proof { reveal_strlit("IM Used"); }
        ascii("IM Used")
    } else if code == 300 {
        proof { reveal_strlit("Multiple Choices"); }
        ascii("Multiple Choices")
    } else if code == 301 {
        proof { reveal_strlit("Moved Permanently"); }
        ascii("Moved Permanently")
    } else if code == 302 {
        proof { reveal_strlit("Found"); }
        ascii("Found")
    } else if code == 303 {
        proof { reveal_strlit("See Other"); }
        ascii("See Other")
    } else if code == 304 {
        proof { reveal_strlit("Not Modified"); }
        ascii("Not Modified")
    } else if code == 305 {
        proof { reveal_strlit("Use Proxy"); }
        ascii("Use Proxy")
    } else if code == 306 {
        proof { reveal_strlit("(Unused)"); }
        ascii("(Unused)")
    } else if code == 307 {
        proof { reveal_strlit("Temporary Redirect"); }
        ascii("Temporary Redirect")
    } else if code == 308 {
        proof { reveal_strlit("Permanent Redirect"); }
        ascii("Permanent Redirect")
    } else if code == 400 {
        proof { reveal_strlit("Bad Request"); }
        ascii("Bad Request")
    } else if code == 401 {
        proof { reveal_strlit("Unauthorized"); }
        ascii("Unauthorized")
    } else if code == 402 {
        proof { reveal_strlit("Payment Required"); }
        ascii("Payment Required")
    } else if code == 403 {
        proof { reveal_strlit("Forbidden"); }
        ascii("Forbidden")
    } else if code == 404 {
        proof { reveal_strlit("Not Found"); }
        ascii("Not Found")
    } else if code == 405 {
        proof { reveal_strlit("Method Not Allowed"); }
        ascii("Method Not Allowed")
    } else if code == 406 {
        proof { reveal_strlit("Not Acceptable"); }
        ascii("Not Acceptable")
    } else if code == 407 {
        proof { reveal_strlit("Proxy Authentication Required"); }
        ascii("Proxy Authentication Required")
    } else if code == 408 {
        proof { reveal_strlit("Request Timeout"); }
        ascii("Request Timeout")
    } else if code == 409 {
        proof { reveal_strlit("Conflict"); }
        ascii("Conflict")
    } else if code == 410 {
        proof { reveal_strlit("Gone"); }
        ascii("Gone")
    } else if code == 411 {
        proof { reveal_strlit("Length Required"); }
        ascii("Length Required")
    } else if code == 412 {
        proof { reveal_strlit("Precondition Failed"); }
        ascii("Precondition Failed")
    } else if code == 413 {
        proof { reveal_strlit("Content Too Large"); }
        ascii("Content Too Large")
    } else if code == 414 {
        proof { reveal_strlit("URI Too Long"); }
        ascii("URI Too Long")
    } else if code == 415 {
        proof { reveal_strlit("Unsupported Media Type"); }
        ascii("Unsupported Media Type")
    } else if code == 416 {
        proof { reveal_strlit("Range Not Satisfiable"); }
        ascii("Range Not Satisfiable")
    } else if code == 417 {
        proof { reveal_strlit("Expectation Failed"); }
        ascii("Expectation Failed")
    } else if code == 418 {
        proof { reveal_strlit("(Unused)"); }
        ascii("(Unused)")
    } else if code == 421 {
        proof { reveal_strlit("Misdirected Request"); }
        ascii("Misdirected Request")
    } else if code == 422 {
        proof { reveal_strlit("Unprocessable Content"); }
        ascii("Unprocessable Content")
    } else if code == 423 {
        proof { reveal_strlit("Locked"); }
        ascii("Locked")
    } else if code == 424 {
        proof { reveal_strlit("Failed Dependency"); }
        ascii("Failed Dependency")
    } else if code == 425 {
        proof { reveal_strlit("Too Early"); }
        ascii("Too Early")
    } else if code == 426 {
        proof { reveal_strlit("Upgrade Required"); }
        ascii("Upgrade Required")
    } else if code == 428 {
        proof { reveal_strlit("Precondition Required"); }
        ascii("Precondition Required")
    } else if code == 429 {
        proof { reveal_strlit("Too Many Requests"); }
        ascii("Too Many Requests")
    } else if code == 431 {
        proof { reveal_strlit("Request Header Fields Too Large"); }
        ascii("Request Header Fields Too Large")
    } else if code == 451 {
        proof { reveal_strlit("Unavailable For Legal Reasons"); }
        ascii("Unavailable For Legal Reasons")
    } else if code == 500 {
        proof { reveal_strlit("Internal Server Error"); }
        ascii("Internal Server Error")
    } else if code == 501 {
        proof { reveal_strlit("Not Implemented"); }
        ascii("Not Implemented")
    } else if code == 502 {
        proof { reveal_strlit("Bad Gateway"); }
        ascii("Bad Gateway")
    } else if code == 503 {
        proof { reveal_strlit("Service Unavailable"); }
        ascii("Service Unavailable")
    } else if code == 504 {
        proof { reveal_strlit("Gateway Timeout"); }
        ascii("Gateway Timeout")
    } else if code == 505 {
        proof { reveal_strlit("HTTP Version Not Supported"); }
        ascii("HTTP Version Not Supported")
    } else if code == 506 {
        proof { reveal_strlit("Variant Also Negotiates"); }
        ascii("Variant Also Negotiates")
    } else if code == 507 {
        proof { reveal_strlit("Insufficient Storage"); }
        ascii("Insufficient Storage")
    } else if code == 508 {
        proof { reveal_strlit("Loop Detected"); }
        ascii("Loop Detected")
    } else if code == 510 {
        proof { reveal_strlit("Not Extended (OBSOLETED)"); }
        ascii("Not Extended (OBSOLETED)")
    } else if code == 511 {
        proof { reveal_strlit("Network Authentication Required"); }
        ascii("Network Authentication Required")
    } else {
        proof { reveal_strlit("Unassigned"); }
        ascii("Unassigned")
    }
}

/// Status line text: the code, a space, the reason phrase.
pub open spec fn status_text(code: u16) -> Seq<u8> {
    decimal(code as nat) + seq![32u8] + ascii_bytes(reason(code))
}

/// A redirect: the target URL and whether it is permanent.
#[derive(Debug)]
pub struct Location {
    pub url: Vec<u8>,
    pub permanently: bool,
}

/// The session cookie to set.
#[derive(Debug)]
pub struct Cookie {
    pub key: Vec<u8>,
    pub value: Vec<u8>,
    pub time: u32,
}

/// The response under construction.
#[derive(Debug)]
pub struct Response {
    pub cookie: Option<Cookie>,
    pub location: Option<Location>,
    pub code: Option<u16>,
    pub css: Vec<Vec<u8>>,
    pub js: Vec<Vec<u8>>,
    pub lang: Vec<u8>,
}

impl Response {
    pub open spec fn spec_code(&self) -> Option<u16> {
        self.code
    }

    /// The redirect target and kind.
    pub open spec fn spec_location(&self) -> Option<(Seq<u8>, bool)> {
        match self.location {
            Some(l) => Some((l.url@, l.permanently)),
            None => None,
        }
    }

    /// The cookie's key, value and max-age.
    pub open spec fn spec_cookie(&self) -> Option<(Seq<u8>, Seq<u8>, u32)> {
        match self.cookie {
            Some(c) => Some((c.key@, c.value@, c.time)),
            None => None,
        }
    }

    pub fn new() -> (r: Response)
        ensures
            r.spec_code().is_none(),
            r.spec_location().is_none(),
            r.spec_cookie().is_none(),
            r.css@.len() == 0,
            r.js@.len() == 0,
            r.lang@.len() == 0,
    {
        Response {
            code: None,
            cookie: None,
            location: None,
            css: Vec::new(),
            js: Vec::new(),
            lang: Vec::new(),
        }
    }

    /// Sets the HTTP status code.
    pub fn set_header_code(&mut self, code: u16)
        ensures
            final(self).spec_code() == Some(code),
            final(self).spec_location() == old(self).spec_location(),
            final(self).spec_cookie() == old(self).spec_cookie(),
    {
        self.code = Some(code);
    }

    /// The HTTP status code, if set.
    pub fn get_header_code(&self) -> (r: Option<&u16>)
        ensures
            match self.spec_code() {
                None => r.is_none(),
                Some(c) => r == Some(&c),
            },
    {
        self.code.as_ref()
    }

    /// Sets the session cookie.
    pub fn set_cookie(&mut self, key: Vec<u8>, value: Vec<u8>, time: u32)
        ensures
            final(self).spec_cookie() == Some((key@, value@, time)),
            final(self).spec_code() == old(self).spec_code(),
            final(self).spec_location() == old(self).spec_location(),
    {
        self.cookie = Some(Cookie { key, value, time });
    }

    /// The session cookie, if set.
    pub fn get_cookie(&self) -> (r: Option<&Cookie>)
        ensures
            match self.spec_cookie() {
                None => r.is_none(),
                Some((k, v, t)) => r matches Some(c) && c.key@ == k && c.value@ == v && c.time == t,
            },
    {
        self.cookie.as_ref()
    }

    /// Sets a redirect to `url`.
    pub fn set_redirect(&mut self, url: &[u8], permanently: bool)
        ensures
            final(self).spec_location() == Some((url@, permanently)),
            final(self).spec_code() == old(self).spec_code(),
            final(self).spec_cookie() == old(self).spec_cookie(),
    {
        self.location = Some(Location { url: slice_to_vec(url, 0, url.len()), permanently });
        assert(url@.subrange(0, url@.len() as int) =~= url@);
    }

    /// The redirect, if set.
    pub fn get_redirect(&self) -> (r: Option<&Location>)
        ensures
            match self.spec_location() {
                None => r.is_none(),
                Some((u, p)) => r matches Some(l) && l.url@ == u && l.permanently == p,
            },
    {
        self.location.as_ref()
    }

    /// Status line text of a code: `301 Moved Permanently`, `404 Not Found`,
    /// `599 Unassigned`.
    pub fn get_code(code: u16) -> (r: Vec<u8>)
        ensures
            r@ == status_text(code),
    {
        let mut s = decimal_of(code as u64);
        s.push(32);
        concat(s.as_slice(), reason_text(code).as_slice())
    }
}

/// The status of a response: 301 or 302 for a redirect, else the code set,
/// else 200.
pub open spec fn status_of(location: Option<(Seq<u8>, bool)>, code: Option<u16>) -> u16 {
    match location {
        Some((_, true)) => 301,
        Some((_, false)) => 302,
        None => match code {
            Some(c) => c,
            None => 200,
        },
    }
}

pub open spec fn crlf_bytes() -> Seq<u8> {
    seq![13u8, 10u8]
}

/// `HTTP/1.1 <status>` and, for a redirect, its `Location` line.
pub open spec fn status_lines(location: Option<(Seq<u8>, bool)>, code: Option<u16>) -> Seq<u8> {
    lit("HTTP/1.1 ") + status_text(status_of(location, code)) + crlf_bytes() + match location {
        Some((url, _)) => lit("Location: ") + url + crlf_bytes(),
        None => Seq::empty(),
    }
}

/// The `Set-Cookie` line.
pub open spec fn cookie_line(key: Seq<u8>, value: Seq<u8>, max_age: u32, expires: Seq<u8>, host: Seq<u8>) -> Seq<u8> {
    lit("Set-Cookie: ") + key + lit("=") + value + lit("; Expires=") + expires + lit("; Max-Age=")
        + decimal(max_age as nat) + lit("; path=/; domain=") + host + lit("; Secure; SameSite=none")
        + crlf_bytes()
}

/// The connection, content type and length lines and the blank line.
pub open spec fn tail_lines(len: nat) -> Seq<u8> {
    lit("Connection: keep-alive") + crlf_bytes() + lit("Content-Type: text/html; charset=utf-8")
        + crlf_bytes() + lit("Content-Length: ") + decimal(len) + crlf_bytes() + crlf_bytes()
}

fn status_part(location: &Option<Location>, code: Option<u16>) -> (r: Vec<u8>)
    ensures
        r@ == status_lines(
            match location {
                Some(l) => Some((l.url@, l.permanently)),
                None => None,
            },
            code,
        ),
{
    proof {
        reveal_strlit("HTTP/1.1 ");
        reveal_strlit("Location: ");
    }
    let nl: Vec<u8> = vec![13u8, 10u8];
    assert(nl@ =~= crlf_bytes());
    let status: u16 = match location {
        Some(l) => if l.permanently { 301 } else { 302 },
        None => match code {
            Some(c) => c,
            None => 200,
        },
    };
    let mut out = concat(ascii("HTTP/1.1 ").as_slice(), Response::get_code(status).as_slice());
    out = concat(out.as_slice(), nl.as_slice());
    if let Some(l) = location {
        out = concat(out.as_slice(), ascii("Location: ").as_slice());
        out = concat(out.as_slice(), l.url.as_slice());
        out = concat(out.as_slice(), nl.as_slice());
    }
    let ghost loc = match location {
        Some(l) => Some((l.url@, l.permanently)),
        None => None,
    };
    assert(out@ =~= status_lines(loc, code));
    out
}

fn cookie_part(key: &[u8], value: &[u8], max_age: u32, expires: &[u8], host: &[u8]) -> (r: Vec<u8>)
    ensures
        r@ == cookie_line(key@, value@, max_age, expires@, host@),
{
    proof {
        reveal_strlit("Set-Cookie: ");
        reveal_strlit("=");
        reveal_strlit("; Expires=");
        reveal_strlit("; Max-Age=");
        reveal_strlit("; path=/; domain=");
        reveal_strlit("; Secure; SameSite=none");
    }
    let nl: Vec<u8> = vec![13u8, 10u8];
    assert(nl@ =~= crlf_bytes());
    let mut out = concat(ascii("Set-Cookie: ").as_slice(), key);
    out = concat(out.as_slice(), ascii("=").as_slice());
    out = concat(out.as_slice(), value);
    out = concat(out.as_slice(), ascii("; Expires=").as_slice());
    out = concat(out.as_slice(), expires);
    out = concat(out.as_slice(), ascii("; Max-Age=").as_slice());
    push_decimal(&mut out, max_age as u64);
    out = concat(out.as_slice(), ascii("; path=/; domain=").as_slice());
    out = concat(out.as_slice(), host);
    out = concat(out.as_slice(), ascii("; Secure; SameSite=none").as_slice());
    out = concat(out.as_slice(), nl.as_slice());
    assert(out@ =~= cookie_line(key@, value@, max_age, expires@, host@));
    out
}

fn tail_part(len: usize) -> (r: Vec<u8>)
    ensures
        r@ == tail_lines(len as nat),
{
    proof {
        reveal_strlit("Connection: keep-alive");
        reveal_strlit("Content-Type: text/html; charset=utf-8");
        reveal_strlit("Content-Length: ");
    }
    let nl: Vec<u8> = vec![13u8, 10u8];
    assert(nl@ =~= crlf_bytes());
    let mut out = concat(ascii("Connection: keep-alive").as_slice(), nl.as_slice());
    out = concat(out.as_slice(), ascii("Content-Type: text/html; charset=utf-8").as_slice());
    out = concat(out.as_slice(), nl.as_slice());
    out = concat(out.as_slice(), ascii("Content-Length: ").as_slice());
    push_decimal(&mut out, len as u64);
    out = concat(out.as_slice(), nl.as_slice());
    out = concat(out.as_slice(), nl.as_slice());
    assert(out@ =~= tail_lines(len as nat));
    out
}

impl Response {
    /// The bytes written to the web server: the status line, a redirect's
    /// `Location` line, the `Set-Cookie` line (`expires` is the cookie's
    /// expiry date as text; without a cookie, an empty `tryteex` one), the
    /// connection, type and length lines, a blank line, then `body`.
    pub fn answer(&self, host: &[u8], expires: &[u8], body: &[u8]) -> (r: Vec<u8>)
        ensures
            ({
                let (k, v, t) = match self.spec_cookie() {
                    Some(c) => c,
                    None => (lit("tryteex"), Seq::empty(), ON_YEAR),
                };
                r@ == status_lines(self.spec_location(), self.spec_code()) + cookie_line(
                    k,
                    v,
                    t,
                    expires@,
                    host@,
                ) + tail_lines(body@.len()) + body@
            }),
    {
        proof {
            reveal_strlit("tryteex");
        }
        let status = status_part(&self.location, self.code);
        let cookie = match &self.cookie {
            Some(c) => cookie_part(c.key.as_slice(), c.value.as_slice(), c.time, expires, host),
            None => {
                let nothing: Vec<u8> = Vec::new();
                cookie_part(ascii("tryteex").as_slice(), nothing.as_slice(), ON_YEAR, expires, host)
            },
        };
        let out = concat(status.as_slice(), cookie.as_slice());
        let out = concat(out.as_slice(), tail_part(body.len()).as_slice());
        concat(out.as_slice(), body)
    }
}

/// Relies on `chrono::Utc::now`, a `chrono::Duration` of `max_age` seconds
/// and `format`: the expiry date text of a cookie set now.
#[verifier::external_body]
fn cookie_expires(max_age: u32) -> (r: Vec<u8>)
{
    let time = chrono::Utc::now() + chrono::Duration::seconds(max_age.into());
    time.format("%a, %d-%b-%Y %H:%M:%S GMT").to_string().into_bytes()
}

/// The response text for a response's redirect, code and cookie, a cookie
/// expiry date text, the host and the body.
pub open spec fn answer_text(
    location: Option<(Seq<u8>, bool)>,
    code: Option<u16>,
    cookie: Option<(Seq<u8>, Seq<u8>, u32)>,
    expires: Seq<u8>,
    host: Seq<u8>,
    body: Seq<u8>,
) -> Seq<u8> {
    let (k, v, t) = match cookie {
        Some(c) => c,
        None => (lit("tryteex"), Seq::empty(), ON_YEAR),
    };
    status_lines(location, code) + cookie_line(k, v, t, expires, host) + tail_lines(body.len()) + body
}

impl Response {
    /// The bytes written to the web server, with the cookie's expiry date
    /// taken from the clock (`Max-Age` seconds from now).
    pub fn answer_now(&self, host: &[u8], body: &[u8]) -> (r: Vec<u8>)
        ensures
            exists|expires: Seq<u8>|
                r@ == #[trigger] answer_text(
                    self.spec_location(),
                    self.spec_code(),
                    self.spec_cookie(),
                    expires,
                    host@,
                    body@,
                ),
    {
        let age = match &self.cookie {
            Some(c) => c.time,
            None => ON_YEAR,
        };
        let expires = cookie_expires(age);
        let r = self.answer(host, expires.as_slice(), body);
        assert(r@ == answer_text(self.spec_location(), self.spec_code(), self.spec_cookie(), expires@, host@, body@));
        r
    }
}

} // verus!
