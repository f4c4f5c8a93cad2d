//! The controllers the server knows, by module, class and action, and what
//! a request becomes when access is denied.
use vstd::prelude::*;
use crate::text::{ascii, ascii_bytes, bytes_eq};
use crate::view::lit;
use crate::data::{Data, Value};
use crate::storage::Storage;
use crate::text::concat;

verus! {

/// A controller handler.
#[derive(PartialEq, Eq, Structural, Clone, Copy, Debug)]
pub enum Controller {
    AdminIndexIndex,
    AdminIndexMain,
    IndexCartIndex,
    IndexIndexIndex,
    IndexIndexHead,
    IndexIndexFoot,
    IndexIndexNotFound,
    IndexMenuHeader,
    IndexMenuProducts,
    IndexMenuList,
    IndexMenuLogo,
    IndexMenuUpper,
    IndexSearchMain,
    IndexSearchSmall,
    UserAdminIndex,
    UserIndexMenu,
    UserIndexUp,
}

/// The controller registered for a module, class and action.
pub open spec fn controller_of(m: Seq<u8>, c: Seq<u8>, a: Seq<u8>) -> Option<Controller> {
    if m == lit("admin") && c == lit("index") && a == lit("index") {
        Some(Controller::AdminIndexIndex)
    } else if m == lit("admin") && c == lit("index") && a == lit("main") {
        Some(Controller::AdminIndexMain)
    } else if m == lit("index") && c == lit("cart") && a == lit("index") {
        Some(Controller::IndexCartIndex)
    } else if m == lit("index") && c == lit("index") && a == lit("index") {
        Some(Controller::IndexIndexIndex)
    } else if m == lit("index") && c == lit("index") && a == lit("head") {
        Some(Controller::IndexIndexHead)
    } else if m == lit("index") && c == lit("index") && a == lit("foot") {
        Some(Controller::IndexIndexFoot)
    } else if m == lit("index") && c == lit("index") && a == lit("not_found") {
        Some(Controller::IndexIndexNotFound)
    } else if m == lit("index") && c == lit("menu") && a == lit("header") {
        Some(Controller::IndexMenuHeader)
    } else if m == lit("index") && c == lit("menu") && a == lit("products") {
        Some(Controller::IndexMenuProducts)
    } else if m == lit("index") && c == lit("menu") && a == lit("list") {
        Some(Controller::IndexMenuList)
    } else if m == lit("index") && c == lit("menu") && a == lit("logo") {
        Some(Controller::IndexMenuLogo)
    } else if m == lit("index") && c == lit("menu") && a == lit("upper") {
        Some(Controller::IndexMenuUpper)
    } else if m == lit("index") && c == lit("search") && a == lit("main") {
        Some(Controller::IndexSearchMain)
    } else if m == lit("index") && c == lit("search") && a == lit("small") {
        Some(Controller::IndexSearchSmall)
    } else if m == lit("user") && c == lit("admin") && a == lit("index") {
        Some(Controller::UserAdminIndex)
    } else if m == lit("user") && c == lit("index") && a == lit("menu") {
        Some(Controller::UserIndexMenu)
    } else if m == lit("user") && c == lit("index") && a == lit("up") {
        Some(Controller::UserIndexUp)
    } else {
        None
    }
}

fn is(x: &[u8], s: &str) -> (r: bool)
    requires
        s.is_ascii(),
    ensures
        r == (x@ == ascii_bytes(s@)),
{
    bytes_eq(x, ascii(s).as_slice())
}

/// Finds the controller for a module, class and action.
pub fn find_controller(m: &[u8], c: &[u8], a: &[u8]) -> (r: Option<Controller>)
    ensures
        r == controller_of(m@, c@, a@),
{
    proof {
        reveal_strlit("admin");
        reveal_strlit("cart");
        reveal_strlit("foot");
        reveal_strlit("head");
        reveal_strlit("header");
        reveal_strlit("index");
        reveal_strlit("list");
        reveal_strlit("logo");
        reveal_strlit("main");
        reveal_strlit("menu");
        reveal_strlit("not_found");
        reveal_strlit("products");
        reveal_strlit("search");
        reveal_strlit("small");
        reveal_strlit("up");
        reveal_strlit("upper");
        reveal_strlit("user");
    }
    if is(m, "admin") && is(c, "index") && is(a, "index") {
        Some(Controller::AdminIndexIndex)
    } else if is(m, "admin") && is(c, "index") && is(a, "main") {
        Some(Controller::AdminIndexMain)
    } else if is(m, "index") && is(c, "cart") && is(a, "index") {
        Some(Controller::IndexCartIndex)
    } else if is(m, "index") && is(c, "index") && is(a, "index") {
        Some(Controller::IndexIndexIndex)
    } else if is(m, "index") && is(c, "index") && is(a, "head") {
        Some(Controller::IndexIndexHead)
    } else if is(m, "index") && is(c, "index") && is(a, "foot") {
        Some(Controller::IndexIndexFoot)
    } else if is(m, "index") && is(c, "index") && is(a, "not_found") {
        Some(Controller::IndexIndexNotFound)
    } else if is(m, "index") && is(c, "menu") && is(a, "header") {
        Some(Controller::IndexMenuHeader)
    } else if is(m, "index") && is(c, "menu") && is(a, "products") {
        Some(Controller::IndexMenuProducts)
    } else if is(m, "index") && is(c, "menu") && is(a, "list") {
        Some(Controller::IndexMenuList)
    } else if is(m, "index") && is(c, "menu") && is(a, "logo") {
        Some(Controller::IndexMenuLogo)
    } else if is(m, "index") && is(c, "menu") && is(a, "upper") {
        Some(Controller::IndexMenuUpper)
    } else if is(m, "index") && is(c, "search") && is(a, "main") {
        Some(Controller::IndexSearchMain)
    } else if is(m, "index") && is(c, "search") && is(a, "small") {
        Some(Controller::IndexSearchSmall)
    } else if is(m, "user") && is(c, "admin") && is(a, "index") {
        Some(Controller::UserAdminIndex)
    } else if is(m, "user") && is(c, "index") && is(a, "menu") {
        Some(Controller::UserIndexMenu)
    } else if is(m, "user") && is(c, "index") && is(a, "up") {
        Some(Controller::UserIndexUp)
    } else {
        None
    }
}

/// What a controller hands back: nothing (stop producing output) or text.
#[derive(Debug)]
pub enum Answer {
    Empty,
    String(Vec<u8>),
}

/// Where a denied top-level request is sent.
pub open spec fn not_found_url() -> Seq<u8> {
    lit("/index/index/not_found")
}

/// The answer for a denied request: an internal render gets the text
/// `not_found`; a top-level request gets no body and a temporary redirect
/// to the not-found page (`Some` holds its URL).
pub fn on_denied(internal: bool) -> (r: (Answer, Option<Vec<u8>>))
    ensures
        internal ==> (r.0 matches Answer::String(t) && t@ == lit("not_found") && r.1 is None),
        !internal ==> (r.0 is Empty && (r.1 matches Some(u) && u@ == not_found_url())),
{
    proof {
        reveal_strlit("not_found");
        reveal_strlit("/index/index/not_found");
    }
    if internal {
        (Answer::String(ascii("not_found")), None)
    } else {
        (Answer::Empty, Some(ascii("/index/index/not_found")))
    }
}

pub open spec fn setting_key(key: Seq<u8>) -> Seq<u8> {
    lit("setting:") + key
}

/// A setting's value when the cache holds it as text.
pub fn setting_cached(storage: &Storage, key: &[u8]) -> (r: Option<Vec<u8>>)
    ensures
        match storage@.get(setting_key(key@)) {
            Some(Value::String(v)) => r matches Some(x) && x@ == v,
            _ => r is None,
        },
{
    proof {
        reveal_strlit("setting:");
    }
    let k = concat(ascii("setting:").as_slice(), key);
    match storage.get(k.as_slice()) {
        Some(Data::String(v)) => Some(v),
        _ => None,
    }
}

/// Caches a setting's value read from the database.
pub fn store_setting(storage: &mut Storage, key: &[u8], value: Vec<u8>)
    ensures
        final(storage)@ == old(storage)@.insert(setting_key(key@), Value::String(value@)),
{
    proof {
        reveal_strlit("setting:");
    }
    let k = concat(ascii("setting:").as_slice(), key);
    storage.set(k, Data::String(value));
}

} // verus!
