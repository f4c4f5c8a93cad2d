//! The SQL text of every query the pipeline issues.
use vstd::prelude::*;
use crate::session::{access_conditions, access_conditions_spec, signed_decimal};
use crate::text::{ascii, concat, push_signed};
use crate::view::lit;

verus! {

/// A text as a quoted SQL literal.
pub uninterp spec fn sql_literal(s: Seq<u8>) -> Seq<u8>;

/// Each `'` and `\` of a text doubled.
pub open spec fn doubled(s: Seq<u8>) -> Seq<u8>
    decreases s.len(),
{
    if s.len() == 0 {
        s
    } else {
        doubled(s.drop_last()) + if s.last() == 39 || s.last() == 92 {
            seq![s.last(), s.last()]
        } else {
            seq![s.last()]
        }
    }
}

/// A UTF-8 text as a quoted SQL literal: `'…'` with quotes and backslashes
/// doubled, preceded by ` E` when it holds a backslash.
pub open spec fn quoted(s: Seq<u8>) -> Seq<u8> {
    (if s.contains(92u8) {
        seq![32u8, 69u8]
    } else {
        Seq::empty()
    }) + seq![39u8] + doubled(s) + seq![39u8]
}

/// Relies on `postgres_protocol::escape::escape_literal`: the text quoted
/// as a literal, its quotes and backslashes doubled, with ` E` in front when
/// it holds a backslash (invalid UTF-8 is first replaced, as
/// `String::from_utf8_lossy` does).
#[verifier::external_body]
fn escape(s: &[u8]) -> (r: Vec<u8>)
    ensures
        r@ == sql_literal(s@),
        vstd::utf8::valid_utf8(s@) ==> r@ == quoted(s@),
{
    postgres_protocol::escape::escape_literal(&String::from_utf8_lossy(s)).into_bytes()
}

fn wrap(before: &str, value: &[u8], after: &str) -> (r: Vec<u8>)
    requires
        before.is_ascii(),
        after.is_ascii(),
    ensures
        r@ == crate::text::ascii_bytes(before@) + sql_literal(value@) + crate::text::ascii_bytes(after@),
{
    let a = concat(ascii(before).as_slice(), escape(value).as_slice());
    concat(a.as_slice(), ascii(after).as_slice())
}

pub open spec fn redirect_query_spec(url: Seq<u8>) -> Seq<u8> {
    lit("SELECT redirect, permanently FROM redirect WHERE url=") + sql_literal(url)
}

/// The redirect row of a URL.
pub fn redirect_query(url: &[u8]) -> (r: Vec<u8>)
    ensures
        r@ == redirect_query_spec(url@),
{
    proof {
        reveal_strlit("SELECT redirect, permanently FROM redirect WHERE url=");
        reveal_strlit("");
    }
    let r = wrap("SELECT redirect, permanently FROM redirect WHERE url=", url, "");
    assert(r@ =~= redirect_query_spec(url@));
    r
}

pub open spec fn route_query_spec(url: Seq<u8>) -> Seq<u8> {
    lit("SELECT c.module, c.class, c.action, r.params, r.lang_id FROM route r INNER JOIN controller c ON r.controller_id=c.controller_id WHERE r.url=")
        + sql_literal(url) + lit(" AND LENGTH(c.module)>0 AND LENGTH(c.class)>0 AND LENGTH(c.action)>0")
}

/// The route row of a URL, with its controller.
pub fn route_query(url: &[u8]) -> (r: Vec<u8>)
    ensures
        r@ == route_query_spec(url@),
{
    proof {
        reveal_strlit("SELECT c.module, c.class, c.action, r.params, r.lang_id FROM route r INNER JOIN controller c ON r.controller_id=c.controller_id WHERE r.url=");
        reveal_strlit(" AND LENGTH(c.module)>0 AND LENGTH(c.class)>0 AND LENGTH(c.action)>0");
    }
    wrap(
        "SELECT c.module, c.class, c.action, r.params, r.lang_id FROM route r INNER JOIN controller c ON r.controller_id=c.controller_id WHERE r.url=",
        url,
        " AND LENGTH(c.module)>0 AND LENGTH(c.class)>0 AND LENGTH(c.action)>0",
    )
}

pub open spec fn setting_query_spec(key: Seq<u8>) -> Seq<u8> {
    lit("SELECT data FROM setting WHERE key=") + sql_literal(key)
}

/// The value of a setting.
pub fn setting_query(key: &[u8]) -> (r: Vec<u8>)
    ensures
        r@ == setting_query_spec(key@),
{
    proof {
        reveal_strlit("SELECT data FROM setting WHERE key=");
        reveal_strlit("");
    }
    let r = wrap("SELECT data FROM setting WHERE key=", key, "");
    assert(r@ =~= setting_query_spec(key@));
    r
}

pub open spec fn access_query_spec(user_id: i64, m: Seq<u8>, c: Seq<u8>, a: Seq<u8>) -> Seq<u8> {
    lit("SELECT COALESCE(MAX(a.access::int), 0) AS access FROM access a INNER JOIN user_role u ON u.role_id=a.role_id INNER JOIN controller c ON a.controller_id=c.controller_id WHERE a.access AND u.user_id=")
        + signed_decimal(user_id as int) + lit(" AND (") + access_conditions_spec(m, c, a) + lit(")")
}

/// Whether any role of the user grants a controller on the path to
/// `module/class/action`: 1 or 0.
pub fn access_query(user_id: i64, m: &[u8], c: &[u8], a: &[u8]) -> (r: Vec<u8>)
    ensures
        r@ == access_query_spec(user_id, m@, c@, a@),
{
    proof {
        reveal_strlit("SELECT COALESCE(MAX(a.access::int), 0) AS access FROM access a INNER JOIN user_role u ON u.role_id=a.role_id INNER JOIN controller c ON a.controller_id=c.controller_id WHERE a.access AND u.user_id=");
        reveal_strlit(" AND (");
        reveal_strlit(")");
    }
    let mut q = ascii("SELECT COALESCE(MAX(a.access::int), 0) AS access FROM access a INNER JOIN user_role u ON u.role_id=a.role_id INNER JOIN controller c ON a.controller_id=c.controller_id WHERE a.access AND u.user_id=");
    push_signed(&mut q, user_id);
    let q = concat(q.as_slice(), ascii(" AND (").as_slice());
    let q = concat(q.as_slice(), access_conditions(m, c, a).as_slice());
    let q = concat(q.as_slice(), ascii(")").as_slice());
    assert(q@ =~= access_query_spec(user_id, m@, c@, a@));
    q
}

pub open spec fn session_query_spec(key: Seq<u8>, ip: Seq<u8>, agent: Seq<u8>) -> Seq<u8> {
    lit("WITH new_q AS (SELECT 0::int8 user_id, ") + sql_literal(key)
        + lit("::text session, '{}'::jsonb data, now() created, now() last, ") + sql_literal(ip)
        + lit(" ip, ") + sql_literal(agent)
        + lit(" user_agent), ins_q AS (INSERT INTO session (user_id, session, data, created, last, ip, user_agent) SELECT n.user_id, n.session, n.data, n.created, n.last, n.ip, n.user_agent FROM new_q n LEFT JOIN session s ON s.session=n.session WHERE s.session_id IS NULL RETURNING session_id, data, user_id) SELECT session_id, data::text, user_id FROM ins_q UNION SELECT session_id, data::text, user_id FROM session WHERE session=")
        + sql_literal(key)
}

/// Reads the session row of a key, inserting a fresh one when missing.
pub fn session_query(key: &[u8], ip: &[u8], agent: &[u8]) -> (r: Vec<u8>)
    ensures
        r@ == session_query_spec(key@, ip@, agent@),
{
    proof {
        reveal_strlit("WITH new_q AS (SELECT 0::int8 user_id, ");
        reveal_strlit("::text session, '{}'::jsonb data, now() created, now() last, ");
        reveal_strlit(" ip, ");
        reveal_strlit(" user_agent), ins_q AS (INSERT INTO session (user_id, session, data, created, last, ip, user_agent) SELECT n.user_id, n.session, n.data, n.created, n.last, n.ip, n.user_agent FROM new_q n LEFT JOIN session s ON s.session=n.session WHERE s.session_id IS NULL RETURNING session_id, data, user_id) SELECT session_id, data::text, user_id FROM ins_q UNION SELECT session_id, data::text, user_id FROM session WHERE session=");
    }
    let k = escape(key);
    let mut q = concat(ascii("WITH new_q AS (SELECT 0::int8 user_id, ").as_slice(), k.as_slice());
    q = concat(q.as_slice(), ascii("::text session, '{}'::jsonb data, now() created, now() last, ").as_slice());
    q = concat(q.as_slice(), escape(ip).as_slice());
    q = concat(q.as_slice(), ascii(" ip, ").as_slice());
    q = concat(q.as_slice(), escape(agent).as_slice());
    q = concat(q.as_slice(), ascii(" user_agent), ins_q AS (INSERT INTO session (user_id, session, data, created, last, ip, user_agent) SELECT n.user_id, n.session, n.data, n.created, n.last, n.ip, n.user_agent FROM new_q n LEFT JOIN session s ON s.session=n.session WHERE s.session_id IS NULL RETURNING session_id, data, user_id) SELECT session_id, data::text, user_id FROM ins_q UNION SELECT session_id, data::text, user_id FROM session WHERE session=").as_slice());
    q = concat(q.as_slice(), k.as_slice());
    assert(q@ =~= session_query_spec(key@, ip@, agent@));
    q
}

pub open spec fn session_save_spec(
    changed: bool,
    user_id: i64,
    data: Seq<u8>,
    ip: Seq<u8>,
    agent: Seq<u8>,
    session_id: i64,
) -> Seq<u8> {
    if changed {
        lit("UPDATE session SET user_id=") + signed_decimal(user_id as int) + lit(", data=")
            + sql_literal(data) + lit(", last=now(), ip=") + sql_literal(ip) + lit(", user_agent=")
            + sql_literal(agent) + lit(" WHERE session_id=") + signed_decimal(session_id as int)
    } else {
        lit("UPDATE session SET last=now() WHERE session_id=") + signed_decimal(session_id as int)
    }
}

/// Saves a session: its user, values (as JSON text), address and agent
/// when they changed, else only the time of the visit.
pub fn session_save(changed: bool, user_id: i64, data: &[u8], ip: &[u8], agent: &[u8], session_id: i64) -> (r: Vec<u8>)
    ensures
        r@ == session_save_spec(changed, user_id, data@, ip@, agent@, session_id),
{
    proof {
        reveal_strlit("UPDATE session SET user_id=");
        reveal_strlit(", data=");
        reveal_strlit(", last=now(), ip=");
        reveal_strlit(", user_agent=");
        reveal_strlit(" WHERE session_id=");
        reveal_strlit("UPDATE session SET last=now() WHERE session_id=");
    }
    if changed {
        let mut q = ascii("UPDATE session SET user_id=");
        push_signed(&mut q, user_id);
        q = concat(q.as_slice(), ascii(", data=").as_slice());
        q = concat(q.as_slice(), escape(data).as_slice());
        q = concat(q.as_slice(), ascii(", last=now(), ip=").as_slice());
        q = concat(q.as_slice(), escape(ip).as_slice());
        q = concat(q.as_slice(), ascii(", user_agent=").as_slice());
        q = concat(q.as_slice(), escape(agent).as_slice());
        q = concat(q.as_slice(), ascii(" WHERE session_id=").as_slice());
        push_signed(&mut q, session_id);
        assert(q@ =~= session_save_spec(changed, user_id, data@, ip@, agent@, session_id));
        q
    } else {
        let mut q = ascii("UPDATE session SET last=now() WHERE session_id=");
        push_signed(&mut q, session_id);
        q
    }
}

pub open spec fn timezone_query_spec(tz: Seq<u8>) -> Seq<u8> {
    lit("SET timezone TO ") + sql_literal(tz) + lit(";")
}

/// Sets the connection's time zone.
pub fn timezone_query(tz: &[u8]) -> (r: Vec<u8>)
    ensures
        r@ == timezone_query_spec(tz@),
{
    proof {
        reveal_strlit("SET timezone TO ");
        reveal_strlit(";");
    }
    wrap("SET timezone TO ", tz, ";")
}

} // verus!
