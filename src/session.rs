//! Sessions: the cookie key, the session's own values, the language choice
//! and the access decision that rests on them.
use vstd::prelude::*;
use crate::data::{Data, Value};
use crate::storage::{Storage, to_map};
use crate::text::{ascii, bytes_eq, concat, decimal, push_decimal};
use crate::view::lit;

verus! {

/// Max-Age of the session cookie, in seconds.
pub const ON_YEAR: u32 = 31622400;
/// Language of a new session.
pub const DEFAULT_LANG: u8 = 0;
/// What a session key must look like.
pub open spec fn key_pattern() -> Seq<char> {
    "^[a-f0-9]{128}$"@
}

/// Whether `text` matches the regular expression `pattern`.
pub uninterp spec fn regex_match(pattern: Seq<char>, text: Seq<u8>) -> bool;

/// Relies on `regex::bytes::Regex::new` and `is_match`: when the pattern
/// compiles, the answer depends on the pattern and the text alone; the
/// session key pattern, a plain anchored class with a bounded repetition,
/// compiles.
#[verifier::external_body]
fn is_match(pattern: &str, text: &[u8]) -> (r: Option<bool>)
    ensures
        r matches Some(b) ==> b == regex_match(pattern@, text@),
        pattern@ == "^[a-f0-9]{128}$"@ ==> r is Some,
{
    match regex::bytes::Regex::new(pattern) {
        Ok(rx) => Some(rx.is_match(text)),
        Err(_) => None,
    }
}

/// The SHA3-512 digest of a byte string.
pub uninterp spec fn sha3_512_of(data: Seq<u8>) -> Seq<u8>;

/// Relies on `sha3::Sha3_512` through `Digest::digest`: the 64-byte
/// digest of the input.
#[verifier::external_body]
fn sha3_512(data: &[u8]) -> (r: Vec<u8>)
    ensures
        r@ == sha3_512_of(data@),
        r@.len() == 64,
{
    <sha3::Sha3_512 as sha3::Digest>::digest(data).to_vec()
}

pub open spec fn hex_digit(v: u8) -> u8 {
    if v < 10 {
        (48 + v) as u8
    } else {
        (87 + v) as u8
    }
}

/// Two lowercase hex digits per byte.
pub open spec fn lower_hex(b: Seq<u8>) -> Seq<u8>
    decreases b.len(),
{
    if b.len() == 0 {
        Seq::empty()
    } else {
        lower_hex(b.drop_last()) + seq![hex_digit(b.last() / 16), hex_digit(b.last() % 16)]
    }
}

pub open spec fn is_lower_hex(s: Seq<u8>) -> bool {
    forall|i: int| 0 <= i < s.len() ==> (48 <= #[trigger] s[i] <= 57 || 97 <= s[i] <= 102)
}

proof fn lemma_lower_hex(b: Seq<u8>)
    ensures
        lower_hex(b).len() == 2 * b.len(),
        is_lower_hex(lower_hex(b)),
    decreases b.len(),
{
    if b.len() > 0 {
        lemma_lower_hex(b.drop_last());
        let h = lower_hex(b);
        let p = lower_hex(b.drop_last());
        assert forall|i: int| 0 <= i < h.len() implies (48 <= #[trigger] h[i] <= 57 || 97 <= h[i] <= 102) by {
            if i < p.len() {
                assert(h[i] == p[i]);
            }
        }
    }
}

/// Renders bytes as lowercase hex.
pub fn hex(b: &[u8]) -> (r: Vec<u8>)
    ensures
        r@ == lower_hex(b@),
{
    let mut r: Vec<u8> = Vec::new();
    let mut i: usize = 0;
    while i < b.len()
        invariant
            i <= b@.len(),
            r@ == lower_hex(b@.subrange(0, i as int)),
        decreases b@.len() - i,
    {
        let hi = b[i] / 16;
        let lo = b[i] % 16;
        r.push(if hi < 10 { 48 + hi } else { 87 + hi });
        r.push(if lo < 10 { 48 + lo } else { 87 + lo });
        assert(b@.subrange(0, i + 1).drop_last() =~= b@.subrange(0, i as int));
        i += 1;
        assert(r@ =~= lower_hex(b@.subrange(0, i as int)));
    }
    assert(b@.subrange(0, b@.len() as int) =~= b@);
    r
}

/// The key made for a new session: the hex SHA3-512 digest of the salt,
/// the client address, the user agent, the host and the time text.
pub open spec fn new_key(salt: Seq<u8>, ip: Seq<u8>, agent: Seq<u8>, host: Seq<u8>, time: Seq<u8>) -> Seq<u8> {
    lower_hex(sha3_512_of(salt + ip + agent + host + time))
}

/// Makes the key of a new session.
pub fn make_key(salt: &[u8], ip: &[u8], agent: &[u8], host: &[u8], time: &[u8]) -> (r: Vec<u8>)
    ensures
        r@ == new_key(salt@, ip@, agent@, host@, time@),
        r@.len() == 128,
        is_lower_hex(r@),
{
    let a = concat(salt, ip);
    let b = concat(a.as_slice(), agent);
    let c = concat(b.as_slice(), host);
    let d = concat(c.as_slice(), time);
    let digest = sha3_512(d.as_slice());
    proof {
        lemma_lower_hex(digest@);
    }
    hex(digest.as_slice())
}

/// The session key for a request: the cookie's value when it has the shape
/// of a key, else a new key. The flag is `true` for a new key.
pub fn session_key(
    cookie: Option<&Vec<u8>>,
    salt: &[u8],
    ip: &[u8],
    agent: &[u8],
    host: &[u8],
    time: &[u8],
) -> (r: (Vec<u8>, bool))
    ensures
        !r.1 ==> (cookie matches Some(c) && r.0@ == c@ && regex_match(key_pattern(), c@)),
        r.1 ==> r.0@ == new_key(salt@, ip@, agent@, host@, time@),
        (cookie matches Some(c) && regex_match(key_pattern(), c@)) ==> (!r.1 && r.0@ == cookie.unwrap()@),
        regex_match(key_pattern(), r.0@) || (r.0@.len() == 128 && is_lower_hex(r.0@)),
{
    proof {
        reveal_strlit("^[a-f0-9]{128}$");
    }
    if let Some(c) = cookie {
        if let Some(true) = is_match("^[a-f0-9]{128}$", c.as_slice()) {
            let k = crate::fastcgi::slice_to_vec(c.as_slice(), 0, c.len());
            assert(k@ =~= c@);
            return (k, false);
        }
    }
    (make_key(salt, ip, agent, host, time), true)
}

/// The user's session: its database ids, its key, its values and whether
/// they changed since loading.
#[derive(Debug)]
pub struct Session {
    pub user_id: i64,
    pub session_id: i64,
    pub session: Vec<u8>,
    pub data: Vec<(Vec<u8>, Data)>,
    pub change: bool,
}

/// The language id a stored value gives: a `U8`, or an `I64` in `0..=255`.
pub open spec fn lang_of(v: Option<Value>) -> Option<u8> {
    match v {
        Some(Value::U8(l)) => Some(l),
        Some(Value::I64(l)) => if 0 <= l <= 255 {
            Some(l as u8)
        } else {
            None
        },
        _ => None,
    }
}

impl Session {
    /// Key to value.
    pub open spec fn view(&self) -> Map<Seq<u8>, Value> {
        to_map(self.data@.map_values(|e: (Vec<u8>, Data)| (e.0@, e.1.view())))
    }

    pub open spec fn changed(&self) -> bool {
        self.change
    }

    /// A session with key `session` and no values; `change` marks a key
    /// that was just made.
    pub fn new(session: Vec<u8>, change: bool) -> (r: Session)
        ensures
            r@ == Map::<Seq<u8>, Value>::empty(),
            r.changed() == change,
            r.session@ == session@,
            r.user_id == 0,
            r.session_id == 0,
    {
        let r = Session { user_id: 0, session_id: 0, session, data: Vec::new(), change };
        assert(r.data@.map_values(|e: (Vec<u8>, Data)| (e.0@, e.1.view())) =~= Seq::<(Seq<u8>, Value)>::empty());
        r
    }

    /// Takes the ids and the values read from the database; the session
    /// counts as unchanged.
    pub fn load(&mut self, session_id: i64, user_id: i64, data: Vec<(Vec<u8>, Data)>)
        ensures
            final(self)@ == to_map(data@.map_values(|e: (Vec<u8>, Data)| (e.0@, e.1.view()))),
            final(self).session_id == session_id,
            final(self).user_id == user_id,
            final(self).session@ == old(self).session@,
            final(self).changed() == old(self).changed(),
    {
        self.session_id = session_id;
        self.user_id = user_id;
        self.data = data;
    }

    /// Takes the ids of a session row whose stored values could not be
    /// decoded: the session starts with no values and counts as changed, so
    /// that saving it writes its values anew.
    pub fn load_undecodable(&mut self, session_id: i64, user_id: i64)
        ensures
            final(self)@ == Map::<Seq<u8>, Value>::empty(),
            final(self).changed(),
            final(self).session_id == session_id,
            final(self).user_id == user_id,
            final(self).session@ == old(self).session@,
    {
        self.session_id = session_id;
        self.user_id = user_id;
        self.data = Vec::new();
        self.change = true;
        assert(self.data@.map_values(|e: (Vec<u8>, Data)| (e.0@, e.1.view())) =~= Seq::<(Seq<u8>, Value)>::empty());
    }

    /// Whether the values changed since loading.
    pub fn is_changed(&self) -> (r: bool)
        ensures
            r == self.changed(),
    {
        self.change
    }

    /// The stored entries, in the order they were set.
    pub fn entries(&self) -> (r: &Vec<(Vec<u8>, Data)>)
        ensures
            to_map(r@.map_values(|e: (Vec<u8>, Data)| (e.0@, e.1.view()))) == self@,
    {
        &self.data
    }

    /// Sets a value and marks the session changed.
    pub fn set(&mut self, key: Vec<u8>, val: Data)
        ensures
            final(self)@ == old(self)@.insert(key@, val.view()),
            final(self).changed(),
            final(self).session@ == old(self).session@,
            final(self).user_id == old(self).user_id,
            final(self).session_id == old(self).session_id,
    {
        let ghost before = self.data@.map_values(|e: (Vec<u8>, Data)| (e.0@, e.1.view()));
        self.data.push((key, val));
        assert(self.data@.map_values(|e: (Vec<u8>, Data)| (e.0@, e.1.view())).drop_last() =~= before);
        self.change = true;
    }

    /// The value under `key`.
    pub fn get(&self, key: &[u8]) -> (r: Option<&Data>)
        ensures
            match self@.get(key@) {
                None => r.is_none(),
                Some(v) => r matches Some(d) && d.view() == v,
            },
    {
        let ghost ev = self.data@.map_values(|e: (Vec<u8>, Data)| (e.0@, e.1.view()));
        let mut j = self.data.len();
        assert(ev.take(j as int) =~= ev);
        while j > 0
            invariant
                j <= self.data@.len(),
                ev == self.data@.map_values(|e: (Vec<u8>, Data)| (e.0@, e.1.view())),
                self@.get(key@) == to_map(ev.take(j as int)).get(key@),
            decreases j,
        {
            assert(ev.take(j as int).drop_last() =~= ev.take(j - 1));
            assert(ev.take(j as int).last() == (self.data@[j - 1].0@, self.data@[j - 1].1.view()));
            if bytes_eq(self.data[j - 1].0.as_slice(), key) {
                return Some(&self.data[j - 1].1);
            }
            j -= 1;
        }
        None
    }

    /// The language id stored under `lang_id`.
    pub fn get_lang_id(&self) -> (r: Option<u8>)
        ensures
            r == lang_of(self@.get(lit("lang_id"))),
    {
        proof {
            reveal_strlit("lang_id");
        }
        match self.get(ascii("lang_id").as_slice()) {
            Some(Data::U8(v)) => Some(*v),
            Some(Data::I64(v)) => if 0 <= *v && *v <= 255 {
                Some(*v as u8)
            } else {
                None
            },
            _ => None,
        }
    }

    /// Chooses the request's language: the route's when it fixes one (and
    /// the session is updated when it differs), else the session's, else
    /// the default, which is then stored.
    pub fn set_lang_id(&mut self, lang_id: Option<u8>) -> (r: u8)
        ensures
            ({
                let stored = lang_of(old(self)@.get(lit("lang_id")));
                &&& r == match lang_id {
                    Some(l) => l,
                    None => match stored {
                        Some(s) => s,
                        None => DEFAULT_LANG,
                    },
                }
                &&& if (lang_id is None && stored is Some) || (lang_id is Some && stored == lang_id) {
                    final(self)@ == old(self)@ && final(self).changed() == old(self).changed()
                } else {
                    final(self)@ == old(self)@.insert(lit("lang_id"), Value::U8(r))
                        && final(self).changed()
                }
                &&& final(self).user_id == old(self).user_id
                &&& final(self).session_id == old(self).session_id
            }),
    {
        proof {
            reveal_strlit("lang_id");
        }
        let stored = self.get_lang_id();
        match lang_id {
            None => match stored {
                Some(s) => s,
                None => {
                    self.set(ascii("lang_id"), Data::U8(DEFAULT_LANG));
                    DEFAULT_LANG
                },
            },
            Some(l) => {
                if stored != Some(l) {
                    self.set(ascii("lang_id"), Data::U8(l));
                }
                l
            },
        }
    }

    /// `true` when the session holds `system = true`.
    pub fn is_system(&self) -> (r: bool)
        ensures
            r == (self@.get(lit("system")) == Some(Value::Bool(true))),
    {
        proof {
            reveal_strlit("system");
        }
        match self.get(ascii("system").as_slice()) {
            Some(Data::Bool(v)) => *v,
            _ => false,
        }
    }
}

/// Decimal text of a signed integer.
pub open spec fn signed_decimal(v: int) -> Seq<u8> {
    if v < 0 {
        seq![45u8] + decimal((-v) as nat)
    } else {
        decimal(v as nat)
    }
}

/// The cache key of an access decision:
/// `auth:<user_id>:<module>:<class>:<action>`.
pub open spec fn access_key_spec(user_id: i64, m: Seq<u8>, c: Seq<u8>, a: Seq<u8>) -> Seq<u8> {
    lit("auth:") + signed_decimal(user_id as int) + seq![58u8] + m + seq![58u8] + c + seq![58u8] + a
}

/// The cache key of an access decision.
pub fn access_key(user_id: i64, module: &[u8], class: &[u8], action: &[u8]) -> (r: Vec<u8>)
    ensures
        r@ == access_key_spec(user_id, module@, class@, action@),
{
    proof {
        reveal_strlit("auth:");
    }
    let mut k = ascii("auth:");
    crate::text::push_signed(&mut k, user_id);
    let colon: Vec<u8> = vec![58u8];
    k = concat(k.as_slice(), colon.as_slice());
    k = concat(k.as_slice(), module);
    k = concat(k.as_slice(), colon.as_slice());
    k = concat(k.as_slice(), class);
    k = concat(k.as_slice(), colon.as_slice());
    k = concat(k.as_slice(), action);
    assert(k@ =~= access_key_spec(user_id, module@, class@, action@));
    k
}

/// An access decision as far as the session and the cache tell it.
#[derive(Debug, PartialEq, Eq, Structural, Clone, Copy)]
pub enum AccessCheck {
    Allow,
    Deny,
    /// The access table must be read.
    NeedRow,
}

/// The decision: a system session is allowed everything; otherwise a cached
/// boolean decides, any other cached value denies, and a miss needs the
/// access table.
pub open spec fn access_spec(system: bool, cache: Map<Seq<u8>, Value>, key: Seq<u8>) -> AccessCheck {
    if system {
        AccessCheck::Allow
    } else if !cache.contains_key(key) {
        AccessCheck::NeedRow
    } else if cache[key] == Value::Bool(true) {
        AccessCheck::Allow
    } else {
        AccessCheck::Deny
    }
}

/// Decides access to `module/class/action` from the session and the cache.
pub fn check_access(session: &Session, storage: &Storage, module: &[u8], class: &[u8], action: &[u8]) -> (r: AccessCheck)
    ensures
        r == access_spec(
            session@.get(lit("system")) == Some(Value::Bool(true)),
            storage@,
            access_key_spec(session.user_id, module@, class@, action@),
        ),
{
    if session.is_system() {
        return AccessCheck::Allow;
    }
    let key = access_key(session.user_id, module, class, action);
    match storage.get(key.as_slice()) {
        None => AccessCheck::NeedRow,
        Some(Data::Bool(true)) => AccessCheck::Allow,
        Some(_) => AccessCheck::Deny,
    }
}

/// Records the access table's answer (`COALESCE(MAX(access), 0)`, or
/// nothing when the query failed): access is granted when it is 1. The
/// decision is cached.
pub fn store_access(storage: &mut Storage, key: Vec<u8>, access: Option<i32>) -> (r: bool)
    ensures
        r == (access == Some(1i32)),
        final(storage)@ == old(storage)@.insert(key@, Value::Bool(r)),
{
    let r = match access {
        Some(1) => true,
        _ => false,
    };
    storage.set(key, Data::Bool(r));
    r
}

/// The alternatives of the access query's `WHERE`: the root controller,
/// then the module, the module and class, and the module, class and action,
/// as far as they are given.
pub open spec fn access_conditions_spec(m: Seq<u8>, c: Seq<u8>, a: Seq<u8>) -> Seq<u8> {
    let q = seq![39u8];
    let root = lit("(c.module='' AND c.class='' AND c.action='')");
    let only_m = lit("(c.module='") + m + lit("' AND c.class='' AND c.action='')");
    let m_c = lit("(c.module='") + m + lit("' AND c.class='") + c + lit("' AND c.action='')");
    let m_c_a = lit("(c.module='") + m + lit("' AND c.class='") + c + lit("' AND c.action='") + a + lit("')");
    let or = lit(" OR ");
    if m.len() == 0 {
        root
    } else if c.len() == 0 {
        root + or + only_m
    } else if a.len() == 0 {
        root + or + only_m + or + m_c
    } else {
        root + or + only_m + or + m_c + or + m_c_a
    }
}

/// The alternatives of the access query's `WHERE`.
pub fn access_conditions(m: &[u8], c: &[u8], a: &[u8]) -> (r: Vec<u8>)
    ensures
        r@ == access_conditions_spec(m@, c@, a@),
{
    proof {
        reveal_strlit("(c.module='' AND c.class='' AND c.action='')");
        reveal_strlit("(c.module='");
        reveal_strlit("' AND c.class='' AND c.action='')");
        reveal_strlit("' AND c.class='");
        reveal_strlit("' AND c.action='')");
        reveal_strlit("' AND c.action='");
        reveal_strlit("')");
        reveal_strlit(" OR ");
    }
    let or = ascii(" OR ");
    let mut w = ascii("(c.module='' AND c.class='' AND c.action='')");
    if m.len() > 0 {
        w = concat(w.as_slice(), or.as_slice());
        w = concat(w.as_slice(), ascii("(c.module='").as_slice());
        w = concat(w.as_slice(), m);
        w = concat(w.as_slice(), ascii("' AND c.class='' AND c.action='')").as_slice());
        if c.len() > 0 {
            w = concat(w.as_slice(), or.as_slice());
            w = concat(w.as_slice(), ascii("(c.module='").as_slice());
            w = concat(w.as_slice(), m);
            w = concat(w.as_slice(), ascii("' AND c.class='").as_slice());
            w = concat(w.as_slice(), c);
            w = concat(w.as_slice(), ascii("' AND c.action='')").as_slice());
            if a.len() > 0 {
                w = concat(w.as_slice(), or.as_slice());
                w = concat(w.as_slice(), ascii("(c.module='").as_slice());
                w = concat(w.as_slice(), m);
                w = concat(w.as_slice(), ascii("' AND c.class='").as_slice());
                w = concat(w.as_slice(), c);
                w = concat(w.as_slice(), ascii("' AND c.action='").as_slice());
                w = concat(w.as_slice(), a);
                w = concat(w.as_slice(), ascii("')").as_slice());
            }
        }
    }
    assert(w@ =~= access_conditions_spec(m@, c@, a@));
    w
}

} // verus!
