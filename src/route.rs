//! Route resolution: redirect rules and routes, each looked up in the cache
//! first and in the database on a miss, then the path itself.
use vstd::prelude::*;
use crate::data::{Data, Value, cached};
use crate::storage::Storage;
use crate::text::{ascii, ascii_bytes, bytes_view, concat, decimal, push_decimal, parse_u8, split_n, splitn, u8_of};

verus! {

/// Where a request goes: controller module, class, action, its parameter
/// string, and the language the route fixes, if any.
#[derive(Debug)]
pub struct RouteTarget {
    pub module: Vec<u8>,
    pub class: Vec<u8>,
    pub action: Vec<u8>,
    pub params: Vec<u8>,
    pub lang_id: Option<u8>,
}

pub struct TargetView {
    pub module: Seq<u8>,
    pub class: Seq<u8>,
    pub action: Seq<u8>,
    pub params: Seq<u8>,
    pub lang_id: Option<u8>,
}

impl RouteTarget {
    pub open spec fn view(&self) -> TargetView {
        TargetView {
            module: self.module@,
            class: self.class@,
            action: self.action@,
            params: self.params@,
            lang_id: self.lang_id,
        }
    }
}

/// What the cache says of a URL, or what it still needs from the database.
#[derive(Debug)]
pub enum Resolution {
    /// Redirect to this URL; `true` when permanent.
    Redirect(Vec<u8>, bool),
    Route(RouteTarget),
    /// The redirect table must be read for this URL.
    NeedRedirectRow,
    /// The route table must be read for this URL.
    NeedRouteRow,
}

pub enum ResolutionView {
    Redirect(Seq<u8>, bool),
    Route(TargetView),
    NeedRedirectRow,
    NeedRouteRow,
}

impl Resolution {
    pub open spec fn view(&self) -> ResolutionView {
        match self {
            Resolution::Redirect(u, p) => ResolutionView::Redirect(u@, *p),
            Resolution::Route(t) => ResolutionView::Route(t.view()),
            Resolution::NeedRedirectRow => ResolutionView::NeedRedirectRow,
            Resolution::NeedRouteRow => ResolutionView::NeedRouteRow,
        }
    }
}

/// A row of the route table joined with its controller.
#[derive(Debug)]
pub struct RouteRow {
    pub module: Vec<u8>,
    pub class: Vec<u8>,
    pub action: Vec<u8>,
    pub params: Vec<u8>,
    pub lang_id: u8,
}

pub open spec fn redirect_key(url: Seq<u8>) -> Seq<u8> {
    ascii_bytes("redirect:"@) + url
}

pub open spec fn route_key(url: Seq<u8>) -> Seq<u8> {
    ascii_bytes("route:"@) + url
}

pub open spec fn index_bytes() -> Seq<u8> {
    ascii_bytes("index"@)
}

/// The target read from the path: up to four `/`-separated segments after
/// the leading one, each missing segment being `index`.
pub open spec fn fallback(url: Seq<u8>) -> TargetView {
    let idx = index_bytes();
    let p = split_n(url, 47, 5);
    if url == ascii_bytes("/"@) || p.len() < 2 {
        TargetView { module: idx, class: idx, action: idx, params: idx, lang_id: None }
    } else {
        TargetView {
            module: p[1],
            class: if p.len() >= 3 { p[2] } else { idx },
            action: if p.len() >= 4 { p[3] } else { idx },
            params: if p.len() >= 5 { p[4] } else { idx },
            lang_id: None,
        }
    }
}

/// The cached form of a route: `module:class:action:params:lang_id`.
pub open spec fn route_value(m: Seq<u8>, c: Seq<u8>, a: Seq<u8>, p: Seq<u8>, l: u8) -> Seq<u8> {
    m + seq![58u8] + c + seq![58u8] + a + seq![58u8] + p + seq![58u8] + decimal(l as nat)
}

/// The route that a cached route string holds, if it is well formed.
pub open spec fn parse_route(v: Seq<u8>) -> Option<TargetView> {
    let p = split_n(v, 58, 5);
    if p.len() == 5 && u8_of(p[4]) is Some {
        Some(
            TargetView {
                module: p[0],
                class: p[1],
                action: p[2],
                params: p[3],
                lang_id: Some(u8_of(p[4]).unwrap()),
            },
        )
    } else {
        None
    }
}

/// The cached form of a redirect: `1` (permanent) or `0`, then the target.
pub open spec fn redirect_value(target: Seq<u8>, permanent: bool) -> Seq<u8> {
    seq![if permanent { 49u8 } else { 48u8 }] + target
}

/// Resolution of `url` against the cache `m`.
pub open spec fn resolve_spec(m: Map<Seq<u8>, Value>, url: Seq<u8>) -> ResolutionView {
    let rk = redirect_key(url);
    let k = route_key(url);
    if !m.contains_key(rk) {
        ResolutionView::NeedRedirectRow
    } else if m[rk] matches Value::String(v) && v.len() > 0 {
        ResolutionView::Redirect(m[rk]->String_0.skip(1), m[rk]->String_0[0] == 49)
    } else if !m.contains_key(k) {
        ResolutionView::NeedRouteRow
    } else if m[k] is String {
        match parse_route(m[k]->String_0) {
            Some(t) => ResolutionView::Route(t),
            None => ResolutionView::NeedRouteRow,
        }
    } else {
        ResolutionView::Route(fallback(url))
    }
}

fn key_of(prefix: &str, url: &[u8]) -> (r: Vec<u8>)
    requires
        prefix.is_ascii(),
    ensures
        r@ == ascii_bytes(prefix@) + url@,
{
    let p = ascii(prefix);
    concat(p.as_slice(), url)
}

/// The target read from the path alone.
pub fn fallback_route(url: &[u8]) -> (r: RouteTarget)
    ensures
        r.view() == fallback(url@),
{
    proof {
        reveal_strlit("index");
        reveal_strlit("/");
    }
    let p = splitn(url, 47, 5);
    let slash = ascii("/");
    let is_root = crate::text::bytes_eq(url, slash.as_slice());
    if is_root || p.len() < 2 {
        return RouteTarget {
            module: ascii("index"),
            class: ascii("index"),
            action: ascii("index"),
            params: ascii("index"),
            lang_id: None,
        };
    }
    assert(bytes_view(p@)[1] == p@[1]@);
    let module = crate::fastcgi::slice_to_vec(p[1].as_slice(), 0, p[1].len());
    assert(p@[1]@.subrange(0, p@[1]@.len() as int) =~= p@[1]@);
    let class = if p.len() >= 3 {
        assert(bytes_view(p@)[2] == p@[2]@);
        assert(p@[2]@.subrange(0, p@[2]@.len() as int) =~= p@[2]@);
        crate::fastcgi::slice_to_vec(p[2].as_slice(), 0, p[2].len())
    } else {
        ascii("index")
    };
    let action = if p.len() >= 4 {
        assert(bytes_view(p@)[3] == p@[3]@);
        assert(p@[3]@.subrange(0, p@[3]@.len() as int) =~= p@[3]@);
        crate::fastcgi::slice_to_vec(p[3].as_slice(), 0, p[3].len())
    } else {
        ascii("index")
    };
    let params = if p.len() >= 5 {
        assert(bytes_view(p@)[4] == p@[4]@);
        assert(p@[4]@.subrange(0, p@[4]@.len() as int) =~= p@[4]@);
        crate::fastcgi::slice_to_vec(p[4].as_slice(), 0, p[4].len())
    } else {
        ascii("index")
    };
    RouteTarget { module, class, action, params, lang_id: None }
}

/// Reads a cached route string.
pub fn route_from_value(v: &[u8]) -> (r: Option<RouteTarget>)
    ensures
        match parse_route(v@) {
            None => r.is_none(),
            Some(t) => r matches Some(x) && x.view() == t,
        },
{
    let mut p = splitn(v, 58, 5);
    if p.len() != 5 {
        return None;
    }
    assert(bytes_view(p@)[4] == p@[4]@);
    let lang = match parse_u8(p[4].as_slice()) {
        None => return None,
        Some(l) => l,
    };
    let ghost pv = bytes_view(p@);
    let params = p.remove(3);
    let action = p.remove(2);
    let class = p.remove(1);
    let module = p.remove(0);
    assert(module@ == pv[0] && class@ == pv[1] && action@ == pv[2] && params@ == pv[3]);
    Some(RouteTarget { module, class, action, params, lang_id: Some(lang) })
}

/// Resolves `url` as far as the cache allows.
pub fn resolve(storage: &Storage, url: &[u8]) -> (r: Resolution)
    ensures
        r.view() == resolve_spec(storage@, url@),
{
    proof {
        reveal_strlit("redirect:");
        reveal_strlit("route:");
    }
    let rk = key_of("redirect:", url);
    match storage.get(rk.as_slice()) {
        None => return Resolution::NeedRedirectRow,
        Some(Data::String(v)) => {
            if v.len() > 0 {
                let permanent = v[0] == 49;
                let mut target = v;
                target.remove(0);
                assert(target@ =~= storage@[rk@]->String_0.skip(1));
                return Resolution::Redirect(target, permanent);
            }
        },
        Some(_) => {},
    }
    let k = key_of("route:", url);
    match storage.get(k.as_slice()) {
        None => Resolution::NeedRouteRow,
        Some(Data::String(v)) => match route_from_value(v.as_slice()) {
            Some(t) => Resolution::Route(t),
            None => Resolution::NeedRouteRow,
        },
        Some(_) => Resolution::Route(fallback_route(url)),
    }
}

/// Caches what the redirect table holds for `url`: the target with its
/// kind, or `Null` when there is no row.
pub fn store_redirect(storage: &mut Storage, url: &[u8], row: Option<(Vec<u8>, bool)>)
    ensures
        final(storage)@ == old(storage)@.insert(
            redirect_key(url@),
            match row {
                Some((t, p)) => Value::String(redirect_value(t@, p)),
                None => Value::Null,
            },
        ),
{
    proof {
        reveal_strlit("redirect:");
    }
    let rk = key_of("redirect:", url);
    match row {
        Some((t, p)) => {
            let mut v: Vec<u8> = Vec::new();
            v.push(if p { 49u8 } else { 48u8 });
            let v = concat(v.as_slice(), t.as_slice());
            storage.set(rk, Data::String(v));
        },
        None => storage.set(rk, Data::Null),
    }
}

/// Caches what the route table holds for `url`: the route string, or
/// `Null` when there is no row.
pub fn store_route(storage: &mut Storage, url: &[u8], row: &Option<RouteRow>)
    ensures
        final(storage)@ == old(storage)@.insert(
            route_key(url@),
            match row {
                Some(r) => Value::String(
                    route_value(r.module@, r.class@, r.action@, r.params@, r.lang_id),
                ),
                None => Value::Null,
            },
        ),
{
    proof {
        reveal_strlit("route:");
    }
    let k = key_of("route:", url);
    match row {
        Some(r) => {
            let mut v: Vec<u8> = Vec::new();
            let colon: Vec<u8> = vec![58u8];
            v = concat(v.as_slice(), r.module.as_slice());
            v = concat(v.as_slice(), colon.as_slice());
            v = concat(v.as_slice(), r.class.as_slice());
            v = concat(v.as_slice(), colon.as_slice());
            v = concat(v.as_slice(), r.action.as_slice());
            v = concat(v.as_slice(), colon.as_slice());
            v = concat(v.as_slice(), r.params.as_slice());
            v = concat(v.as_slice(), colon.as_slice());
            push_decimal(&mut v, r.lang_id as u64);
            assert(v@ =~= route_value(r.module@, r.class@, r.action@, r.params@, r.lang_id));
            storage.set(k, Data::String(v));
        },
        None => storage.set(k, Data::Null),
    }
}

/// For a URL with neither a redirect row nor a route row: the first request
/// reads both tables, caches both misses and takes the path's own target;
/// a second request then resolves from the cache alone to the same target.
pub proof fn lemma_fallback_repeats(m: Map<Seq<u8>, Value>, url: Seq<u8>)
    requires
        !m.contains_key(redirect_key(url)),
        !m.contains_key(route_key(url)),
    ensures
        resolve_spec(m, url) == ResolutionView::NeedRedirectRow,
        resolve_spec(m.insert(redirect_key(url), Value::Null), url) == ResolutionView::NeedRouteRow,
        resolve_spec(
            m.insert(redirect_key(url), Value::Null).insert(route_key(url), Value::Null),
            url,
        ) == ResolutionView::Route(fallback(url)),
{
    reveal_strlit("redirect:");
    reveal_strlit("route:");
    assert(redirect_key(url)[1] != route_key(url)[1]);
}

} // verus!
