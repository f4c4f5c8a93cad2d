//! The request as the pipeline sees it, built from the FastCGI parameters
//! and the STDIN body: headers, decoded path, query string, cookies, and
//! form fields (url-encoded or multipart).
use vstd::prelude::*;
use crate::fastcgi::{Param, params_view, slice_to_vec};
use crate::view::lit;
use crate::text::{
    ascii, ascii_bytes, bytes_eq, bytes_view, concat, find, find_from, split_by, split_n, split_pat,
    splitn, starts_with,
};

verus! {

pub open spec fn is_hex(c: u8) -> bool {
    (48 <= c <= 57) || (65 <= c <= 70) || (97 <= c <= 102)
}

pub open spec fn hex_value(c: u8) -> u8 {
    if 48 <= c <= 57 {
        (c - 48) as u8
    } else if 65 <= c <= 70 {
        (c - 55) as u8
    } else {
        (c - 87) as u8
    }
}

/// Percent-decoding: `%` and two hex digits stand for that byte; any other
/// byte, a lone `%` included, stands for itself; `+` is kept.
pub open spec fn percent_decoded(s: Seq<u8>) -> Seq<u8>
    decreases s.len(),
{
    if s.len() == 0 {
        s
    } else if s[0] == 37 && s.len() >= 3 && is_hex(s[1]) && is_hex(s[2]) {
        seq![(hex_value(s[1]) * 16 + hex_value(s[2])) as u8] + percent_decoded(s.skip(3))
    } else {
        seq![s[0]] + percent_decoded(s.skip(1))
    }
}

/// Relies on `urlencoding::decode_binary`: `%` with two hex digits becomes
/// that byte, everything else is copied.
#[verifier::external_body]
fn decode_binary(b: &[u8]) -> (r: Vec<u8>)
    ensures
        r@ == percent_decoded(b@),
{
    urlencoding::decode_binary(b).into_owned()
}

/// Relies on `std::str::from_utf8`: it accepts exactly the valid UTF-8
/// byte strings.
#[verifier::external_body]
fn is_utf8(b: &[u8]) -> (r: bool)
    ensures
        r == vstd::utf8::valid_utf8(b@),
{
    std::str::from_utf8(b).is_ok()
}

/// A percent-decoded text; empty when the result is not UTF-8.
pub open spec fn url_decoded(s: Seq<u8>) -> Seq<u8> {
    if vstd::utf8::valid_utf8(percent_decoded(s)) {
        percent_decoded(s)
    } else {
        Seq::empty()
    }
}

/// Percent-decodes `s`; empty when the result is not UTF-8.
pub fn url_decode(s: &[u8]) -> (r: Vec<u8>)
    ensures
        r@ == url_decoded(s@),
{
    let d = decode_binary(s);
    if is_utf8(d.as_slice()) {
        d
    } else {
        Vec::new()
    }
}

/// The value of the last pair named `k`.
pub open spec fn lookup(ps: Seq<(Seq<u8>, Seq<u8>)>, k: Seq<u8>) -> Option<Seq<u8>>
    decreases ps.len(),
{
    if ps.len() == 0 {
        None
    } else if ps.last().0 == k {
        Some(ps.last().1)
    } else {
        lookup(ps.drop_last(), k)
    }
}

/// The value of the last pair named `key`.
pub fn param_get<'a>(params: &'a Vec<Param>, key: &[u8]) -> (r: Option<&'a Vec<u8>>)
    ensures
        match lookup(params_view(params@), key@) {
            None => r.is_none(),
            Some(v) => r matches Some(x) && x@ == v,
        },
{
    let ghost pv = params_view(params@);
    let mut j = params.len();
    assert(pv.take(j as int) =~= pv);
    while j > 0
        invariant
            j <= params@.len(),
            pv == params_view(params@),
            lookup(pv, key@) == lookup(pv.take(j as int), key@),
        decreases j,
    {
        assert(pv.take(j as int).drop_last() =~= pv.take(j - 1));
        if bytes_eq(params[j - 1].0.as_slice(), key) {
            return Some(&params[j - 1].1);
        }
        j -= 1;
    }
    None
}

/// Percent-decodes `s`; `None` when the result is not UTF-8.
pub fn try_url_decode(s: &[u8]) -> (r: Option<Vec<u8>>)
    ensures
        match r {
            Some(d) => vstd::utf8::valid_utf8(percent_decoded(s@)) && d@ == percent_decoded(s@),
            None => !vstd::utf8::valid_utf8(percent_decoded(s@)),
        },
{
    let d = decode_binary(s);
    if is_utf8(d.as_slice()) {
        Some(d)
    } else {
        None
    }
}

/// One `key=value` piece of a query string or url-encoded form, decoded; a
/// piece without `=` is a key with an empty value. `None` (the piece is
/// dropped) when the key or the value does not decode to UTF-8.
pub open spec fn query_pair(p: Seq<u8>) -> Option<(Seq<u8>, Seq<u8>)> {
    let kv = split_pat(p, seq![61u8], 2);
    if kv.len() == 1 {
        if vstd::utf8::valid_utf8(percent_decoded(p)) {
            Some((percent_decoded(p), Seq::empty()))
        } else {
            None
        }
    } else if vstd::utf8::valid_utf8(percent_decoded(kv[0])) && vstd::utf8::valid_utf8(
        percent_decoded(kv[1]),
    ) {
        Some((percent_decoded(kv[0]), percent_decoded(kv[1])))
    } else {
        None
    }
}

/// The decodable pairs among the pieces, in order.
pub open spec fn pairs_of_pieces(ps: Seq<Seq<u8>>) -> Seq<(Seq<u8>, Seq<u8>)>
    decreases ps.len(),
{
    if ps.len() == 0 {
        Seq::empty()
    } else {
        let r = pairs_of_pieces(ps.drop_last());
        match query_pair(ps.last()) {
            Some(x) => r.push(x),
            None => r,
        }
    }
}

/// The pairs of a query string, in order; malformed pairs are dropped.
pub open spec fn query_pairs(s: Seq<u8>) -> Seq<(Seq<u8>, Seq<u8>)> {
    pairs_of_pieces(split_pat(s, seq![38u8], s.len() + 1))
}

pub open spec fn pairs_view(v: Seq<(Vec<u8>, Vec<u8>)>) -> Seq<(Seq<u8>, Seq<u8>)> {
    v.map_values(|p: (Vec<u8>, Vec<u8>)| (p.0@, p.1@))
}

fn read_pair(p: &[u8]) -> (r: Option<(Vec<u8>, Vec<u8>)>)
    ensures
        match query_pair(p@) {
            None => r is None,
            Some((k, v)) => r matches Some((rk, rv)) && rk@ == k && rv@ == v,
        },
{
    let eq: Vec<u8> = vec![61u8];
    assert(eq@ =~= seq![61u8]);
    let kv = split_by(p, eq.as_slice(), 2);
    assert(bytes_view(kv@).len() == kv@.len());
    if kv.len() == 1 {
        match try_url_decode(p) {
            Some(k) => Some((k, Vec::new())),
            None => None,
        }
    } else {
        assert(bytes_view(kv@)[0] == kv@[0]@ && bytes_view(kv@)[1] == kv@[1]@);
        match (try_url_decode(kv[0].as_slice()), try_url_decode(kv[1].as_slice())) {
            (Some(k), Some(v)) => Some((k, v)),
            _ => None,
        }
    }
}

/// Parses `k1=v1&k2=v2…` with percent-decoding; pairs that do not decode
/// to UTF-8 are dropped.
pub fn parse_query(s: &[u8]) -> (r: Vec<(Vec<u8>, Vec<u8>)>)
    requires
        s@.len() < usize::MAX,
    ensures
        pairs_view(r@) == query_pairs(s@),
{
    let amp: Vec<u8> = vec![38u8];
    assert(amp@ =~= seq![38u8]);
    let pieces = split_by(s, amp.as_slice(), s.len() + 1);
    let ghost pv = bytes_view(pieces@);
    let mut out: Vec<(Vec<u8>, Vec<u8>)> = Vec::new();
    let mut i: usize = 0;
    assert(pairs_view(out@) =~= pairs_of_pieces(pv.take(0)));
    while i < pieces.len()
        invariant
            i <= pieces@.len(),
            pv == bytes_view(pieces@),
            pv == split_pat(s@, seq![38u8], (s@.len() + 1) as nat),
            pairs_view(out@) == pairs_of_pieces(pv.take(i as int)),
        decreases pieces@.len() - i,
    {
        assert(pv[i as int] == pieces@[i as int]@);
        assert(pv.take(i + 1).drop_last() =~= pv.take(i as int));
        assert(pv.take(i + 1).last() == pv[i as int]);
        match read_pair(pieces[i].as_slice()) {
            Some(pair) => {
                let ghost before = out@;
                let ghost pview = (pair.0@, pair.1@);
                out.push(pair);
                assert(pairs_view(out@) =~= pairs_view(before).push(pview));
            },
            None => {},
        }
        i += 1;
    }
    assert(pv.take(pieces@.len() as int) =~= pv);
    out
}

/// The `k=v` pieces of a Cookie header separated by `; `; a piece without
/// `=` is dropped.
pub open spec fn cookie_pairs(s: Seq<u8>) -> Seq<(Seq<u8>, Seq<u8>)> {
    split_pat(s, seq![59u8, 32u8], s.len() + 1).filter(
        |p: Seq<u8>| split_pat(p, seq![61u8], 2).len() == 2,
    ).map_values(|p: Seq<u8>| (split_pat(p, seq![61u8], 2)[0], split_pat(p, seq![61u8], 2)[1]))
}

/// Parses a Cookie header `k1=v1; k2=v2`.
pub fn parse_cookie(s: &[u8]) -> (r: Vec<(Vec<u8>, Vec<u8>)>)
    requires
        s@.len() < usize::MAX,
    ensures
        pairs_view(r@) == cookie_pairs(s@),
{
    let sep: Vec<u8> = vec![59u8, 32u8];
    let eq: Vec<u8> = vec![61u8];
    assert(sep@ =~= seq![59u8, 32u8]);
    assert(eq@ =~= seq![61u8]);
    let pieces = split_by(s, sep.as_slice(), s.len() + 1);
    let ghost pv = bytes_view(pieces@);
    let ghost f = |p: Seq<u8>| split_pat(p, seq![61u8], 2).len() == 2;
    let ghost g = |p: Seq<u8>| (split_pat(p, seq![61u8], 2)[0], split_pat(p, seq![61u8], 2)[1]);
    let mut out: Vec<(Vec<u8>, Vec<u8>)> = Vec::new();
    let mut i: usize = 0;
    while i < pieces.len()
        invariant
            i <= pieces@.len(),
            pv == bytes_view(pieces@),
            eq@ == seq![61u8],
            f == (|p: Seq<u8>| split_pat(p, seq![61u8], 2).len() == 2),
            g == (|p: Seq<u8>| (split_pat(p, seq![61u8], 2)[0], split_pat(p, seq![61u8], 2)[1])),
            pairs_view(out@) == pv.take(i as int).filter(f).map_values(g),
        decreases pieces@.len() - i,
    {
        let p = &pieces[i];
        assert(pv[i as int] == p@);
        let mut kv = split_by(p.as_slice(), eq.as_slice(), 2);
        proof {
            assert(pv.take(i + 1).drop_last() =~= pv.take(i as int));
            assert(pv.take(i + 1).last() == p@);
            reveal_with_fuel(Seq::filter, 1);
        }
        if kv.len() == 2 {
            let ghost kvv = bytes_view(kv@);
            let v = kv.remove(1);
            let k = kv.remove(0);
            assert(k@ == kvv[0] && v@ == kvv[1]);
            let ghost before = out@;
            out.push((k, v));
            proof {
                assert(pairs_view(out@) =~= pairs_view(before).push((kvv[0], kvv[1])));
                assert(pv.take(i + 1).filter(f) =~= pv.take(i as int).filter(f).push(p@));
                assert(pv.take(i + 1).filter(f).map_values(g) =~= pv.take(i as int).filter(f).map_values(g).push(g(p@)));
            }
        } else {
            proof {
                assert(pv.take(i + 1).filter(f) =~= pv.take(i as int).filter(f));
            }
        }
        i += 1;
    }
    assert(pv.take(pieces@.len() as int) =~= pv);
    out
}

/// One part of a multipart body: its field name, its file name when it is
/// a file, and its bytes.
#[derive(Debug)]
pub struct FormPart {
    pub name: Vec<u8>,
    pub filename: Option<Vec<u8>>,
    pub data: Vec<u8>,
}

pub struct PartView {
    pub name: Seq<u8>,
    pub filename: Option<Seq<u8>>,
    pub data: Seq<u8>,
}

impl FormPart {
    pub open spec fn view(&self) -> PartView {
        PartView {
            name: self.name@,
            filename: match self.filename {
                Some(f) => Some(f@),
                None => None,
            },
            data: self.data@,
        }
    }
}

pub open spec fn crlf() -> Seq<u8> {
    seq![13u8, 10u8]
}

/// The text between `pre` and a closing `"` that ends `x`.
pub open spec fn quoted_after(x: Seq<u8>, pre: Seq<u8>) -> Option<Seq<u8>> {
    if pre.is_prefix_of(x) && x.len() >= pre.len() + 1 && x.last() == 34 {
        Some(x.subrange(pre.len() as int, x.len() - 1))
    } else {
        None
    }
}

/// Field name and file name of a part header
/// `Content-Disposition: form-data; name="…"[; filename="…"]`.
pub open spec fn disposition(h: Seq<u8>) -> Option<(Seq<u8>, Option<Seq<u8>>)> {
    let f = split_pat(h, seq![59u8, 32u8], 3);
    let name = ascii_bytes("name=\""@);
    let file = ascii_bytes("filename=\""@);
    if f.len() == 2 {
        match quoted_after(f[1], name) {
            Some(n) => Some((n, None)),
            None => None,
        }
    } else if f.len() == 3 {
        match (quoted_after(f[1], name), quoted_after(split_pat(f[2], crlf(), 2)[0], file)) {
            (Some(n), Some(fname)) => Some((n, Some(fname))),
            _ => None,
        }
    } else {
        None
    }
}

/// The part that the text between two boundaries holds: CRLF, the header
/// block up to CRLF CRLF, then the body up to the CRLF before the next
/// boundary; `None` when it is malformed.
pub open spec fn part_of(p: Seq<u8>) -> Option<PartView> {
    if !crlf().is_prefix_of(p) {
        None
    } else {
        let q = p.skip(2);
        match find_from(q, crlf() + crlf(), 0) {
            None => None,
            Some(h) => {
                let d0 = q.skip(h + 4);
                let d = if crlf().len() <= d0.len() && d0.subrange(d0.len() - 2, d0.len() as int)
                    == crlf() {
                    d0.subrange(0, d0.len() - 2)
                } else {
                    d0
                };
                match disposition(q.subrange(0, h)) {
                    None => None,
                    Some((n, f)) => Some(PartView { name: n, filename: f, data: d }),
                }
            },
        }
    }
}

/// The parts in the pieces after the first boundary, up to the closing
/// boundary (a piece that starts with `--`).
pub open spec fn parts_from(ps: Seq<Seq<u8>>) -> Seq<PartView>
    decreases ps.len(),
{
    if ps.len() == 0 {
        Seq::empty()
    } else if seq![45u8, 45u8].is_prefix_of(ps[0]) {
        Seq::empty()
    } else {
        match part_of(ps[0]) {
            Some(p) => seq![p] + parts_from(ps.skip(1)),
            None => parts_from(ps.skip(1)),
        }
    }
}

/// The parts of a multipart body whose boundary line is `delim`
/// (`--` and the boundary).
pub open spec fn multipart(body: Seq<u8>, delim: Seq<u8>) -> Seq<PartView> {
    parts_from(split_pat(body, delim, body.len() + 1).skip(1))
}

fn quoted(x: &[u8], pre: &Vec<u8>) -> (r: Option<Vec<u8>>)
    ensures
        match quoted_after(x@, pre@) {
            None => r.is_none(),
            Some(v) => r matches Some(y) && y@ == v,
        },
{
    if starts_with(x, pre.as_slice()) && x.len() > pre.len() && x[x.len() - 1] == 34 {
        Some(slice_to_vec(x, pre.len(), x.len() - 1))
    } else {
        None
    }
}

fn read_disposition(h: &[u8]) -> (r: Option<(Vec<u8>, Option<Vec<u8>>)>)
    ensures
        match disposition(h@) {
            None => r.is_none(),
            Some((n, f)) => r matches Some((rn, rf)) && rn@ == n && match f {
                None => rf.is_none(),
                Some(fv) => rf matches Some(x) && x@ == fv,
            },
        },
{
    proof {
        reveal_strlit("name=\"");
        reveal_strlit("filename=\"");
    }
    let sep: Vec<u8> = vec![59u8, 32u8];
    let nl: Vec<u8> = vec![13u8, 10u8];
    assert(sep@ =~= seq![59u8, 32u8]);
    assert(nl@ =~= crlf());
    let name = ascii("name=\"");
    let file = ascii("filename=\"");
    let f = split_by(h, sep.as_slice(), 3);
    let ghost fv = bytes_view(f@);
    assert(fv.len() == f@.len());
    if f.len() == 2 {
        assert(fv[1] == f@[1]@);
        match quoted(f[1].as_slice(), &name) {
            Some(n) => Some((n, None)),
            None => None,
        }
    } else if f.len() == 3 {
        assert(fv[1] == f@[1]@ && fv[2] == f@[2]@);
        let line = split_by(f[2].as_slice(), nl.as_slice(), 2);
        assert(bytes_view(line@)[0] == line@[0]@);
        match (quoted(f[1].as_slice(), &name), quoted(line[0].as_slice(), &file)) {
            (Some(n), Some(fname)) => Some((n, Some(fname))),
            _ => None,
        }
    } else {
        None
    }
}

fn read_part(p: &[u8]) -> (r: Option<FormPart>)
    ensures
        match part_of(p@) {
            None => r.is_none(),
            Some(v) => r matches Some(x) && x.view() == v,
        },
{
    let nl: Vec<u8> = vec![13u8, 10u8];
    let nl2: Vec<u8> = vec![13u8, 10u8, 13u8, 10u8];
    assert(nl@ =~= crlf());
    assert(nl2@ =~= crlf() + crlf());
    if !starts_with(p, nl.as_slice()) {
        return None;
    }
    let q = slice_to_vec(p, 2, p.len());
    assert(q@ =~= p@.skip(2));
    let h = match find(q.as_slice(), nl2.as_slice()) {
        None => return None,
        Some(h) => h,
    };
    let head = slice_to_vec(q.as_slice(), 0, h);
    let d0 = slice_to_vec(q.as_slice(), h + 4, q.len());
    assert(d0@ =~= q@.skip(h + 4));
    let n0 = d0.len();
    let data = if n0 >= 2 && d0[n0 - 2] == 13 && d0[n0 - 1] == 10 {
        assert(d0@.subrange(n0 - 2, n0 as int) =~= crlf());
        slice_to_vec(d0.as_slice(), 0, n0 - 2)
    } else {
        assert(n0 >= 2 ==> d0@.subrange(n0 - 2, n0 as int) != crlf()) by {
            if n0 >= 2 && d0@.subrange(n0 - 2, n0 as int) == crlf() {
                assert(d0@.subrange(n0 - 2, n0 as int)[0] == d0@[n0 - 2]);
                assert(d0@.subrange(n0 - 2, n0 as int)[1] == d0@[n0 - 1]);
            }
        }
        d0
    };
    match read_disposition(head.as_slice()) {
        None => None,
        Some((name, filename)) => Some(FormPart { name, filename, data }),
    }
}

/// The parts of a multipart body; `delim` is `--` and the boundary.
pub fn parse_multipart(body: &[u8], delim: &[u8]) -> (r: Vec<FormPart>)
    requires
        delim@.len() > 0,
        body@.len() < usize::MAX,
    ensures
        r@.map_values(|p: FormPart| p.view()) == multipart(body@, delim@),
{
    let pieces = split_by(body, delim, body.len() + 1);
    let ghost pv = bytes_view(pieces@);
    let dash: Vec<u8> = vec![45u8, 45u8];
    assert(dash@ =~= seq![45u8, 45u8]);
    let mut out: Vec<FormPart> = Vec::new();
    let mut i: usize = 1;
    assert(out@.map_values(|p: FormPart| p.view()) + parts_from(pv.skip(1)) =~= parts_from(pv.skip(1)));
    while i < pieces.len()
        invariant
            1 <= i <= pieces@.len(),
            pv == bytes_view(pieces@),
            pv == split_pat(body@, delim@, (body@.len() + 1) as nat),
            dash@ == seq![45u8, 45u8],
            parts_from(pv.skip(1)) == out@.map_values(|p: FormPart| p.view()) + parts_from(pv.skip(i as int)),
        decreases pieces@.len() - i,
    {
        let ghost rest = pv.skip(i as int);
        assert(pv.len() == pieces@.len());
        assert(rest.len() > 0);
        assert(rest[0] == pieces@[i as int]@);
        assert(rest.skip(1) =~= pv.skip(i + 1));
        if starts_with(pieces[i].as_slice(), dash.as_slice()) {
            assert(parts_from(rest) =~= Seq::<PartView>::empty());
            assert(out@.map_values(|p: FormPart| p.view()) + Seq::<PartView>::empty() =~= out@.map_values(|p: FormPart| p.view()));
            return out;
        }
        match read_part(pieces[i].as_slice()) {
            Some(part) => {
                let ghost before = out@;
                let ghost pview = part.view();
                out.push(part);
                assert(out@.map_values(|p: FormPart| p.view()) =~= before.map_values(|p: FormPart| p.view()).push(pview));
                assert(before.map_values(|p: FormPart| p.view()) + (seq![pview] + parts_from(pv.skip(i + 1)))
                    =~= out@.map_values(|p: FormPart| p.view()) + parts_from(pv.skip(i + 1)));
            },
            None => {},
        }
        i += 1;
    }
    assert(pv.skip(i as int) =~= Seq::<Seq<u8>>::empty());
    assert(out@.map_values(|p: FormPart| p.view()) + Seq::<PartView>::empty() =~= out@.map_values(|p: FormPart| p.view()));
    out
}

/// An uploaded file: its size, the name the client gave, and where its
/// bytes were written.
#[derive(Debug)]
pub struct WebFile {
    pub size: usize,
    pub name: Vec<u8>,
    pub tmp: Vec<u8>,
}

/// The request as the pipeline sees it.
#[derive(Debug)]
pub struct Request {
    pub ajax: bool,
    pub host: Vec<u8>,
    pub scheme: Vec<u8>,
    pub agent: Vec<u8>,
    pub referer: Vec<u8>,
    pub ip: Vec<u8>,
    pub method: Vec<u8>,
    pub path: Vec<u8>,
    pub site: Vec<u8>,
    pub url: Vec<u8>,
    pub get: Vec<(Vec<u8>, Vec<u8>)>,
    pub post: Vec<(Vec<u8>, Vec<u8>)>,
    /// Uploaded files by field, in the order they were stored.
    pub file: Vec<(Vec<u8>, WebFile)>,
    pub cookie: Vec<(Vec<u8>, Vec<u8>)>,
    /// File parts of a multipart body, still to be stored.
    pub uploads: Vec<FormPart>,
}

pub open spec fn param_or(ps: Seq<(Seq<u8>, Seq<u8>)>, k: Seq<u8>, d: Seq<u8>) -> Seq<u8> {
    match lookup(ps, k) {
        Some(v) => v,
        None => d,
    }
}

pub open spec fn ascii_lower(s: Seq<u8>) -> Seq<u8> {
    s.map_values(|c: u8| if 65 <= c <= 90 { (c + 32) as u8 } else { c })
}

/// Text fields of multipart parts: parts without a file name whose bytes
/// are UTF-8.
pub open spec fn text_fields(ps: Seq<PartView>) -> Seq<(Seq<u8>, Seq<u8>)>
    decreases ps.len(),
{
    if ps.len() == 0 {
        Seq::empty()
    } else {
        let r = text_fields(ps.drop_last());
        let p = ps.last();
        if p.filename is None && vstd::utf8::valid_utf8(p.data) {
            r.push((p.name, p.data))
        } else {
            r
        }
    }
}

/// Parts that carry a file.
pub open spec fn file_parts(ps: Seq<PartView>) -> Seq<PartView>
    decreases ps.len(),
{
    if ps.len() == 0 {
        Seq::empty()
    } else {
        let r = file_parts(ps.drop_last());
        if ps.last().filename is Some {
            r.push(ps.last())
        } else {
            r
        }
    }
}

pub open spec fn form_type() -> Seq<u8> {
    lit("application/x-www-form-urlencoded")
}

pub open spec fn multipart_type() -> Seq<u8> {
    lit("multipart/form-data; boundary=")
}

/// Form fields of the body for a content type.
pub open spec fn post_of(content: Seq<u8>, stdin: Seq<u8>) -> Seq<(Seq<u8>, Seq<u8>)> {
    if stdin.len() == 0 {
        Seq::empty()
    } else if content == form_type() {
        if vstd::utf8::valid_utf8(stdin) {
            query_pairs(stdin)
        } else {
            Seq::empty()
        }
    } else if multipart_type().is_prefix_of(content) {
        text_fields(multipart(stdin, seq![45u8, 45u8] + content.skip(30)))
    } else {
        Seq::empty()
    }
}

/// File parts of the body for a content type.
pub open spec fn uploads_of(content: Seq<u8>, stdin: Seq<u8>) -> Seq<PartView> {
    if stdin.len() > 0 && content != form_type() && multipart_type().is_prefix_of(content) {
        file_parts(multipart(stdin, seq![45u8, 45u8] + content.skip(30)))
    } else {
        Seq::empty()
    }
}

fn get_or(params: &Vec<Param>, key: &str, default: Vec<u8>) -> (r: Vec<u8>)
    requires
        key.is_ascii(),
    ensures
        r@ == param_or(params_view(params@), ascii_bytes(key@), default@),
{
    let k = ascii(key);
    match param_get(params, k.as_slice()) {
        Some(v) => slice_to_vec(v.as_slice(), 0, v.len()),
        None => default,
    }
}

fn lower(s: &[u8]) -> (r: Vec<u8>)
    ensures
        r@ == ascii_lower(s@),
{
    let mut r: Vec<u8> = Vec::new();
    let mut i: usize = 0;
    while i < s.len()
        invariant
            i <= s@.len(),
            r@ == ascii_lower(s@.subrange(0, i as int)),
        decreases s@.len() - i,
    {
        let c = s[i];
        r.push(if 65 <= c && c <= 90 { c + 32 } else { c });
        i += 1;
        assert(r@ =~= ascii_lower(s@.subrange(0, i as int)));
    }
    assert(s@.subrange(0, s@.len() as int) =~= s@);
    r
}

fn split_parts(parts: Vec<FormPart>) -> (r: (Vec<(Vec<u8>, Vec<u8>)>, Vec<FormPart>))
    ensures
        pairs_view(r.0@) == text_fields(parts@.map_values(|p: FormPart| p.view())),
        r.1@.map_values(|p: FormPart| p.view()) == file_parts(parts@.map_values(|p: FormPart| p.view())),
{
    let ghost pv = parts@.map_values(|p: FormPart| p.view());
    let mut parts = parts;
    let mut texts: Vec<(Vec<u8>, Vec<u8>)> = Vec::new();
    let mut files: Vec<FormPart> = Vec::new();
    let mut i: usize = 0;
    let n = parts.len();
    while parts.len() > 0
        invariant
            i + parts@.len() == n,
            n == pv.len(),
            forall|j: int| 0 <= j < parts@.len() ==> #[trigger] parts@[j].view() == pv[i + j],
            pairs_view(texts@) == text_fields(pv.take(i as int)),
            files@.map_values(|p: FormPart| p.view()) == file_parts(pv.take(i as int)),
        decreases parts@.len(),
    {
        let ghost before_parts = parts@;
        let part = parts.remove(0);
        assert(part.view() == pv[i as int]) by {
            assert(before_parts[0] == part);
        }
        assert forall|j: int| 0 <= j < parts@.len() implies #[trigger] parts@[j].view() == pv[i + 1 + j] by {
            assert(parts@[j] == before_parts[j + 1]);
        }
        proof {
            assert(pv.take(i + 1).drop_last() =~= pv.take(i as int));
            assert(pv.take(i + 1).last() == pv[i as int]);
        }
        match part.filename {
            None => {
                if is_utf8(part.data.as_slice()) {
                    let ghost before = texts@;
                    texts.push((part.name, part.data));
                    assert(pairs_view(texts@) =~= pairs_view(before).push((pv[i as int].name, pv[i as int].data)));
                }
                assert(files@.map_values(|p: FormPart| p.view()) == file_parts(pv.take(i + 1)));
            },
            Some(f) => {
                let ghost before = files@;
                let ghost pview = part.view();
                files.push(FormPart { name: part.name, filename: Some(f), data: part.data });
                assert(files@.map_values(|p: FormPart| p.view()) =~= before.map_values(|p: FormPart| p.view()).push(pview));
            },
        }
        i += 1;
    }
    assert(pv.take(n as int) =~= pv);
    (texts, files)
}

impl Request {
    /// Builds the request from the FastCGI parameters, the STDIN body and
    /// the working directory.
    pub fn new(param: &Vec<Param>, stdin: &Vec<u8>, dir: &[u8]) -> (r: Request)
        requires
            stdin@.len() < usize::MAX,
            forall|i: int| 0 <= i < param@.len() ==> #[trigger] param@[i].1@.len() < usize::MAX,
        ensures
            ({
                let ps = params_view(param@);
                let content = param_or(ps, lit("CONTENT_TYPE"), Seq::empty());
                &&& r.ajax == (lookup(ps, lit("HTTP_X_REQUESTED_WITH")) matches Some(v)
                    && ascii_lower(v) == lit("xmlhttprequest"))
                &&& r.host@ == param_or(ps, lit("HTTP_HOST"), Seq::empty())
                &&& r.scheme@ == param_or(ps, lit("REQUEST_SCHEME"), lit("https"))
                &&& r.agent@ == param_or(ps, lit("HTTP_USER_AGENT"), Seq::empty())
                &&& r.referer@ == param_or(ps, lit("HTTP_REFERER"), Seq::empty())
                &&& r.ip@ == param_or(ps, lit("REMOTE_ADDR"), Seq::empty())
                &&& r.method@ == param_or(ps, lit("REQUEST_METHOD"), Seq::empty())
                &&& r.path@ == param_or(ps, lit("DOCUMENT_ROOT"), dir@)
                &&& r.site@ == r.scheme@ + lit("://") + r.host@
                &&& r.url@ == url_decoded(
                    split_n(param_or(ps, lit("REDIRECT_URL"), Seq::empty()), 63, 2)[0],
                )
                &&& pairs_view(r.get@) == match lookup(ps, lit("QUERY_STRING")) {
                    Some(q) => query_pairs(q),
                    None => Seq::empty(),
                }
                &&& pairs_view(r.cookie@) == match lookup(ps, lit("HTTP_COOKIE")) {
                    Some(c) => cookie_pairs(c),
                    None => Seq::empty(),
                }
                &&& pairs_view(r.post@) == post_of(content, stdin@)
                &&& r.uploads@.map_values(|p: FormPart| p.view()) == uploads_of(content, stdin@)
                &&& r.file@.len() == 0
            }),
    {
        proof {
            reveal_strlit("CONTENT_TYPE");
            reveal_strlit("HTTP_X_REQUESTED_WITH");
            reveal_strlit("xmlhttprequest");
            reveal_strlit("HTTP_HOST");
            reveal_strlit("REQUEST_SCHEME");
            reveal_strlit("https");
            reveal_strlit("HTTP_USER_AGENT");
            reveal_strlit("HTTP_REFERER");
            reveal_strlit("REMOTE_ADDR");
            reveal_strlit("REQUEST_METHOD");
            reveal_strlit("DOCUMENT_ROOT");
            reveal_strlit("://");
            reveal_strlit("REDIRECT_URL");
            reveal_strlit("QUERY_STRING");
            reveal_strlit("HTTP_COOKIE");
            reveal_strlit("application/x-www-form-urlencoded");
            reveal_strlit("multipart/form-data; boundary=");
        }
        let ghost ps = params_view(param@);
        let ajax = match param_get(param, ascii("HTTP_X_REQUESTED_WITH").as_slice()) {
            Some(v) => bytes_eq(lower(v.as_slice()).as_slice(), ascii("xmlhttprequest").as_slice()),
            None => false,
        };
        let host = get_or(param, "HTTP_HOST", Vec::new());
        let scheme = get_or(param, "REQUEST_SCHEME", ascii("https"));
        let agent = get_or(param, "HTTP_USER_AGENT", Vec::new());
        let referer = get_or(param, "HTTP_REFERER", Vec::new());
        let ip = get_or(param, "REMOTE_ADDR", Vec::new());
        let method = get_or(param, "REQUEST_METHOD", Vec::new());
        let path = get_or(param, "DOCUMENT_ROOT", slice_to_vec(dir, 0, dir.len()));
        assert(dir@.subrange(0, dir@.len() as int) =~= dir@);
        let site = concat(concat(scheme.as_slice(), ascii("://").as_slice()).as_slice(), host.as_slice());
        let raw_url = get_or(param, "REDIRECT_URL", Vec::new());
        let url_parts = splitn(raw_url.as_slice(), 63, 2);
        assert(bytes_view(url_parts@)[0] == url_parts@[0]@);
        let url = url_decode(url_parts[0].as_slice());
        let get = match param_get(param, ascii("QUERY_STRING").as_slice()) {
            Some(q) => {
                proof { lemma_param_value_len(param, ascii_bytes("QUERY_STRING"@)); }
                parse_query(q.as_slice())
            },
            None => Vec::new(),
        };
        let cookie = match param_get(param, ascii("HTTP_COOKIE").as_slice()) {
            Some(c) => {
                proof { lemma_param_value_len(param, ascii_bytes("HTTP_COOKIE"@)); }
                parse_cookie(c.as_slice())
            },
            None => Vec::new(),
        };
        let content = get_or(param, "CONTENT_TYPE", Vec::new());
        let form = ascii("application/x-www-form-urlencoded");
        let multi = ascii("multipart/form-data; boundary=");
        let mut post: Vec<(Vec<u8>, Vec<u8>)> = Vec::new();
        let mut uploads: Vec<FormPart> = Vec::new();
        if stdin.len() > 0 {
            if bytes_eq(content.as_slice(), form.as_slice()) {
                if is_utf8(stdin.as_slice()) {
                    post = parse_query(stdin.as_slice());
                }
            } else if starts_with(content.as_slice(), multi.as_slice()) {
                let dash: Vec<u8> = vec![45u8, 45u8];
                let b = slice_to_vec(content.as_slice(), 30, content.len());
                assert(b@ =~= content@.skip(30));
                let delim = concat(dash.as_slice(), b.as_slice());
                assert(dash@ =~= seq![45u8, 45u8]);
                let parts = parse_multipart(stdin.as_slice(), delim.as_slice());
                let (t, f) = split_parts(parts);
                post = t;
                uploads = f;
            }
        }
        assert(pairs_view(post@) == post_of(content@, stdin@));
        Request {
            ajax,
            host,
            scheme,
            agent,
            referer,
            ip,
            method,
            path,
            site,
            url,
            get,
            post,
            file: Vec::new(),
            cookie,
            uploads,
        }
    }

    /// Records a file stored for field `field`.
    pub fn add_file(&mut self, field: Vec<u8>, f: WebFile)
        ensures
            final(self).file@ == old(self).file@.push((field, f)),
    {
        self.file.push((field, f));
    }
}

proof fn lemma_param_value_len(param: &Vec<Param>, k: Seq<u8>)
    requires
        forall|i: int| 0 <= i < param@.len() ==> #[trigger] param@[i].1@.len() < usize::MAX,
    ensures
        lookup(params_view(param@), k) matches Some(v) ==> v.len() < usize::MAX,
{
    let pv = params_view(param@);
    lemma_lookup_in(pv, k);
    if lookup(pv, k) is Some {
        let j = choose|j: int| 0 <= j < pv.len() && pv[j].1 == lookup(pv, k).unwrap();
        assert(param@[j].1@.len() < usize::MAX);
    }
}

proof fn lemma_lookup_in(ps: Seq<(Seq<u8>, Seq<u8>)>, k: Seq<u8>)
    ensures
        lookup(ps, k) matches Some(v) ==> exists|j: int| 0 <= j < ps.len() && ps[j].1 == v,
    decreases ps.len(),
{
    if ps.len() > 0 && ps.last().0 != k {
        lemma_lookup_in(ps.drop_last(), k);
        if lookup(ps, k) is Some {
            let j = choose|j: int| 0 <= j < ps.drop_last().len() && ps.drop_last()[j].1 == lookup(ps, k).unwrap();
            assert(ps[j] == ps.drop_last()[j]);
        }
    } else if ps.len() > 0 {
        assert(ps[ps.len() - 1] == ps.last());
    }
}

} // verus!
