//! The control channel's text protocol: `<client-id> <command> [args]`
//! asks, `<server-id> <command> ok:[text]` answers.
use vstd::prelude::*;
use crate::text::{ascii, bytes_eq, bytes_view, concat, decimal, push_decimal, split_pat, split_by, starts_with};
use crate::view::lit;
use crate::fastcgi::slice_to_vec;

verus! {

/// The command word of a request: its second space-separated word, when the
/// first (the client id) is not empty.
pub open spec fn command_of(data: Seq<u8>) -> Option<Seq<u8>> {
    let w = split_pat(data, seq![32u8], 3);
    if w.len() >= 2 && w[0].len() > 0 {
        Some(w[1])
    } else {
        None
    }
}

/// The command word of a control request.
pub fn control_command(data: &[u8]) -> (r: Option<Vec<u8>>)
    ensures
        match command_of(data@) {
            None => r is None,
            Some(c) => r matches Some(x) && x@ == c,
        },
{
    let sp: Vec<u8> = vec![32u8];
    assert(sp@ =~= seq![32u8]);
    let w = split_by(data, sp.as_slice(), 3);
    assert(bytes_view(w@).len() == w@.len());
    if w.len() >= 2 && w[0].len() > 0 {
        assert(bytes_view(w@)[0] == w@[0]@ && bytes_view(w@)[1] == w@[1]@);
        Some(slice_to_vec(w[1].as_slice(), 0, w[1].len()))
    } else {
        None
    }
}

/// `true` when a control request asks the server to stop.
pub fn is_stop(data: &[u8]) -> (r: bool)
    ensures
        r == (command_of(data@) == Some(lit("stop"))),
{
    proof {
        reveal_strlit("stop");
    }
    match control_command(data) {
        Some(c) => bytes_eq(c.as_slice(), ascii("stop").as_slice()),
        None => false,
    }
}

/// The answer to a handled command: `<server-id> <command> ok:`.
pub fn control_answer(server_id: u32, command: &[u8]) -> (r: Vec<u8>)
    ensures
        r@ == decimal(server_id as nat) + seq![32u8] + command@ + lit(" ok:"),
{
    proof {
        reveal_strlit(" ok:");
    }
    let mut r: Vec<u8> = Vec::new();
    push_decimal(&mut r, server_id as u64);
    r.push(32);
    let r = concat(r.as_slice(), command);
    let r = concat(r.as_slice(), ascii(" ok:").as_slice());
    r
}

/// What a client makes of the server's answer to `command`: the text after
/// `ok:` (`None` when empty), or the code of what is wrong with it:
/// 252 no space, 254 empty server id, 257 no second space, 259 another
/// command, 262 no `ok:`.
pub open spec fn reply_of(data: Seq<u8>, command: Seq<u8>) -> Result<Option<Seq<u8>>, u32> {
    let w = split_pat(data, seq![32u8], 3);
    if w.len() < 2 {
        Err(252)
    } else if w[0].len() == 0 {
        Err(254)
    } else if w.len() < 3 {
        Err(257)
    } else if w[1] != command {
        Err(259)
    } else if !lit("ok:").is_prefix_of(w[2]) {
        Err(262)
    } else if w[2].len() == 3 {
        Ok(None)
    } else {
        Ok(Some(w[2].skip(3)))
    }
}

/// Checks the server's answer to `command`.
pub fn control_reply(data: &[u8], command: &[u8]) -> (r: Result<Option<Vec<u8>>, u32>)
    ensures
        match reply_of(data@, command@) {
            Err(e) => r == Err::<Option<Vec<u8>>, u32>(e),
            Ok(None) => r matches Ok(None),
            Ok(Some(t)) => r matches Ok(Some(x)) && x@ == t,
        },
{
    proof {
        reveal_strlit("ok:");
    }
    let sp: Vec<u8> = vec![32u8];
    assert(sp@ =~= seq![32u8]);
    let w = split_by(data, sp.as_slice(), 3);
    let ghost wv = bytes_view(w@);
    assert(wv.len() == w@.len());
    if w.len() < 2 {
        return Err(252);
    }
    assert(wv[0] == w@[0]@ && wv[1] == w@[1]@);
    if w[0].len() == 0 {
        return Err(254);
    }
    if w.len() < 3 {
        return Err(257);
    }
    assert(wv[2] == w@[2]@);
    if !bytes_eq(w[1].as_slice(), command) {
        return Err(259);
    }
    if !starts_with(w[2].as_slice(), ascii("ok:").as_slice()) {
        return Err(262);
    }
    if w[2].len() == 3 {
        return Ok(None);
    }
    let rest = slice_to_vec(w[2].as_slice(), 3, w[2].len());
    assert(rest@ =~= wv[2].skip(3));
    Ok(Some(rest))
}

} // verus!
