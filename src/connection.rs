//! The per-connection FastCGI state machine: which record may come next,
//! what it adds to the request, and when the request is dispatched.
use vstd::prelude::*;
use crate::fastcgi::{Content, ContentData, FastCGI, Header, HeaderType, Param, Record, params_view, end_bytes};

verus! {

/// Where a connection stands in the exchange of one request.
#[derive(PartialEq, Eq, Structural, Clone, Copy, Debug)]
pub enum Status {
    /// Waiting for BEGIN_REQUEST.
    Init,
    /// BEGIN_REQUEST seen.
    Begin,
    /// Non-empty PARAMS records seen.
    Param,
    /// The empty PARAMS record seen.
    ParamEnd,
    /// Non-empty STDIN records seen.
    Stdin,
    /// The empty STDIN record seen: the request is dispatched.
    Work,
    /// The response is written and the connection is to be closed.
    End,
}

/// The kind of a decoded record, as far as the state machine cares.
#[derive(PartialEq, Eq, Structural, Clone, Copy, Debug)]
pub enum Event {
    Begin,
    Abort,
    /// A PARAMS record; `true` when it carries pairs.
    Params(bool),
    /// A STDIN record; `true` when it carries bytes.
    Stdin(bool),
    /// Any other record, which leaves the state as it is.
    Other,
}

pub open spec fn event_of(t: HeaderType, c: Content) -> Event {
    match (t, c) {
        (HeaderType::BeginRequest, Content::BeginRequest(..)) => Event::Begin,
        (HeaderType::AbortRequest, _) => Event::Abort,
        (HeaderType::Params, Content::Empty) => Event::Params(false),
        (HeaderType::Params, Content::Param(_)) => Event::Params(true),
        (HeaderType::Stdin, Content::Empty) => Event::Stdin(false),
        (HeaderType::Stdin, Content::Stream(_)) => Event::Stdin(true),
        _ => Event::Other,
    }
}

/// The state after an event; `None` when the connection is closed (a record
/// out of order, or an abort).
pub open spec fn step(s: Status, e: Event) -> Option<Status> {
    match e {
        Event::Begin => if s == Status::Init {
            Some(Status::Begin)
        } else {
            None
        },
        Event::Abort => None,
        Event::Params(full) => if s == Status::Begin || s == Status::Param {
            Some(if full { Status::Param } else { Status::ParamEnd })
        } else {
            None
        },
        Event::Stdin(full) => if s == Status::ParamEnd || s == Status::Stdin {
            Some(if full { Status::Stdin } else { Status::Work })
        } else {
            None
        },
        Event::Other => Some(s),
    }
}

/// The state after a sequence of events from `Init`.
pub open spec fn run(evs: Seq<Event>) -> Option<Status>
    decreases evs.len(),
{
    if evs.len() == 0 {
        Some(Status::Init)
    } else {
        match run(evs.drop_last()) {
            None => None,
            Some(s) => step(s, evs.last()),
        }
    }
}

pub open spec fn all_are(evs: Seq<Event>, e: Event) -> bool {
    forall|i: int| 0 <= i < evs.len() ==> #[trigger] evs[i] == e
}

/// The records of a request that reached dispatch:
/// BEGIN_REQUEST, non-empty PARAMS, the empty PARAMS, non-empty STDIN, the
/// empty STDIN.
pub open spec fn dispatch_shape(
    evs: Seq<Event>,
    ps: Seq<Event>,
    ss: Seq<Event>,
) -> bool {
    &&& all_are(ps, Event::Params(true))
    &&& all_are(ss, Event::Stdin(true))
    &&& evs == seq![Event::Begin] + ps + seq![Event::Params(false)] + ss + seq![Event::Stdin(false)]
}

/// What each reachable state says of the records seen so far.
pub open spec fn history(s: Status, evs: Seq<Event>) -> bool {
    match s {
        Status::Init => evs.len() == 0,
        Status::Begin => evs == seq![Event::Begin],
        Status::Param => exists|ps: Seq<Event>|
            all_are(ps, Event::Params(true)) && ps.len() >= 1 && evs == seq![Event::Begin] + ps,
        Status::ParamEnd => exists|ps: Seq<Event>|
            all_are(ps, Event::Params(true)) && evs == seq![Event::Begin] + ps + seq![
                Event::Params(false),
            ],
        Status::Stdin => exists|ps: Seq<Event>, ss: Seq<Event>|
            all_are(ps, Event::Params(true)) && all_are(ss, Event::Stdin(true)) && ss.len() >= 1
                && evs == seq![Event::Begin] + ps + seq![Event::Params(false)] + ss,
        Status::Work => exists|ps: Seq<Event>, ss: Seq<Event>| dispatch_shape(evs, ps, ss),
        Status::End => false,
    }
}

proof fn lemma_history(evs: Seq<Event>)
    requires
        !evs.contains(Event::Other),
        run(evs) is Some,
    ensures
        history(run(evs).unwrap(), evs),
    decreases evs.len(),
{
    if evs.len() > 0 {
        let pre = evs.drop_last();
        let e = evs.last();
        assert(!pre.contains(Event::Other)) by {
            if pre.contains(Event::Other) {
                let k = choose|k: int| 0 <= k < pre.len() && pre[k] == Event::Other;
                assert(evs[k] == Event::Other);
            }
        }
        assert(evs[evs.len() - 1] == e);
        lemma_history(pre);
        let s = run(pre).unwrap();
        assert(evs =~= pre + seq![e]);
        let s2 = run(evs).unwrap();
        match s {
            Status::Init => {
                assert(pre =~= Seq::<Event>::empty());
            },
            Status::Begin => {
                if e == Event::Params(true) {
                    let ps = seq![Event::Params(true)];
                    assert(all_are(ps, Event::Params(true)));
                    assert(evs =~= seq![Event::Begin] + ps);
                } else if e == Event::Params(false) {
                    let ps = Seq::<Event>::empty();
                    assert(all_are(ps, Event::Params(true)));
                    assert(evs =~= seq![Event::Begin] + ps + seq![Event::Params(false)]);
                }
            },
            Status::Param => {
                let ps = choose|ps: Seq<Event>|
                    all_are(ps, Event::Params(true)) && ps.len() >= 1 && pre == seq![Event::Begin]
                        + ps;
                if e == Event::Params(true) {
                    let ps2 = ps + seq![Event::Params(true)];
                    assert(all_are(ps2, Event::Params(true)));
                    assert(evs =~= seq![Event::Begin] + ps2);
                } else if e == Event::Params(false) {
                    assert(evs =~= seq![Event::Begin] + ps + seq![Event::Params(false)]);
                }
            },
            Status::ParamEnd => {
                let ps = choose|ps: Seq<Event>|
                    all_are(ps, Event::Params(true)) && pre == seq![Event::Begin] + ps + seq![
                        Event::Params(false),
                    ];
                if e == Event::Stdin(true) {
                    let ss = seq![Event::Stdin(true)];
                    assert(all_are(ss, Event::Stdin(true)));
                    assert(evs =~= seq![Event::Begin] + ps + seq![Event::Params(false)] + ss);
                } else if e == Event::Stdin(false) {
                    let ss = Seq::<Event>::empty();
                    assert(all_are(ss, Event::Stdin(true)));
                    assert(evs =~= seq![Event::Begin] + ps + seq![Event::Params(false)] + ss
                        + seq![Event::Stdin(false)]);
                    assert(dispatch_shape(evs, ps, ss));
                }
            },
            Status::Stdin => {
                let (ps, ss) = choose|ps: Seq<Event>, ss: Seq<Event>|
                    all_are(ps, Event::Params(true)) && all_are(ss, Event::Stdin(true)) && ss.len()
                        >= 1 && pre == seq![Event::Begin] + ps + seq![Event::Params(false)] + ss;
                if e == Event::Stdin(true) {
                    let ss2 = ss + seq![Event::Stdin(true)];
                    assert(all_are(ss2, Event::Stdin(true)));
                    assert(evs =~= seq![Event::Begin] + ps + seq![Event::Params(false)] + ss2);
                } else if e == Event::Stdin(false) {
                    assert(evs =~= seq![Event::Begin] + ps + seq![Event::Params(false)] + ss
                        + seq![Event::Stdin(false)]);
                    assert(dispatch_shape(evs, ps, ss));
                }
            },
            _ => {},
        }
    }
}

/// A request that reaches dispatch has been sent as BEGIN_REQUEST, one or
/// more non-empty PARAMS, the empty PARAMS, any number of non-empty STDIN,
/// then the empty STDIN (records the state machine does not act upon left
/// aside).
pub proof fn lemma_dispatch_order(evs: Seq<Event>)
    requires
        !evs.contains(Event::Other),
        run(evs) == Some(Status::Work),
        evs.contains(Event::Params(true)),
    ensures
        exists|ps: Seq<Event>, ss: Seq<Event>| ps.len() >= 1 && dispatch_shape(evs, ps, ss),
{
    lemma_history(evs);
    let (ps, ss) = choose|ps: Seq<Event>, ss: Seq<Event>| dispatch_shape(evs, ps, ss);
    if ps.len() == 0 {
        let k = choose|k: int| 0 <= k < evs.len() && evs[k] == Event::Params(true);
        assert(evs =~= seq![Event::Begin] + seq![Event::Params(false)] + ss + seq![
            Event::Stdin(false),
        ]);
        if k >= 2 && k < evs.len() - 1 {
            assert(evs[k] == ss[k - 2]);
        }
    }
    assert(ps.len() >= 1 && dispatch_shape(evs, ps, ss));
}


/// A request is dispatched only after its empty STDIN record: a connection
/// that stalls before it never has its request run, and nothing is written
/// for it.
pub proof fn lemma_dispatch_needs_end_of_stdin(evs: Seq<Event>)
    requires
        !evs.contains(Event::Other),
        run(evs) == Some(Status::Work),
    ensures
        evs.len() > 0 && evs.last() == Event::Stdin(false),
{
    lemma_history(evs);
    let (ps, ss) = choose|ps: Seq<Event>, ss: Seq<Event>| dispatch_shape(evs, ps, ss);
    assert(evs.last() == Event::Stdin(false));
}

/// What the connection loop does after a record.
#[derive(Debug)]
pub enum Action {
    /// Read the next record.
    Continue,
    /// Close the connection without writing.
    Close,
    /// Write these bytes (END_REQUEST), then close.
    Abort(Vec<u8>),
    /// Run the request and write its response.
    Dispatch,
}

/// KEEP_CONN bit of BEGIN_REQUEST's flags.
pub const FASTCGI_KEEP_CONN: u8 = 1;

/// The request being received on one connection.
pub struct Exchange {
    pub status: Status,
    /// The BEGIN_REQUEST header and flags.
    pub begin: Option<(Header, u8)>,
    /// The pairs of all PARAMS records, in arrival order.
    pub params: Vec<Param>,
    /// The bytes of all STDIN records, in arrival order.
    pub stdin: Vec<u8>,
}

impl Exchange {
    pub fn new() -> (r: Exchange)
        ensures
            r.status == Status::Init,
            r.begin.is_none(),
            r.params@.len() == 0,
            r.stdin@.len() == 0,
    {
        Exchange { status: Status::Init, begin: None, params: Vec::new(), stdin: Vec::new() }
    }

    /// Takes one decoded record: moves the state as `step` says, collects
    /// what the record carries, and tells the loop what to do.
    pub fn on_record(&mut self, record: Record) -> (r: Action)
        ensures
            ({
                let e = event_of(record.header.header_type, record.data@);
                match step(old(self).status, e) {
                    None => {
                        &&& e == Event::Abort ==> match old(self).begin {
                            Some((h, _)) => r matches Action::Abort(b) && b@ == end_bytes(h.request_id),
                            None => r is Close,
                        }
                        &&& e != Event::Abort ==> r is Close
                    },
                    Some(s) => {
                        &&& final(self).status == s
                        &&& r is Dispatch <==> s == Status::Work && e != Event::Other
                        &&& !(r is Dispatch) ==> r is Continue
                        &&& e == Event::Begin ==> final(self).begin == Some(
                            (record.header, record.data->BeginRequest_0.flags),
                        )
                        &&& e != Event::Begin ==> final(self).begin == old(self).begin
                        &&& final(self).params@.len() >= old(self).params@.len()
                        &&& params_view(final(self).params@) == params_view(old(self).params@)
                            + match record.data {
                            ContentData::Param(ps) => if e == Event::Params(true) {
                                params_view(ps@)
                            } else {
                                Seq::empty()
                            },
                            _ => Seq::empty(),
                        }
                        &&& final(self).stdin@ == old(self).stdin@ + match record.data {
                            ContentData::Stream(v) => if e == Event::Stdin(true) {
                                v@
                            } else {
                                Seq::empty()
                            },
                            _ => Seq::empty(),
                        }
                    },
                }
            }),
    {
        let t = record.header.header_type;
        match (t, record.data) {
            (HeaderType::BeginRequest, ContentData::BeginRequest(b)) => {
                if self.status != Status::Init {
                    return Action::Close;
                }
                self.begin = Some((record.header, b.flags));
                self.status = Status::Begin;
                Action::Continue
            },
            (HeaderType::AbortRequest, _) => {
                match &self.begin {
                    Some((h, _)) => Action::Abort(FastCGI::write_abort(h)),
                    None => Action::Close,
                }
            },
            (HeaderType::Params, ContentData::Empty) => {
                if self.status != Status::Begin && self.status != Status::Param {
                    return Action::Close;
                }
                self.status = Status::ParamEnd;
                assert(params_view(self.params@) =~= params_view(self.params@) + Seq::empty());
                assert(self.stdin@ =~= self.stdin@ + Seq::empty());
                Action::Continue
            },
            (HeaderType::Params, ContentData::Param(ps)) => {
                if self.status != Status::Begin && self.status != Status::Param {
                    return Action::Close;
                }
                let mut ps = ps;
                let ghost before = self.params@;
                let ghost added = ps@;
                self.params.append(&mut ps);
                assert(params_view(self.params@) =~= params_view(before) + params_view(added));
                assert(self.stdin@ =~= self.stdin@ + Seq::empty());
                self.status = Status::Param;
                Action::Continue
            },
            (HeaderType::Stdin, ContentData::Empty) => {
                if self.status != Status::ParamEnd && self.status != Status::Stdin {
                    return Action::Close;
                }
                self.status = Status::Work;
                assert(params_view(self.params@) =~= params_view(self.params@) + Seq::empty());
                assert(self.stdin@ =~= self.stdin@ + Seq::empty());
                Action::Dispatch
            },
            (HeaderType::Stdin, ContentData::Stream(v)) => {
                if self.status != Status::ParamEnd && self.status != Status::Stdin {
                    return Action::Close;
                }
                let mut v = v;
                self.stdin.append(&mut v);
                assert(params_view(self.params@) =~= params_view(self.params@) + Seq::empty());
                self.status = Status::Stdin;
                Action::Continue
            },
            (_, data) => {
                assert(params_view(self.params@) =~= params_view(self.params@) + Seq::empty());
                assert(self.stdin@ =~= self.stdin@ + Seq::empty());
                Action::Continue
            },
        }
    }

    /// Ends the request after its response is written: with KEEP_CONN the
    /// exchange starts over and `true` is returned; without it the
    /// connection is to be closed.
    pub fn finish(&mut self) -> (keep: bool)
        ensures
            keep == match old(self).begin {
                Some((_, flags)) => flags & FASTCGI_KEEP_CONN != 0,
                None => false,
            },
            keep ==> final(self).status == Status::Init && final(self).begin.is_none()
                && final(self).params@.len() == 0 && final(self).stdin@.len() == 0,
            !keep ==> final(self).status == Status::End,
    {
        let keep = match &self.begin {
            Some((_, flags)) => *flags & FASTCGI_KEEP_CONN != 0,
            None => false,
        };
        if keep {
            self.status = Status::Init;
            self.begin = None;
            self.params = Vec::new();
            self.stdin = Vec::new();
        } else {
            self.status = Status::End;
        }
        keep
    }
}

} // verus!
