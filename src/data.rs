//! The tagged value kept in the cache, the session and view data.
use vstd::prelude::*;

verus! {

broadcast use vstd::std_specs::vec::group_vec_axioms;

/// One enabled language.
#[derive(Clone, Debug)]
pub struct LangItem {
    pub lang_id: u8,
    pub lang: Vec<u8>,
    pub code: Vec<u8>,
    pub name: Vec<u8>,
}

/// A tagged value.
#[derive(Debug)]
pub enum Data {
    Null,
    U8(u8),
    I64(i64),
    U64(u64),
    Bool(bool),
    String(Vec<u8>),
    Vec(Vec<Data>),
    VecLang(u8, Vec<LangItem>),
    Dict(Vec<(Vec<u8>, Data)>),
}

pub struct LangView {
    pub lang_id: u8,
    pub lang: Seq<u8>,
    pub code: Seq<u8>,
    pub name: Seq<u8>,
}

/// A tagged value in mathematical terms.
pub enum Value {
    Null,
    U8(u8),
    I64(i64),
    U64(u64),
    Bool(bool),
    String(Seq<u8>),
    List(Seq<Value>),
    Langs(u8, Seq<LangView>),
    Dict(Seq<(Seq<u8>, Value)>),
}

impl LangItem {
    pub open spec fn view(&self) -> LangView {
        LangView { lang_id: self.lang_id, lang: self.lang@, code: self.code@, name: self.name@ }
    }
}

impl Data {
    pub open spec fn view(&self) -> Value
        decreases self,
    {
        match self {
            Data::Null => Value::Null,
            Data::U8(v) => Value::U8(*v),
            Data::I64(v) => Value::I64(*v),
            Data::U64(v) => Value::U64(*v),
            Data::Bool(v) => Value::Bool(*v),
            Data::String(s) => Value::String(s@),
            Data::Vec(v) => Value::List(
                Seq::new(
                    v@.len(),
                    |i: int|
                        if 0 <= i < v@.len() {
                            v[i].view()
                        } else {
                            Value::Null
                        },
                ),
            ),
            Data::VecLang(id, l) => Value::Langs(*id, Seq::new(l@.len(), |i: int| l@[i].view())),
            Data::Dict(m) => Value::Dict(
                Seq::new(
                    m@.len(),
                    |i: int|
                        if 0 <= i < m@.len() {
                            (m[i].0@, m[i].1.view())
                        } else {
                            (Seq::empty(), Value::Null)
                        },
                ),
            ),
        }
    }
}

/// What the cache hands back for a stored value: the same value with every
/// language list (which is for views only) replaced by `Null`.
pub open spec fn cached(v: Value) -> Value
    decreases v,
{
    match v {
        Value::Langs(..) => Value::Null,
        Value::List(s) => Value::List(
            Seq::new(
                s.len(),
                |i: int|
                    if 0 <= i < s.len() {
                        cached(s[i])
                    } else {
                        Value::Null
                    },
            ),
        ),
        Value::Dict(m) => Value::Dict(
            Seq::new(
                m.len(),
                |i: int|
                    if 0 <= i < m.len() {
                        (m[i].0, cached(m[i].1))
                    } else {
                        (Seq::empty(), Value::Null)
                    },
            ),
        ),
        _ => v,
    }
}

fn copy_bytes(b: &Vec<u8>) -> (r: Vec<u8>)
    ensures
        r@ == b@,
{
    let mut r: Vec<u8> = Vec::with_capacity(b.len());
    let mut i: usize = 0;
    while i < b.len()
        invariant
            i <= b@.len(),
            r@ == b@.subrange(0, i as int),
        decreases b@.len() - i,
    {
        r.push(b[i]);
        i += 1;
    }
    assert(b@.subrange(0, b@.len() as int) =~= b@);
    r
}

impl Data {
    /// A deep copy for a cache reader; language lists become `Null`.
    #[verifier::loop_isolation(false)]
    pub fn set_value(&self) -> (r: Data)
        ensures
            r.view() == cached(self.view()),
        decreases self.view(),
    {
        match self {
            Data::Null => Data::Null,
            Data::U8(v) => Data::U8(*v),
            Data::I64(v) => Data::I64(*v),
            Data::U64(v) => Data::U64(*v),
            Data::Bool(v) => Data::Bool(*v),
            Data::String(v) => Data::String(copy_bytes(v)),
            Data::VecLang(..) => Data::Null,
            Data::Vec(v) => {
                let mut out: Vec<Data> = Vec::with_capacity(v.len());
                let mut i: usize = 0;
                while i < v.len()
                    invariant
                        i <= v@.len(),
                        out@.len() == i,
                        forall|j: int| 0 <= j < i ==> #[trigger] out@[j].view() == cached(v@[j].view()),
                    decreases v@.len() - i,
                {
                    proof {
                        let sv = self.view()->List_0;
                        assert(sv[i as int] == v@[i as int].view());
                        assert(decreases_to!(self.view() => self.view()->List_0));
                        assert(decreases_to!(self.view()->List_0 => sv[i as int]));
                    }
                    let c = v[i].set_value();
                    out.push(c);
                    i += 1;
                }
                let r = Data::Vec(out);
                proof {
                    let sv = self.view()->List_0;
                    assert(sv.len() == v@.len());
                    assert forall|j: int| 0 <= j < sv.len() implies sv[j] == v@[j].view() by {}
                    let want = cached(self.view())->List_0;
                    assert(want.len() == sv.len());
                    assert forall|j: int| 0 <= j < sv.len() implies want[j] == cached(sv[j]) by {}
                    let got = r.view()->List_0;
                    assert(got.len() == out@.len());
                    assert forall|j: int| 0 <= j < got.len() implies got[j] == want[j] by {
                        assert(got[j] == out@[j].view());
                    }
                    assert(got =~= want);
                }
                r
            },
            Data::Dict(m) => {
                let mut out: Vec<(Vec<u8>, Data)> = Vec::with_capacity(m.len());
                let mut i: usize = 0;
                while i < m.len()
                    invariant
                        i <= m@.len(),
                        out@.len() == i,
                        forall|j: int|
                            0 <= j < i ==> #[trigger] out@[j].0@ == m@[j].0@ && out@[j].1.view()
                                == cached(m@[j].1.view()),
                    decreases m@.len() - i,
                {
                    let k = copy_bytes(&m[i].0);
                    proof {
                        let sv = self.view()->Dict_0;
                        assert(sv[i as int] == (m@[i as int].0@, m@[i as int].1.view()));
                        assert(decreases_to!(self.view() => self.view()->Dict_0));
                        assert(decreases_to!(self.view()->Dict_0 => sv[i as int]));
                        assert(decreases_to!(sv[i as int] => sv[i as int].1));
                    }
                    let c = m[i].1.set_value();
                    out.push((k, c));
                    i += 1;
                }
                let r = Data::Dict(out);
                proof {
                    let sv = self.view()->Dict_0;
                    assert(sv.len() == m@.len());
                    assert forall|j: int| 0 <= j < sv.len() implies sv[j] == (m@[j].0@, m@[j].1.view()) by {}
                    let want = cached(self.view())->Dict_0;
                    assert(want.len() == sv.len());
                    assert forall|j: int| 0 <= j < sv.len() implies want[j] == (sv[j].0, cached(sv[j].1)) by {}
                    let got = r.view()->Dict_0;
                    assert(got.len() == out@.len());
                    assert forall|j: int| 0 <= j < got.len() implies got[j] == want[j] by {
                        assert(got[j] == (out@[j].0@, out@[j].1.view()));
                    }
                    assert(got =~= want);
                }
                r
            },
        }
    }
}

} // verus!
