//! Template expansion: `<?=KEY?>` substitutions and `<?[KEY?> … <?KEY]?>`
//! blocks repeated once per language.
use vstd::prelude::*;
use vstd::view::View as _;
use crate::data::{Data, LangItem, LangView, Value};
use crate::text::{
    ascii, ascii_bytes, concat, decimal, decimal_of, find, find_from, html_escaped, htmlencode,
    replace, replace_all,
};
use crate::fastcgi::slice_to_vec;
use crate::controller::Answer;

verus! {

pub open spec fn lit(s: &str) -> Seq<u8> {
    ascii_bytes(s@)
}

/// `<?=KEY?>`
pub open spec fn marker(key: Seq<u8>) -> Seq<u8> {
    lit("<?=") + key + lit("?>")
}

/// `<?=KEY.FIELD?>`
pub open spec fn field_marker(key: Seq<u8>, field: Seq<u8>) -> Seq<u8> {
    lit("<?=") + key + lit(".") + field + lit("?>")
}

/// `<?[KEY?>`
pub open spec fn block_start(key: Seq<u8>) -> Seq<u8> {
    lit("<?[") + key + lit("?>")
}

/// `<?KEY]?>`
pub open spec fn block_end(key: Seq<u8>) -> Seq<u8> {
    lit("<?") + key + lit("]?>")
}

/// The block body expanded for one language.
pub open spec fn expand_one(tpl: Seq<u8>, key: Seq<u8>, selected: u8, l: LangView) -> Seq<u8> {
    let t1 = replace_all(tpl, field_marker(key, lit("lang_id")), decimal(l.lang_id as nat));
    let t2 = replace_all(t1, field_marker(key, lit("lang")), l.lang);
    let t3 = replace_all(t2, field_marker(key, lit("code")), l.code);
    let t4 = replace_all(t3, field_marker(key, lit("name")), html_escaped(l.name));
    replace_all(
        t4,
        field_marker(key, lit("selected")),
        if l.lang_id == selected {
            lit("selected")
        } else {
            Seq::empty()
        },
    )
}

/// The block body expanded for each language in turn.
pub open spec fn expand_all(tpl: Seq<u8>, key: Seq<u8>, selected: u8, ls: Seq<LangView>) -> Seq<u8>
    decreases ls.len(),
{
    if ls.len() == 0 {
        Seq::empty()
    } else {
        expand_all(tpl, key, selected, ls.drop_last()) + expand_one(tpl, key, selected, ls.last())
    }
}

/// The first block for `key` replaced by its expansion; the text is kept
/// when the block's start or end is missing or out of order.
pub open spec fn expand_block(view: Seq<u8>, key: Seq<u8>, selected: u8, ls: Seq<LangView>) -> Seq<u8> {
    let ks = block_start(key);
    let kf = block_end(key);
    match (find_from(view, ks, 0), find_from(view, kf, 0)) {
        (Some(s), Some(f)) => if s + ks.len() <= f {
            view.subrange(0, s) + expand_all(view.subrange(s + ks.len(), f), key, selected, ls)
                + view.subrange(f + kf.len(), view.len() as int)
        } else {
            view
        },
        _ => view,
    }
}

/// One value applied to the text: `Null` removes its marker, a string
/// replaces it, a language list expands its block, others leave the text.
pub open spec fn apply(view: Seq<u8>, key: Seq<u8>, v: Value) -> Seq<u8> {
    match v {
        Value::Null => replace_all(view, marker(key), Seq::empty()),
        Value::String(s) => replace_all(view, marker(key), s),
        Value::Langs(id, ls) => expand_block(view, key, id, ls),
        _ => view,
    }
}

/// The template with every entry applied, in order.
pub open spec fn render(view: Seq<u8>, data: Seq<(Seq<u8>, Value)>) -> Seq<u8>
    decreases data.len(),
{
    if data.len() == 0 {
        view
    } else {
        apply(render(view, data.drop_last()), data.last().0, data.last().1)
    }
}

pub open spec fn entries_view(data: Seq<(Vec<u8>, Data)>) -> Seq<(Seq<u8>, Value)> {
    data.map_values(|e: (Vec<u8>, Data)| (e.0@, e.1.view()))
}

fn join3(a: &str, key: &[u8], b: &str) -> (r: Vec<u8>)
    requires
        a.is_ascii(),
        b.is_ascii(),
    ensures
        r@ == ascii_bytes(a@) + key@ + ascii_bytes(b@),
{
    let x = concat(ascii(a).as_slice(), key);
    concat(x.as_slice(), ascii(b).as_slice())
}

fn field_of(key: &[u8], field: &str) -> (r: Vec<u8>)
    requires
        field.is_ascii(),
    ensures
        r@ == field_marker(key@, ascii_bytes(field@)),
{
    proof {
        reveal_strlit("<?=");
        reveal_strlit(".");
        reveal_strlit("?>");
    }
    let x = join3("<?=", key, ".");
    let y = concat(x.as_slice(), ascii(field).as_slice());
    let r = concat(y.as_slice(), ascii("?>").as_slice());
    assert(r@ =~= field_marker(key@, ascii_bytes(field@)));
    r
}

fn expand_lang(tpl: &[u8], key: &[u8], selected: u8, l: &LangItem) -> (r: Vec<u8>)
    ensures
        r@ == expand_one(tpl@, key@, selected, l.view()),
{
    proof {
        reveal_strlit("lang_id");
        reveal_strlit("lang");
        reveal_strlit("code");
        reveal_strlit("name");
        reveal_strlit("selected");
        reveal_strlit("<?=");
        reveal_strlit(".");
        reveal_strlit("?>");
    }
    let t1 = replace(tpl, field_of(key, "lang_id").as_slice(), decimal_of(l.lang_id as u64).as_slice());
    let t2 = replace(t1.as_slice(), field_of(key, "lang").as_slice(), l.lang.as_slice());
    let t3 = replace(t2.as_slice(), field_of(key, "code").as_slice(), l.code.as_slice());
    let t4 = replace(t3.as_slice(), field_of(key, "name").as_slice(), htmlencode(l.name.as_slice()).as_slice());
    let sel: Vec<u8> = if l.lang_id == selected { ascii("selected") } else { Vec::new() };
    assert(sel@ == (if l.lang_id == selected { lit("selected") } else { Seq::<u8>::empty() }));
    replace(t4.as_slice(), field_of(key, "selected").as_slice(), sel.as_slice())
}

fn expand_block_exec(view: &[u8], key: &[u8], selected: u8, ls: &Vec<LangItem>) -> (r: Vec<u8>)
    ensures
        r@ == expand_block(view@, key@, selected, ls@.map_values(|l: LangItem| l.view())),
{
    proof {
        reveal_strlit("<?[");
        reveal_strlit("<?");
        reveal_strlit("?>");
        reveal_strlit("]?>");
    }
    let ks = join3("<?[", key, "?>");
    let kf = join3("<?", key, "]?>");
    let ghost lv = ls@.map_values(|l: LangItem| l.view());
    let s = match find(view, ks.as_slice()) {
        None => return slice_to_vec(view, 0, view.len()),
        Some(s) => s,
    };
    let f = match find(view, kf.as_slice()) {
        None => return slice_to_vec(view, 0, view.len()),
        Some(f) => f,
    };
    assert(view@.subrange(0, view@.len() as int) =~= view@);
    if f < s || f - s < ks.len() {
        return slice_to_vec(view, 0, view.len());
    }
    let tpl = slice_to_vec(view, s + ks.len(), f);
    let mut body: Vec<u8> = Vec::new();
    let mut i: usize = 0;
    while i < ls.len()
        invariant
            i <= ls@.len(),
            lv == ls@.map_values(|l: LangItem| l.view()),
            body@ == expand_all(tpl@, key@, selected, lv.take(i as int)),
        decreases ls@.len() - i,
    {
        let one = expand_lang(tpl.as_slice(), key, selected, &ls[i]);
        body = concat(body.as_slice(), one.as_slice());
        proof {
            assert(lv.take(i + 1).drop_last() =~= lv.take(i as int));
            assert(lv.take(i + 1).last() == ls@[i as int].view());
        }
        i += 1;
    }
    assert(lv.take(ls@.len() as int) =~= lv);
    let head = slice_to_vec(view, 0, s);
    assert(f + kf@.len() <= view@.len());
    assert(view@.len() == view.len());
    let tail = slice_to_vec(view, f + kf.len(), view.len());
    let r = concat(concat(head.as_slice(), body.as_slice()).as_slice(), tail.as_slice());
    r
}

/// Expands `template` with the entries of `data`, applied in order.
#[verifier::loop_isolation(false)]
pub fn render_template(template: &[u8], data: &Vec<(Vec<u8>, Data)>) -> (r: Vec<u8>)
    ensures
        r@ == render(template@, entries_view(data@)),
{
    proof {
        reveal_strlit("<?=");
        reveal_strlit("?>");
    }
    let mut view = slice_to_vec(template, 0, template.len());
    assert(template@.subrange(0, template@.len() as int) =~= template@);
    let ghost ev = entries_view(data@);
    let mut i: usize = 0;
    while i < data.len()
        invariant
            i <= data@.len(),
            ev == entries_view(data@),
            view@ == render(template@, ev.take(i as int)),
        decreases data@.len() - i,
    {
        let (key, value) = &data[i];
        proof {
            assert(ev.take(i + 1).drop_last() =~= ev.take(i as int));
            assert(ev.take(i + 1).last() == (key@, value.view()));
        }
        match value {
            Data::Null => {
                let m = join3("<?=", key.as_slice(), "?>");
                let nothing: Vec<u8> = Vec::new();
                view = replace(view.as_slice(), m.as_slice(), nothing.as_slice());
            },
            Data::String(s) => {
                let m = join3("<?=", key.as_slice(), "?>");
                view = replace(view.as_slice(), m.as_slice(), s.as_slice());
            },
            Data::VecLang(id, ls) => {
                view = expand_block_exec(view.as_slice(), key.as_slice(), *id, ls);
                assert(value.view() == Value::Langs(*id, ls@.map_values(|l: LangItem| l.view()))) by {
                    assert(Seq::new(ls@.len(), |j: int| ls@[j].view()) =~= ls@.map_values(|l: LangItem| l.view()));
                }
            },
            _ => {},
        }
        i += 1;
    }
    assert(ev.take(data@.len() as int) =~= ev);
    view
}

/// Templates of one controller class, kept as files in `dir`.
#[derive(Debug)]
pub struct View {
    pub dir: Vec<u8>,
}

impl View {
    pub fn new(dir: Vec<u8>) -> (r: View)
        ensures
            r.dir@ == dir@,
    {
        View { dir }
    }

    /// The file of a view: `<dir>view_<name>.html`.
    pub fn file(&self, view: &[u8]) -> (r: Vec<u8>)
        ensures
            r@ == self.dir@ + lit("view_") + view@ + lit(".html"),
    {
        proof {
            reveal_strlit("view_");
            reveal_strlit(".html");
        }
        let a = concat(self.dir.as_slice(), ascii("view_").as_slice());
        let b = concat(a.as_slice(), view);
        let r = concat(b.as_slice(), ascii(".html").as_slice());
        assert(r@ =~= self.dir@ + lit("view_") + view@ + lit(".html"));
        r
    }

    /// Renders the text read from a view's file; nothing when it could not
    /// be read.
    pub fn out(&self, template: Option<Vec<u8>>, data: &Vec<(Vec<u8>, Data)>) -> (r: Answer)
        ensures
            match template {
                None => r is Empty,
                Some(t) => r matches Answer::String(x) && x@ == render(t@, entries_view(data@)),
            },
    {
        match template {
            None => Answer::Empty,
            Some(t) => Answer::String(render_template(t.as_slice(), data)),
        }
    }
}

} // verus!
