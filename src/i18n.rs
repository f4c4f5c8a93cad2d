//! The stores loaded once at startup: translations by language, module,
//! class and key; the enabled languages; templates by module, class and
//! view.
use vstd::prelude::*;
use crate::data::{Data, LangItem, Value};
use crate::text::{ascii, ascii_bytes, bytes_eq, ends_with, htmlencode, html_escaped, starts_with};
use crate::fastcgi::slice_to_vec;
use crate::view::lit;

verus! {

/// One item of an INI text.
#[derive(Debug)]
pub enum IniLine {
    Error(Vec<u8>),
    Section(Vec<u8>),
    SectionEnd,
    Property(Vec<u8>, Option<Vec<u8>>),
    Comment(Vec<u8>),
    Blank,
}

/// An INI item in mathematical terms.
pub enum IniItem {
    Error(Seq<u8>),
    Section(Seq<u8>),
    SectionEnd,
    Property(Seq<u8>, Option<Seq<u8>>),
    Comment(Seq<u8>),
    Blank,
}

impl IniLine {
    pub open spec fn view(&self) -> IniItem {
        match self {
            IniLine::Error(e) => IniItem::Error(e@),
            IniLine::Section(x) => IniItem::Section(x@),
            IniLine::SectionEnd => IniItem::SectionEnd,
            IniLine::Property(k, v) => IniItem::Property(
                k@,
                match v {
                    Some(x) => Some(x@),
                    None => None,
                },
            ),
            IniLine::Comment(c) => IniItem::Comment(c@),
            IniLine::Blank => IniItem::Blank,
        }
    }
}

/// The items of an INI text, in order, with keys and values trimmed.
pub uninterp spec fn ini_items(text: Seq<char>) -> Seq<IniItem>;

/// Relies on `ini_core::Parser` with `auto_trim(true)`: the items it
/// yields for the text, in order.
#[verifier::external_body]
fn ini_lines(text: &str) -> (r: Vec<IniLine>)
    ensures
        r@.map_values(|l: IniLine| l.view()) == ini_items(text@),
{
    let mut out = Vec::new();
    for item in ini_core::Parser::new(text).auto_trim(true) {
        out.push(match item {
            ini_core::Item::Error(e) => IniLine::Error(e.as_bytes().to_vec()),
            ini_core::Item::Section(x) => IniLine::Section(x.as_bytes().to_vec()),
            ini_core::Item::SectionEnd => IniLine::SectionEnd,
            ini_core::Item::Property(k, v) => IniLine::Property(k.as_bytes().to_vec(), v.map(|x| x.as_bytes().to_vec())),
            ini_core::Item::Comment(c) => IniLine::Comment(c.as_bytes().to_vec()),
            ini_core::Item::Blank => IniLine::Blank,
        });
    }
    out
}

/// The `key = value` properties among INI items, in order; a key without
/// `=` is left out.
pub open spec fn properties(items: Seq<IniItem>) -> Seq<(Seq<u8>, Seq<u8>)>
    decreases items.len(),
{
    if items.len() == 0 {
        Seq::empty()
    } else {
        let r = properties(items.drop_last());
        match items.last() {
            IniItem::Property(k, Some(v)) => r.push((k, v)),
            _ => r,
        }
    }
}

/// The `key = value` properties of an INI text, in order.
pub fn ini_pairs(text: &str) -> (r: Vec<(Vec<u8>, Vec<u8>)>)
    ensures
        r@.map_values(|p: (Vec<u8>, Vec<u8>)| (p.0@, p.1@)) == properties(ini_items(text@)),
{
    let lines = ini_lines(text);
    let ghost items = lines@.map_values(|l: IniLine| l.view());
    let mut lines = lines;
    let n = lines.len();
    let mut i: usize = 0;
    let mut out: Vec<(Vec<u8>, Vec<u8>)> = Vec::new();
    while lines.len() > 0
        invariant
            i + lines@.len() == n,
            n == items.len(),
            items == ini_items(text@),
            forall|j: int| 0 <= j < lines@.len() ==> #[trigger] lines@[j].view() == items[i + j],
            out@.map_values(|p: (Vec<u8>, Vec<u8>)| (p.0@, p.1@)) == properties(items.take(i as int)),
        decreases lines@.len(),
    {
        let ghost before = lines@;
        let line = lines.remove(0);
        assert(line.view() == items[i as int]) by {
            assert(before[0] == line);
        }
        assert forall|j: int| 0 <= j < lines@.len() implies #[trigger] lines@[j].view() == items[i + 1 + j] by {
            assert(lines@[j] == before[j + 1]);
        }
        assert(items.take(i + 1).drop_last() =~= items.take(i as int));
        assert(items.take(i + 1).last() == items[i as int]);
        match line {
            IniLine::Property(k, Some(v)) => {
                let ghost o = out@;
                let ghost kv = (k@, v@);
                out.push((k, v));
                assert(out@.map_values(|p: (Vec<u8>, Vec<u8>)| (p.0@, p.1@)) =~= o.map_values(|p: (Vec<u8>, Vec<u8>)| (p.0@, p.1@)).push(kv));
            },
            _ => {},
        }
        i += 1;
    }
    assert(items.take(n as int) =~= items);
    out
}

/// One translation: language, module, class, key, text.
pub type Entry = (u8, Vec<u8>, Vec<u8>, Vec<u8>, Vec<u8>);

pub open spec fn entry_view(e: Entry) -> (u8, Seq<u8>, Seq<u8>, Seq<u8>, Seq<u8>) {
    (e.0, e.1@, e.2@, e.3@, e.4@)
}

/// The text of the last entry for a language, module, class and key.
pub open spec fn find_text(
    es: Seq<(u8, Seq<u8>, Seq<u8>, Seq<u8>, Seq<u8>)>,
    l: u8,
    m: Seq<u8>,
    c: Seq<u8>,
    k: Seq<u8>,
) -> Option<Seq<u8>>
    decreases es.len(),
{
    if es.len() == 0 {
        None
    } else if es.last().0 == l && es.last().1 == m && es.last().2 == c && es.last().3 == k {
        Some(es.last().4)
    } else {
        find_text(es.drop_last(), l, m, c, k)
    }
}

/// Translations and enabled languages.
#[derive(Debug)]
pub struct I18n {
    pub load: bool,
    /// Enabled languages in display order.
    pub sort: Vec<LangItem>,
    pub data: Vec<Entry>,
}

impl I18n {
    pub open spec fn entries(&self) -> Seq<(u8, Seq<u8>, Seq<u8>, Seq<u8>, Seq<u8>)> {
        self.data@.map_values(|e: Entry| entry_view(e))
    }

    pub fn new() -> (r: I18n)
        ensures
            !r.load,
            r.sort@.len() == 0,
            r.data@.len() == 0,
    {
        I18n { load: false, sort: Vec::new(), data: Vec::new() }
    }

    /// A copy of the enabled languages, in order.
    pub fn clone_lang(&self) -> (r: Vec<LangItem>)
        ensures
            r@.map_values(|l: LangItem| l.view()) == self.sort@.map_values(|l: LangItem| l.view()),
    {
        let mut out: Vec<LangItem> = Vec::new();
        let mut i: usize = 0;
        while i < self.sort.len()
            invariant
                i <= self.sort@.len(),
                out@.len() == i,
                forall|j: int| 0 <= j < i ==> #[trigger] out@[j].view() == self.sort@[j].view(),
            decreases self.sort@.len() - i,
        {
            let l = &self.sort[i];
            out.push(
                LangItem {
                    lang_id: l.lang_id,
                    lang: slice_to_vec(l.lang.as_slice(), 0, l.lang.len()),
                    code: slice_to_vec(l.code.as_slice(), 0, l.code.len()),
                    name: slice_to_vec(l.name.as_slice(), 0, l.name.len()),
                },
            );
            assert(l.lang@.subrange(0, l.lang@.len() as int) =~= l.lang@);
            assert(l.code@.subrange(0, l.code@.len() as int) =~= l.code@);
            assert(l.name@.subrange(0, l.name@.len() as int) =~= l.name@);
            i += 1;
        }
        assert(out@.map_values(|l: LangItem| l.view()) =~= self.sort@.map_values(|l: LangItem| l.view()));
        out
    }

    /// The enabled languages as a view value, with `lang_id` selected.
    pub fn get_lang_view(&self, lang_id: u8) -> (r: Data)
        ensures
            r.view() == Value::Langs(lang_id, self.sort@.map_values(|l: LangItem| l.view())),
    {
        let langs = self.clone_lang();
        let r = Data::VecLang(lang_id, langs);
        assert(r.view()->Langs_1 =~= self.sort@.map_values(|l: LangItem| l.view()));
        r
    }

    /// The id of the first enabled language with ISO code `code`.
    pub fn lang_id_of(&self, code: &[u8]) -> (r: Option<u8>)
        ensures
            r matches Some(id) ==> exists|j: int|
                0 <= j < self.sort@.len() && self.sort@[j].lang_id == id && self.sort@[j].lang@ == code@
                    && forall|k: int| 0 <= k < j ==> self.sort@[k].lang@ != code@,
            r is None ==> forall|j: int| 0 <= j < self.sort@.len() ==> self.sort@[j].lang@ != code@,
    {
        let mut i: usize = 0;
        while i < self.sort.len()
            invariant
                i <= self.sort@.len(),
                forall|j: int| 0 <= j < i ==> self.sort@[j].lang@ != code@,
            decreases self.sort@.len() - i,
        {
            if bytes_eq(self.sort[i].lang.as_slice(), code) {
                return Some(self.sort[i].lang_id);
            }
            i += 1;
        }
        None
    }

    /// The ISO code of an enabled language.
    pub fn get_code(&self, lang_id: u8) -> (r: Option<&Vec<u8>>)
        ensures
            r matches Some(c) ==> exists|j: int|
                0 <= j < self.sort@.len() && self.sort@[j].lang_id == lang_id && self.sort@[j].lang@ == c@,
            r is None ==> forall|j: int| 0 <= j < self.sort@.len() ==> self.sort@[j].lang_id != lang_id,
    {
        let mut i: usize = 0;
        while i < self.sort.len()
            invariant
                i <= self.sort@.len(),
                forall|j: int| 0 <= j < i ==> self.sort@[j].lang_id != lang_id,
            decreases self.sort@.len() - i,
        {
            if self.sort[i].lang_id == lang_id {
                return Some(&self.sort[i].lang);
            }
            i += 1;
        }
        None
    }

    /// Adds the properties of an INI text as translations of `lang_id` for
    /// `module` and `class`.
    pub fn load_text(&mut self, lang_id: u8, module: &[u8], class: &[u8], text: &str)
        ensures
            final(self).entries() == old(self).entries() + properties(ini_items(text@)).map_values(
                |p: (Seq<u8>, Seq<u8>)| (lang_id, module@, class@, p.0, p.1),
            ),
            final(self).sort == old(self).sort,
            final(self).load == old(self).load,
    {
        let pairs = ini_pairs(text);
        let ghost pv = pairs@.map_values(|p: (Vec<u8>, Vec<u8>)| (p.0@, p.1@));
        let ghost start = self.entries();
        let mut pairs = pairs;
        let mut i: usize = 0;
        let n = pairs.len();
        while pairs.len() > 0
            invariant
                i + pairs@.len() == n,
                n == pv.len(),
                forall|j: int| 0 <= j < pairs@.len() ==> (#[trigger] pairs@[j]).0@ == pv[i + j].0 && pairs@[j].1@ == pv[i + j].1,
                self.entries() == start + pv.take(i as int).map_values(
                    |p: (Seq<u8>, Seq<u8>)| (lang_id, module@, class@, p.0, p.1),
                ),
                self.sort == old(self).sort,
                self.load == old(self).load,
            decreases pairs@.len(),
        {
            let ghost before = pairs@;
            let (k, v) = pairs.remove(0);
            assert(before[0] == (k, v));
            assert forall|j: int| 0 <= j < pairs@.len() implies (#[trigger] pairs@[j]).0@ == pv[i + 1 + j].0 && pairs@[j].1@ == pv[i + 1 + j].1 by {
                assert(pairs@[j] == before[j + 1]);
            }
            let ghost e0 = self.entries();
            self.data.push((lang_id, slice_to_vec(module, 0, module.len()), slice_to_vec(class, 0, class.len()), k, v));
            proof {
                assert(module@.subrange(0, module@.len() as int) =~= module@);
                assert(class@.subrange(0, class@.len() as int) =~= class@);
                assert(self.entries() =~= e0.push((lang_id, module@, class@, pv[i as int].0, pv[i as int].1)));
                assert(pv.take(i + 1) =~= pv.take(i as int).push(pv[i as int]));
                assert(self.entries() =~= start + pv.take(i + 1).map_values(
                    |p: (Seq<u8>, Seq<u8>)| (lang_id, module@, class@, p.0, p.1),
                ));
            }
            i += 1;
        }
        assert(pv.take(n as int) =~= pv);
    }

    /// The translation of `key` for a language, module and class, with HTML
    /// entities; the key itself when there is none.
    pub fn lang(&self, lang_id: u8, module: &[u8], class: &[u8], key: &[u8]) -> (r: Vec<u8>)
        ensures
            r@ == match find_text(self.entries(), lang_id, module@, class@, key@) {
                Some(t) => html_escaped(t),
                None => key@,
            },
    {
        let ghost es = self.entries();
        let mut j = self.data.len();
        assert(es.take(j as int) =~= es);
        while j > 0
            invariant
                j <= self.data@.len(),
                es == self.entries(),
                find_text(es, lang_id, module@, class@, key@) == find_text(es.take(j as int), lang_id, module@, class@, key@),
            decreases j,
        {
            assert(es.take(j as int).drop_last() =~= es.take(j - 1));
            assert(es.take(j as int).last() == entry_view(self.data@[j - 1]));
            let e = &self.data[j - 1];
            if e.0 == lang_id && bytes_eq(e.1.as_slice(), module) && bytes_eq(e.2.as_slice(), class)
                && bytes_eq(e.3.as_slice(), key) {
                return htmlencode(e.4.as_slice());
            }
            j -= 1;
        }
        let r = slice_to_vec(key, 0, key.len());
        assert(key@.subrange(0, key@.len() as int) =~= key@);
        r
    }
}

/// Templates by module, class and view.
#[derive(Debug)]
pub struct Template {
    pub load: bool,
    pub tpls: Vec<(Vec<u8>, Vec<u8>, Vec<u8>, Vec<u8>)>,
}

impl Template {
    pub fn new() -> (r: Template)
        ensures
            !r.load,
            r.tpls@.len() == 0,
    {
        Template { load: false, tpls: Vec::new() }
    }

    /// The text of the last template added for a module, class and view.
    pub fn get(&self, module: &[u8], class: &[u8], view: &[u8]) -> (r: Option<&Vec<u8>>)
        ensures
            r matches Some(t) ==> exists|j: int|
                0 <= j < self.tpls@.len() && self.tpls@[j].0@ == module@ && self.tpls@[j].1@
                    == class@ && self.tpls@[j].2@ == view@ && self.tpls@[j].3@ == t@,
            r is None ==> forall|j: int|
                0 <= j < self.tpls@.len() ==> !(self.tpls@[j].0@ == module@ && self.tpls@[j].1@
                    == class@ && self.tpls@[j].2@ == view@),
    {
        let mut j = self.tpls.len();
        while j > 0
            invariant
                j <= self.tpls@.len(),
                forall|k: int|
                    j <= k < self.tpls@.len() ==> !(self.tpls@[k].0@ == module@ && self.tpls@[k].1@
                        == class@ && self.tpls@[k].2@ == view@),
            decreases j,
        {
            let t = &self.tpls[j - 1];
            if bytes_eq(t.0.as_slice(), module) && bytes_eq(t.1.as_slice(), class) && bytes_eq(t.2.as_slice(), view) {
                return Some(&t.3);
            }
            j -= 1;
        }
        None
    }
}

/// The middle of a file name `<pre><name><post>`, when it has that shape.
pub open spec fn file_part(file: Seq<u8>, pre: Seq<u8>, post: Seq<u8>) -> Option<Seq<u8>> {
    if pre.is_prefix_of(file) && file.len() >= pre.len() + post.len() && file.subrange(
        file.len() - post.len(),
        file.len() as int,
    ) == post {
        Some(file.subrange(pre.len() as int, file.len() - post.len()))
    } else {
        None
    }
}

fn middle(file: &[u8], pre: &str, post: &str) -> (r: Option<Vec<u8>>)
    requires
        pre.is_ascii(),
        post.is_ascii(),
    ensures
        match file_part(file@, ascii_bytes(pre@), ascii_bytes(post@)) {
            None => r.is_none(),
            Some(m) => r matches Some(x) && x@ == m,
        },
{
    let p = ascii(pre);
    let q = ascii(post);
    if starts_with(file, p.as_slice()) && file.len() >= p.len() && file.len() - p.len() >= q.len()
        && ends_with(file, q.as_slice()) {
        Some(slice_to_vec(file, p.len(), file.len() - q.len()))
    } else {
        None
    }
}

/// The view name of a template file `view_<name>.html`.
pub fn view_name(file: &[u8]) -> (r: Option<Vec<u8>>)
    ensures
        match file_part(file@, lit("view_"), lit(".html")) {
            None => r.is_none(),
            Some(m) => r matches Some(x) && x@ == m,
        },
{
    proof {
        reveal_strlit("view_");
        reveal_strlit(".html");
    }
    middle(file, "view_", ".html")
}

/// The language code of a translation file `lang_<code>.ini`.
pub fn lang_file_code(file: &[u8]) -> (r: Option<Vec<u8>>)
    ensures
        match file_part(file@, lit("lang_"), lit(".ini")) {
            None => r.is_none(),
            Some(m) => r matches Some(x) && x@ == m,
        },
{
    proof {
        reveal_strlit("lang_");
        reveal_strlit(".ini");
    }
    middle(file, "lang_", ".ini")
}

} // verus!
