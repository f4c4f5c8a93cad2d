use tryteex::config::Config;
use tryteex::sql::{access_query, redirect_query, route_query, session_query, session_save, setting_query, timezone_query};
use tryteex::control::{control_answer, control_command, control_reply, is_stop};
use tryteex::cli::{args, AppAction, Help};
use tryteex::view::View;
use tryteex::controller::{find_controller, on_denied, setting_cached, store_setting, Answer, Controller};
use tryteex::data::{Data, LangItem};
use tryteex::i18n::{lang_file_code, view_name, I18n, Template};
use tryteex::log::LogApp;
use tryteex::request::{parse_cookie, parse_query, url_decode, Request};
use tryteex::response::Response;
use tryteex::route::{fallback_route, resolve, store_redirect, store_route, Resolution, RouteRow};
use tryteex::session::{access_conditions, access_key, check_access, make_key, session_key, store_access, AccessCheck, Session};
use tryteex::storage::Storage;
use tryteex::view::render_template;

fn b(s: &str) -> Vec<u8> {
    s.as_bytes().to_vec()
}

fn params(ps: &[(&str, &str)]) -> Vec<(Vec<u8>, Vec<u8>)> {
    ps.iter().map(|(k, v)| (b(k), b(v))).collect()
}

fn route_of(storage: &mut Storage, url: &[u8]) -> (Resolution, usize) {
    let mut queries = 0;
    loop {
        match resolve(storage, url) {
            Resolution::NeedRedirectRow => {
                queries += 1;
                store_redirect(storage, url, None);
            },
            Resolution::NeedRouteRow => {
                queries += 1;
                store_route(storage, url, &None);
            },
            r => return (r, queries),
        }
    }
}

#[test]
fn health_ping() {
    let ps = params(&[("REDIRECT_URL", "/"), ("REQUEST_METHOD", "GET"), ("REMOTE_ADDR", "10.0.0.1"), ("HTTP_HOST", "example.test"), ("REQUEST_SCHEME", "https")]);
    let req = Request::new(&ps, &Vec::new(), b"/srv/");
    assert_eq!(req.url, b("/"));
    assert_eq!(req.ip, b("10.0.0.1"));
    assert_eq!(req.site, b("https://example.test"));
    let mut cache = Storage::new();
    let (r, _) = route_of(&mut cache, &req.url);
    match r {
        Resolution::Route(t) => {
            assert_eq!((t.module, t.class, t.action), (b("index"), b("index"), b("index")));
        },
        other => panic!("{:?}", other),
    }
    let (key, fresh) = session_key(None, b"salt", &req.ip, &req.agent, &req.host, b"2024.01.01 00:00:00.000000000 +00:00");
    assert!(fresh);
    assert_eq!(key.len(), 128);
    assert!(key.iter().all(|c| c.is_ascii_hexdigit() && !c.is_ascii_uppercase()));
    let mut resp = Response::new();
    resp.set_cookie(b("tryteex"), key.clone(), 31622400);
    let out = resp.answer(&req.host, b"Thu, 01-Jan-2025 00:00:00 GMT", b"");
    let text = String::from_utf8(out).unwrap();
    assert!(text.starts_with("HTTP/1.1 200 OK\r\n"));
    assert!(text.contains(&format!("Set-Cookie: tryteex={}; Expires=", String::from_utf8(key).unwrap())));
    assert!(text.ends_with("Content-Length: 0\r\n\r\n"));
}

#[test]
fn redirect_rule() {
    let mut cache = Storage::new();
    assert!(matches!(resolve(&cache, b"/old"), Resolution::NeedRedirectRow));
    store_redirect(&mut cache, b"/old", Some((b("/new"), true)));
    for _ in 0..2 {
        match resolve(&cache, b"/old") {
            Resolution::Redirect(u, p) => {
                assert_eq!(u, b("/new"));
                assert!(p);
            },
            other => panic!("{:?}", other),
        }
    }
    let mut resp = Response::new();
    resp.set_redirect(b"/new", true);
    resp.set_cookie(b("tryteex"), b("k"), 1);
    let loc = resp.get_redirect().unwrap();
    assert_eq!(loc.url, b("/new"));
    assert!(loc.permanently);
    let text = String::from_utf8(resp.answer(b"h", b"E", b"")).unwrap();
    assert!(text.starts_with("HTTP/1.1 301 Moved Permanently\r\nLocation: /new\r\nSet-Cookie: tryteex=k; Expires=E; Max-Age=1; path=/; domain=h; Secure; SameSite=none\r\n"));
}

#[test]
fn unknown_url_resolves_the_same_twice() {
    let mut cache = Storage::new();
    let (first, q1) = route_of(&mut cache, b"/shop/item/view/12");
    let (second, q2) = route_of(&mut cache, b"/shop/item/view/12");
    assert_eq!(q1, 2);
    assert_eq!(q2, 0);
    match (first, second) {
        (Resolution::Route(a), Resolution::Route(b2)) => {
            assert_eq!(a.module, b("shop"));
            assert_eq!(a.class, b("item"));
            assert_eq!(a.action, b("view"));
            assert_eq!(a.params, b("12"));
            assert_eq!(a.lang_id, None);
            assert_eq!((a.module, a.class, a.action, a.params), (b2.module, b2.class, b2.action, b2.params));
        },
        other => panic!("{:?}", other),
    }
}

#[test]
fn route_rows_are_cached() {
    let mut cache = Storage::new();
    store_redirect(&mut cache, b"/about", None);
    let row = RouteRow { module: b("index"), class: b("page"), action: b("show"), params: b("about"), lang_id: 2 };
    store_route(&mut cache, b"/about", &Some(row));
    match resolve(&cache, b"/about") {
        Resolution::Route(t) => {
            assert_eq!(t.class, b("page"));
            assert_eq!(t.params, b("about"));
            assert_eq!(t.lang_id, Some(2));
        },
        other => panic!("{:?}", other),
    }
}

#[test]
fn fallback_route_defaults() {
    let t = fallback_route(b"/user");
    assert_eq!((t.module, t.class, t.action, t.params), (b("user"), b("index"), b("index"), b("index")));
    let t = fallback_route(b"/a/b/c/d/e");
    assert_eq!((t.module, t.class, t.action, t.params), (b("a"), b("b"), b("c"), b("d/e")));
}

#[test]
fn form_post() {
    let ps = params(&[("REDIRECT_URL", "/user/admin/index"), ("CONTENT_TYPE", "application/x-www-form-urlencoded")]);
    let req = Request::new(&ps, &b("email=a%40b.com&pass=x"), b"");
    assert_eq!(req.post, params(&[("email", "a@b.com"), ("pass", "x")]));
    let t = fallback_route(&req.url);
    assert_eq!(find_controller(&t.module, &t.class, &t.action), Some(Controller::UserAdminIndex));
}

#[test]
fn multipart_upload() {
    let mut body = Vec::new();
    body.extend_from_slice(b"--BDRY\r\nContent-Disposition: form-data; name=\"avatar\"; filename=\"me.png\"\r\nContent-Type: image/png\r\n\r\n");
    body.extend_from_slice(b"0123456789abcdefg");
    body.extend_from_slice(b"\r\n--BDRY\r\nContent-Disposition: form-data; name=\"note\"\r\n\r\nhi\r\n--BDRY--\r\n");
    let ps = params(&[("CONTENT_TYPE", "multipart/form-data; boundary=BDRY")]);
    let req = Request::new(&ps, &body, b"");
    assert_eq!(req.post, params(&[("note", "hi")]));
    assert_eq!(req.uploads.len(), 1);
    assert_eq!(req.uploads[0].name, b("avatar"));
    assert_eq!(req.uploads[0].filename, Some(b("me.png")));
    assert_eq!(req.uploads[0].data.len(), 17);
}

#[test]
fn access_denied() {
    let mut s = Session::new(b("k"), false);
    s.load(7, 42, Vec::new());
    let mut cache = Storage::new();
    assert_eq!(check_access(&s, &cache, b"admin", b"index", b"main"), AccessCheck::NeedRow);
    let key = access_key(42, b"admin", b"index", b"main");
    assert_eq!(key, b("auth:42:admin:index:main"));
    assert!(!store_access(&mut cache, key, Some(0)));
    assert_eq!(check_access(&s, &cache, b"admin", b"index", b"main"), AccessCheck::Deny);
    let (answer, to) = on_denied(false);
    assert!(matches!(answer, Answer::Empty));
    let mut resp = Response::new();
    resp.set_redirect(&to.unwrap(), false);
    let text = String::from_utf8(resp.answer(b"h", b"E", b"")).unwrap();
    assert!(text.starts_with("HTTP/1.1 302 Found\r\nLocation: /index/index/not_found\r\n"));
    s.set(b("system"), Data::Bool(true));
    assert_eq!(check_access(&s, &cache, b"admin", b"index", b"main"), AccessCheck::Allow);
    match on_denied(true).0 {
        Answer::String(t) => assert_eq!(t, b("not_found")),
        Answer::Empty => panic!(),
    }
}

#[test]
fn access_conditions_follow_hierarchy() {
    let w = String::from_utf8(access_conditions(b"admin", b"index", b"")).unwrap();
    assert_eq!(w, "(c.module='' AND c.class='' AND c.action='') OR (c.module='admin' AND c.class='' AND c.action='') OR (c.module='admin' AND c.class='index' AND c.action='')");
}

#[test]
fn query_and_cookie_parsing() {
    assert_eq!(parse_query(b"a=1&b&c=%41%4"), params(&[("a", "1"), ("b", ""), ("c", "A%4")]));
    assert_eq!(parse_query(b"x=%FF&y=2&%C3=1&z"), params(&[("y", "2"), ("z", "")]));
    assert_eq!(parse_cookie(b"tryteex=abc; x; y=1=2"), params(&[("tryteex", "abc"), ("y", "1=2")]));
    assert_eq!(url_decode(b"%2Fuser%20x+y"), b("/user x+y"));
    assert_eq!(url_decode(b"%FF"), b(""));
}

#[test]
fn session_cookie_kept_or_made() {
    let good = "0123456789abcdef".repeat(8);
    let (k, fresh) = session_key(Some(&b(&good)), b"s", b"i", b"a", b"h", b"t");
    assert!(!fresh);
    assert_eq!(k, b(&good));
    let other = "fedcba9876543210".repeat(8);
    let (k, fresh) = session_key(Some(&b(&other)), b"", b"", b"", b"", b"");
    assert!(!fresh);
    assert_eq!(k, b(&other));
    let bad = good.to_uppercase();
    let (k, fresh) = session_key(Some(&b(&bad)), b"", b"", b"", b"", b"");
    assert!(fresh);
    assert_eq!(String::from_utf8(k).unwrap(), "a69f73cca23a9ac5c8b567dc185a756e97c982164fe25859e0d1dcc1475c80a615b2123af1f5f94c11e3e9402c3ac558f500199d95b6d3e301758586281dcd26");
    assert_eq!(make_key(b"", b"", b"", b"", b"").len(), 128);
}

#[test]
fn language_choice() {
    let mut s = Session::new(b("k"), false);
    assert_eq!(s.set_lang_id(None), 0);
    assert!(s.is_changed());
    assert_eq!(s.get_lang_id(), Some(0));
    let mut s = Session::new(b("k"), false);
    s.load(1, 1, vec![(b("lang_id"), Data::I64(3))]);
    assert_eq!(s.set_lang_id(None), 3);
    assert!(!s.is_changed());
    assert_eq!(s.set_lang_id(Some(3)), 3);
    assert!(!s.is_changed());
    assert_eq!(s.set_lang_id(Some(1)), 1);
    assert!(s.is_changed());
    assert_eq!(s.get_lang_id(), Some(1));
}

#[test]
fn cache_last_write_wins_and_copies() {
    let mut c = Storage::new();
    c.set(b("k"), Data::String(b("v1")));
    c.set(b("k"), Data::String(b("v2")));
    match c.get(b"k") {
        Some(Data::String(v)) => assert_eq!(v, b("v2")),
        other => panic!("{:?}", other),
    }
    c.set(b("langs"), Data::Vec(vec![Data::VecLang(1, Vec::new()), Data::U8(2)]));
    match c.get(b"langs") {
        Some(Data::Vec(v)) => {
            assert!(matches!(v[0], Data::Null));
            assert!(matches!(v[1], Data::U8(2)));
        },
        other => panic!("{:?}", other),
    }
    c.set(b("route:/a"), Data::Null);
    c.set(b("route:/b"), Data::Null);
    c.del(b"route:");
    assert!(!c.is_key(b"route:/a"));
    assert!(!c.is_key(b"route:/b"));
    assert!(c.is_key(b"k"));
    c.clear();
    assert!(!c.is_key(b"k"));
}

#[test]
fn settings_are_cached() {
    let mut c = Storage::new();
    assert_eq!(setting_cached(&c, b"company"), None);
    store_setting(&mut c, b"company", b("ACME"));
    assert_eq!(setting_cached(&c, b"company"), Some(b("ACME")));
}

#[test]
fn template_substitution() {
    let data = vec![(b("title"), Data::String(b("Hi"))), (b("gone"), Data::Null), (b("n"), Data::U8(1))];
    let out = render_template(b"<h1><?=title?></h1><?=gone?><?=n?><?=missing?>", &data);
    assert_eq!(out, b("<h1>Hi</h1><?=n?><?=missing?>"));
}

#[test]
fn template_language_block() {
    let langs = vec![
        LangItem { lang_id: 0, lang: b("en"), code: b("en"), name: b("English") },
        LangItem { lang_id: 1, lang: b("ua"), code: b("uk"), name: b("<Ukr>") },
    ];
    let data = vec![(b("lang"), Data::VecLang(1, langs))];
    let out = render_template(b"[<?[lang?><o v=\"<?=lang.lang_id?>\" <?=lang.selected?>><?=lang.name?></o><?lang]?>]", &data);
    assert_eq!(out, b("[<o v=\"0\" >English</o><o v=\"1\" selected>&lt;Ukr&gt;</o>]"));
}

#[test]
fn translations_fall_back_to_key() {
    let mut i = I18n::new();
    i.load_text(0, b"index", b"index", "title = Hello & bye\nnokey\n");
    assert_eq!(i.lang(0, b"index", b"index", b"title"), b("Hello &amp; bye"));
    assert_eq!(i.lang(0, b"index", b"index", b"other"), b("other"));
    assert_eq!(i.lang(1, b"index", b"index", b"title"), b("title"));
    let t = Template::new();
    assert!(t.get(b"index", b"index", b"index").is_none());
    assert_eq!(view_name(b"view_index.html"), Some(b("index")));
    assert_eq!(view_name(b"view_.htm"), None);
    assert_eq!(lang_file_code(b"lang_en.ini"), Some(b("en")));
}

#[test]
fn status_and_error_texts() {
    assert_eq!(Response::get_code(301), b("301 Moved Permanently"));
    assert_eq!(Response::get_code(599), b("599 Unassigned"));
    assert_eq!(LogApp::get_error(101, b"0"), b("Error 101: Value \"max_connection\" must be > 0 in config file0"));
    assert_eq!(LogApp::get_error(9999, b"x"), b("Error 9999: Unknown error: x"));
    let mut l = LogApp::new();
    l.set(5, b("/tmp"));
    assert_eq!(l.pid(), 5);
    let mut r = Response::new();
    r.set_cookie(b("tryteex"), b("v"), 60);
    let text = String::from_utf8(r.answer_now(b"h", b"x")).unwrap();
    assert!(text.contains("Set-Cookie: tryteex=v; Expires="));
    assert!(text.contains(" GMT; Max-Age=60; path=/; domain=h;"));
}

#[test]
fn view_files_and_rendering() {
    let v = View::new(b("/srv/app/index/index/"));
    assert_eq!(v.file(b"head"), b("/srv/app/index/index/view_head.html"));
    assert!(matches!(v.out(None, &Vec::new()), Answer::Empty));
    match v.out(Some(b("<?=a?>")), &vec![(b("a"), Data::String(b("x")))]) {
        Answer::String(s) => assert_eq!(s, b("x")),
        Answer::Empty => panic!(),
    }
}

#[test]
fn command_line_actions() {
    assert_eq!(args(None), Ok(AppAction::Help));
    assert_eq!(args(Some(b"go")), Ok(AppAction::Go));
    assert_eq!(args(Some(b"stop")), Ok(AppAction::Stop));
    assert_eq!(args(Some(b"run")), Err(b("Error 200: Unknown command: run")));
    let h = String::from_utf8(Help::help(b"1.2")).unwrap();
    assert!(h.contains("tryteex version: 1.2\n"));
}

#[test]
fn control_protocol() {
    assert!(is_stop(b"123 stop"));
    assert!(is_stop(b"1 stop now"));
    assert!(!is_stop(b" stop"));
    assert!(!is_stop(b"1 start"));
    assert_eq!(control_command(b"7 ping x"), Some(b("ping")));
    assert_eq!(control_answer(4242, b"stop"), b("4242 stop ok:"));
    assert_eq!(control_reply(b"4242 stop ok:", b"stop"), Ok(None));
    assert_eq!(control_reply(b"4242 stop ok:done", b"stop"), Ok(Some(b("done"))));
    assert_eq!(control_reply(b"4242", b"stop"), Err(252));
    assert_eq!(control_reply(b" stop ok:", b"stop"), Err(254));
    assert_eq!(control_reply(b"1 stop", b"stop"), Err(257));
    assert_eq!(control_reply(b"1 go ok:", b"stop"), Err(259));
    assert_eq!(control_reply(b"1 stop no", b"stop"), Err(262));
}

#[test]
fn query_texts() {
    assert_eq!(String::from_utf8(redirect_query(b"/o'ld")).unwrap(), "SELECT redirect, permanently FROM redirect WHERE url='/o''ld'");
    assert_eq!(String::from_utf8(setting_query(b"company")).unwrap(), "SELECT data FROM setting WHERE key='company'");
    assert_eq!(String::from_utf8(setting_query(b"a\\b'c")).unwrap(), "SELECT data FROM setting WHERE key= E'a\\\\b''c'");
    assert!(String::from_utf8(access_query(-3, b"admin", b"", b"")).unwrap().contains("u.user_id=-3 AND ((c.module='' AND c.class='' AND c.action='') OR (c.module='admin' AND c.class='' AND c.action=''))"));
    assert_eq!(String::from_utf8(session_save(false, 1, b"{}", b"ip", b"ua", 9)).unwrap(), "UPDATE session SET last=now() WHERE session_id=9");
    assert_eq!(String::from_utf8(session_save(true, 1, b"{}", b"ip", b"ua", 9)).unwrap(), "UPDATE session SET user_id=1, data='{}', last=now(), ip='ip', user_agent='ua' WHERE session_id=9");
    assert!(String::from_utf8(session_query(b"k", b"i", b"a")).unwrap().ends_with("FROM session WHERE session='k'"));
    assert!(String::from_utf8(route_query(b"/x")).unwrap().contains("WHERE r.url='/x' AND"));
    assert_eq!(String::from_utf8(timezone_query(b"UTC")).unwrap(), "SET timezone TO 'UTC';");
}

#[test]
fn configuration_text() {
    let mut c = Config::defaults(b("/srv"), b("1.0"));
    assert_eq!(c.load("max_connection = 8\nsocket = 127.0.0.1:9000,127.0.0.1:9002\nsalt = pepper\n[db]\ndb_name = shop\n"), Ok(()));
    assert_eq!(c.max_connection, 8);
    assert_eq!(c.socket, vec![b("127.0.0.1:9000"), b("127.0.0.1:9002")]);
    assert_eq!(c.salt, b("pepper"));
    assert_eq!(c.db_name, b("shop"));
    assert_eq!(c.irc, 9001);
    let mut c = Config::defaults(b("/srv"), b("1.0"));
    assert_eq!(c.load("max_connection = 0\n"), Err(b("Error 101: Value \"max_connection\" must be > 0 in config file0")));
    let mut c = Config::defaults(b("/srv"), b("1.0"));
    assert_eq!(c.load("irc = x\n"), Err(b("Error 106: Unknown value \"app={}\" in config filex")));
    let mut c = Config::defaults(b("/srv"), b("1.0"));
    assert_eq!(c.load("dir = /x\n"), Err(b("Error 116: Value \"salt\" mustn't be empty in config file")));
}

#[test]
fn language_view_value() {
    let mut i = I18n::new();
    i.sort.push(LangItem { lang_id: 0, lang: b("en"), code: b("en"), name: b("English") });
    i.sort.push(LangItem { lang_id: 3, lang: b("ua"), code: b("uk"), name: b("Ukr") });
    match i.get_lang_view(3) {
        Data::VecLang(id, ls) => {
            assert_eq!(id, 3);
            assert_eq!(ls.len(), 2);
            assert_eq!(ls[1].code, b("uk"));
        },
        other => panic!("{:?}", other),
    }
    assert_eq!(i.get_code(3), Some(&b("ua")));
    assert_eq!(i.get_code(9), None);
    assert_eq!(i.lang_id_of(b"ua"), Some(3));
    assert_eq!(i.lang_id_of(b"fr"), None);
}

#[test]
fn undecodable_session_is_changed() {
    let mut s = Session::new(b("k"), false);
    s.load_undecodable(4, 2);
    assert!(s.is_changed());
    assert_eq!(s.session_id, 4);
    assert_eq!(s.user_id, 2);
    assert!(s.get(b"lang_id").is_none());
}
