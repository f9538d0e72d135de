// The parts of the library one by one: paths and configuration, the metadata
// of a record, gathering partials, the scope machine, and the runtime adapter.

use yarte::analysis::scan;
use yarte::ast::{Construct, Expr, LitKind, Local, Pat, Stmt};
use yarte::buffer::Buffer;
use yarte::config::{append_extension, extension_of, file_name_of, join, set_extension, sibling, Config};
use yarte::derive::{get_mime, mime_or_default};
use yarte::generator::{Generator, Writable};
use yarte::input::{EscapeMode, InputError, Lit, Meta, NestedMeta, Print, Source, TemplateInput};
use yarte::loader::{load, File, LoadErrorKind};
use yarte::lower::{lower_expr, lower_stmt, Op, Reason};
use yarte::machine::{validate, Machine, On};
use yarte::markup::{MarkupAsStr, SafeTypes, Template};
use yarte::text::{decimal, quote};

fn t(s: &str) -> Vec<u8> {
    s.as_bytes().to_vec()
}

fn files(paths: &[&str]) -> Vec<Vec<u8>> {
    paths.iter().map(|p| t(p)).collect()
}

const ROOT: &str = "/crate";

fn assert_eq_rooted(actual: &[u8], expected: &str) {
    let mut inner = t("/crate/templates/");
    inner.extend(t(expected));
    assert_eq!(actual, &inner[..]);
}

fn store() -> Vec<Vec<u8>> {
    files(&[
        "/crate/templates/a.html",
        "/crate/templates/sub/a.html",
        "/crate/templates/sub/c.html",
        "/crate/templates/sub/sub1/d.html",
    ])
}

#[test]
fn test_default_config() {
    let config = Config::new(ROOT.as_bytes(), None);
    assert_eq!(config.dirs, vec![t("/crate/templates")]);
}

#[test]
fn test_config_dirs() {
    let config = Config::new(ROOT.as_bytes(), Some(vec![t("tpl")]));
    assert_eq!(config.dirs, vec![t("/crate/tpl")]);
}

#[test]
fn find_absolute() {
    let config = Config::new(ROOT.as_bytes(), None);
    let root = config.find_template(b"a.html", None, &store()).unwrap();
    let path = config.find_template(b"sub/a.html", Some(&root), &store()).unwrap();
    assert_eq_rooted(&path, "sub/a.html");
}

#[test]
#[should_panic]
fn find_relative_nonexistent() {
    let config = Config::new(ROOT.as_bytes(), None);
    let root = config.find_template(b"a.html", None, &store()).unwrap();
    config.find_template(b"b.html", Some(&root), &store()).unwrap();
}

#[test]
fn find_relative() {
    let config = Config::new(ROOT.as_bytes(), None);
    let root = config.find_template(b"sub/a.html", None, &store()).unwrap();
    let path = config.find_template(b"c.html", Some(&root), &store()).unwrap();
    assert_eq_rooted(&path, "sub/c.html");
}

#[test]
fn find_relative_sub() {
    let config = Config::new(ROOT.as_bytes(), None);
    let root = config.find_template(b"sub/a.html", None, &store()).unwrap();
    let path = config.find_template(b"sub1/d.html", Some(&root), &store()).unwrap();
    assert_eq_rooted(&path, "sub/sub1/d.html");
}

#[test]
fn a_sibling_comes_before_the_directories() {
    let config = Config::new(ROOT.as_bytes(), Some(vec![t("one"), t("two")]));
    let all = files(&["/crate/two/p.html", "/crate/one/p.html", "/crate/one/deep/p.html"]);
    assert_eq!(config.find_template(b"p.html", None, &all).unwrap(), t("/crate/one/p.html"));
    assert_eq!(
        config.find_template(b"p.html", Some(b"/crate/one/deep/x.html"), &all).unwrap(),
        t("/crate/one/deep/p.html")
    );
    assert_eq!(
        config.find_template(b"p.html", Some(b"/crate/two/x.html"), &all).unwrap(),
        t("/crate/two/p.html")
    );
    assert_eq!(config.find_template(b"q.html", Some(b"/crate/two/x.html"), &all), None);
}

#[test]
fn paths_are_taken_apart_at_the_last_component() {
    assert_eq!(extension_of(b"a/b.html"), Some(t("html")));
    assert_eq!(extension_of(b"a.d/b"), None);
    assert_eq!(extension_of(b"a/.hidden"), None);
    assert_eq!(extension_of(b"a/b.tar.gz"), Some(t("gz")));
    assert_eq!(extension_of(b""), None);
    assert_eq!(sibling(b"a/b.html", b"c.html"), t("a/c.html"));
    assert_eq!(sibling(b"b.html", b"c.html"), t("c.html"));
    assert_eq!(join(b"a", b"b"), t("a/b"));
    assert_eq!(join(b"a/", b"b"), t("a/b"));
    assert_eq!(join(b"", b"b"), t("b"));
    assert_eq!(join(b"a", b"/b"), t("/b"));
}

#[test]
fn a_partial_takes_the_extension_of_its_parent() {
    assert_eq!(append_extension(b"templates/a.html", b"b"), t("b.html"));
    assert_eq!(append_extension(b"templates/a.html", b"b.txt"), t("b.txt"));
    assert_eq!(append_extension(b"templates/a", b"b"), t("b"));
    assert_eq!(append_extension(b"a.hbs", b"dir/b"), t("dir/b.hbs"));
}

#[test]
fn giving_the_extension_twice_is_giving_it_once() {
    let cases: Vec<(&str, &str)> = vec![
        ("a.h", "a/"),
        ("a.h", "b"),
        ("a.h", "b.txt"),
        ("a.h", ""),
        ("a.h", ".."),
        ("a.h", "x/.."),
        ("a.h", "x/."),
        ("a.h", "/"),
        ("a.h", ".hidden"),
        ("a.", "b/"),
        ("a", "b"),
        ("dir.d/a.html", "sub/b"),
    ];
    for (parent, name) in cases {
        let once = append_extension(parent.as_bytes(), name.as_bytes());
        let twice = append_extension(parent.as_bytes(), &once);
        assert_eq!(once, twice, "{} {}", parent, name);
    }
    assert_eq!(append_extension(b"a.h", b"a/"), t("a.h"));
    assert_eq!(append_extension(b"a.h", b"x/."), t("x.h"));
    assert_eq!(append_extension(b"a.h", b".."), t(".."));
    assert_eq!(append_extension(b"a.", b"b/"), t("b"));
}

#[test]
fn the_file_name_is_the_last_component_that_names_something() {
    assert_eq!(file_name_of(b"a/b.html"), Some((2, 8)));
    assert_eq!(file_name_of(b"a/b/"), Some((2, 3)));
    assert_eq!(file_name_of(b"a/b/."), Some((2, 3)));
    assert_eq!(file_name_of(b"a//"), Some((0, 1)));
    assert_eq!(file_name_of(b"a/.."), None);
    assert_eq!(file_name_of(b".."), None);
    assert_eq!(file_name_of(b"."), None);
    assert_eq!(file_name_of(b"/"), None);
    assert_eq!(file_name_of(b""), None);
    assert_eq!(extension_of(b"a/b.html/"), Some(t("html")));
    assert_eq!(extension_of(b"a/b."), Some(t("")));
    assert_eq!(extension_of(b"a.b/.."), None);
    assert_eq!(set_extension(b"a/b.html", b"txt"), t("a/b.txt"));
    assert_eq!(set_extension(b"a/b.html", b""), t("a/b"));
    assert_eq!(set_extension(b"a/b/", b"txt"), t("a/b.txt"));
    assert_eq!(set_extension(b"/", b"txt"), t("/"));
    assert_eq!(sibling(b"a/b/", b"c"), t("a/c"));
    assert_eq!(sibling(b"a/..", b"c"), t("a/../c"));
    assert_eq!(sibling(b"", b"c"), t("c"));
    assert_eq!(sibling(b"a/b", b"/c"), t("/c"));
    assert_eq!(sibling(b"a//b", b"c"), t("a/c"));
    assert_eq!(sibling(b"a/./b", b"c"), t("a/c"));
    assert_eq!(sibling(b"/b", b"c"), t("/c"));
    assert_eq!(sibling(b"//b", b"c"), t("/c"));
    assert_eq!(sibling(b"./b", b"c"), t("./c"));
    assert_eq!(sibling(b"a/b", b""), t("a/"));
}

fn pair(key: &str, value: Lit) -> NestedMeta {
    NestedMeta::Meta(Meta::NameValue(t(key), value))
}

fn text(s: &str) -> Lit {
    Lit::Str(t(s))
}

fn template(items: Vec<NestedMeta>) -> Vec<Option<Meta>> {
    vec![
        Some(Meta::List(t("derive"), vec![NestedMeta::Meta(Meta::Word(t("Template")))])),
        Some(Meta::List(t("template"), items)),
    ]
}

fn input(items: Vec<NestedMeta>) -> Result<TemplateInput, InputError> {
    let config = Config::new(ROOT.as_bytes(), None);
    TemplateInput::new(&t("Test"), &template(items), &config, &store())
}

#[test]
#[should_panic]
fn visit_derive_test_panic() {
    input(vec![pair("path", text("no-exist.html"))]).unwrap();
}

#[test]
fn visit_derive_test() {
    let s = input(vec![pair("source", text("")), pair("ext", text("txt")), pair("print", text("code"))])
        .unwrap();
    assert_eq!(s.source, Source::Source(t("")));
    assert_eq!(s.path, t("Test.txt"));
    assert_eq!(s.print, Print::Code);
    assert_eq!(s.escaping, EscapeMode::Off);
}

#[test]
fn a_path_is_found_and_decides_over_escaping() {
    let s = input(vec![pair("path", text("sub/c.html"))]).unwrap();
    assert_eq!(s.source, Source::Path(t("sub/c.html")));
    assert_eq!(s.path, t("/crate/templates/sub/c.html"));
    assert_eq!(s.print, Print::Off);
    assert_eq!(s.escaping, EscapeMode::Html);
    assert_eq!(s.ext, None);
}

#[test]
fn escaping_follows_assured_then_escape_then_the_extension() {
    let with = |items: Vec<NestedMeta>| {
        let mut all = vec![pair("source", text("x")), pair("ext", text("hbs"))];
        all.extend(items);
        input(all).unwrap().escaping
    };
    assert_eq!(with(vec![]), EscapeMode::Html);
    assert_eq!(with(vec![pair("escape", text("none"))]), EscapeMode::Off);
    assert_eq!(with(vec![pair("assured", Lit::Bool(true))]), EscapeMode::Off);
    assert_eq!(
        with(vec![pair("assured", Lit::Bool(false)), pair("escape", text("none"))]),
        EscapeMode::Html
    );
    for ext in ["html", "htm", "xml", "hbs", "handlebars", "mustache"] {
        assert_eq!(EscapeMode::from_path(&t(&format!("a.{}", ext))), EscapeMode::Html);
    }
    assert_eq!(EscapeMode::from_path(&t("a.txt")), EscapeMode::Off);
    assert_eq!(EscapeMode::from_path(&t("html")), EscapeMode::Off);
}

#[test]
fn print_and_escape_have_their_names() {
    assert_eq!(Print::parse(&t("all")), Some(Print::All));
    assert_eq!(Print::parse(&t("ast")), Some(Print::Ast));
    assert_eq!(Print::parse(&t("code")), Some(Print::Code));
    assert_eq!(Print::parse(&t("none")), Some(Print::Off));
    assert_eq!(Print::parse(&t("some")), None);
    assert_eq!(EscapeMode::parse(&t("html")), Some(EscapeMode::Html));
    assert_eq!(EscapeMode::parse(&t("none")), Some(EscapeMode::Off));
    assert_eq!(EscapeMode::parse(&t("HTML")), None);
}

#[test]
fn metadata_is_refused_for_each_reason() {
    let config = Config::new(ROOT.as_bytes(), None);
    let new = |attrs: Vec<Option<Meta>>| {
        TemplateInput::new(&t("Test"), &attrs, &config, &store()).unwrap_err()
    };
    assert_eq!(new(vec![None]), InputError::Uninterpretable);
    assert_eq!(new(vec![]), InputError::NoTemplateAttribute);
    assert_eq!(new(vec![Some(Meta::Word(t("template")))]), InputError::NotAList);
    let e = |items: Vec<NestedMeta>| input(items).unwrap_err();
    assert_eq!(e(vec![pair("path", Lit::Bool(true))]), InputError::PathNotString);
    assert_eq!(e(vec![pair("source", Lit::Other)]), InputError::SourceNotString);
    assert_eq!(
        e(vec![pair("path", text("a.html")), pair("source", text("x"))]),
        InputError::BothSourceAndPath
    );
    assert_eq!(e(vec![pair("print", Lit::Bool(true))]), InputError::PrintNotString);
    assert_eq!(e(vec![pair("print", text("loud"))]), InputError::InvalidPrint);
    assert_eq!(e(vec![pair("escape", Lit::Bool(true))]), InputError::EscapeNotString);
    assert_eq!(e(vec![pair("escape", text("xml"))]), InputError::InvalidEscape);
    assert_eq!(e(vec![pair("ext", Lit::Bool(true))]), InputError::ExtNotString);
    assert_eq!(e(vec![pair("assured", text("true"))]), InputError::AssuredNotBool);
    assert_eq!(e(vec![pair("theme", text("dark"))]), InputError::UnsupportedKey);
    assert_eq!(e(vec![pair("print", text("all"))]), InputError::MissingSource);
    assert_eq!(
        e(vec![pair("path", text("a.html")), pair("ext", text("txt"))]),
        InputError::ExtWithPath
    );
    assert_eq!(e(vec![pair("source", text("x"))]), InputError::SourceWithoutExt);
    assert_eq!(e(vec![pair("path", text("b.html"))]), InputError::TemplateNotFound);
}

#[test]
fn only_pairs_count_in_the_template_list() {
    let s = input(vec![
        NestedMeta::Literal(text("stray")),
        NestedMeta::Meta(Meta::Word(t("flag"))),
        pair("source", text("x")),
        pair("ext", text("txt")),
    ])
    .unwrap();
    assert_eq!(s.path, t("Test.txt"));
}

fn file(path: &str, text: &str) -> File {
    File { path: t(path), text: t(text) }
}

#[test]
fn partials_are_gathered_once_and_the_root_first() {
    let config = Config::new(ROOT.as_bytes(), None);
    let all = vec![
        file("/crate/templates/a.html", "{{> b }}{{> sub/c }} \n"),
        file("/crate/templates/b.html", "B{{> sub/c }}"),
        file("/crate/templates/sub/c.html", "C\n"),
        file("/crate/templates/unused.html", "{{> nowhere }}"),
    ];
    let loaded = load(&config, &all, file("/crate/templates/a.html", "{{> b }}{{> sub/c }}")).unwrap();
    assert_eq!(
        loaded,
        vec![
            file("/crate/templates/a.html", "{{> b }}{{> sub/c }}"),
            file("/crate/templates/b.html", "B{{> sub/c }}"),
            file("/crate/templates/sub/c.html", "C\n"),
        ]
    );
}

#[test]
fn a_template_given_as_text_finds_its_partials_in_the_directories() {
    let config = Config::new(ROOT.as_bytes(), None);
    let all = vec![file("/crate/templates/b.txt", "B")];
    let loaded = load(&config, &all, file("Test.txt", "{{> b }}")).unwrap();
    assert_eq!(loaded, vec![file("Test.txt", "{{> b }}"), file("/crate/templates/b.txt", "B")]);
}

#[test]
fn a_circle_of_partials_is_refused() {
    let config = Config::new(ROOT.as_bytes(), None);
    let all = vec![
        file("/crate/templates/a.html", "{{> b }}"),
        file("/crate/templates/b.html", "{{> c }}"),
        file("/crate/templates/c.html", "{{> a }}"),
    ];
    let e = load(&config, &all, file("/crate/templates/a.html", "{{> b }}")).unwrap_err();
    assert_eq!(e.kind, LoadErrorKind::Circular);
    assert_eq!(e.from, t("/crate/templates/c.html"));
    assert_eq!(e.name, t("a"));
    let e = load(&config, &all[..1].to_vec_files(), file("/crate/templates/a.html", "{{> a }}"))
        .unwrap_err();
    assert_eq!(e.kind, LoadErrorKind::Circular);
}

trait ToFiles {
    fn to_vec_files(&self) -> Vec<File>;
}

impl ToFiles for [File] {
    fn to_vec_files(&self) -> Vec<File> {
        self.iter().map(|f| File { path: f.path.clone(), text: f.text.clone() }).collect()
    }
}

#[test]
fn a_partial_that_is_nowhere_is_reported() {
    let config = Config::new(ROOT.as_bytes(), None);
    let all = vec![file("/crate/templates/a.html", "{{> b }}")];
    let e = load(&config, &all, file("/crate/templates/a.html", "x{{> b }}")).unwrap_err();
    assert_eq!(e.kind, LoadErrorKind::TemplateNotFound);
    assert_eq!(e.from, t("/crate/templates/a.html"));
    assert_eq!(e.name, t("b"));
}

fn render(m: MarkupAsStr) -> String {
    String::from_utf8(m.render()).unwrap()
}

#[test]
fn test_escape_adapter() {
    assert_eq!(render(MarkupAsStr::from("<>&\"'/")), "&lt;&gt;&amp;&quot;&#x27;&#x2f;");
    assert_eq!(render(MarkupAsStr::from("Iñtërnâtiônàlizætiøn")), "Iñtërnâtiônàlizætiøn");
    assert_eq!(render(MarkupAsStr::from("a<b")), "a&lt;b");
    assert_eq!(render(MarkupAsStr::from("")), "");
    let s = String::from("1 < 2");
    assert_eq!(render(MarkupAsStr::from(&s)), "1 &lt; 2");
}

#[test]
fn numbers_and_booleans_are_written_as_they_are() {
    assert_eq!(render(MarkupAsStr::from(&0usize)), "0");
    assert_eq!(render(MarkupAsStr::from(&42i64)), "42");
    assert_eq!(render(MarkupAsStr::from(&-7i8)), "-7");
    assert_eq!(render(MarkupAsStr::from(&i64::MIN)), "-9223372036854775808");
    assert_eq!(render(MarkupAsStr::from(&u64::MAX)), "18446744073709551615");
    assert_eq!(render(MarkupAsStr::from(&255u8)), "255");
    assert_eq!(render(MarkupAsStr::from(&65535u16)), "65535");
    assert_eq!(render(MarkupAsStr::from(&7u32)), "7");
    assert_eq!(render(MarkupAsStr::from(&-1isize)), "-1");
    assert_eq!(render(MarkupAsStr::from(&-300i16)), "-300");
    assert_eq!(render(MarkupAsStr::from(&100000i32)), "100000");
    assert_eq!(render(MarkupAsStr::from(&true)), "true");
    assert_eq!(render(MarkupAsStr::from(&false)), "false");
    let mut out = t("n=");
    SafeTypes::U8(&9).fmt(&mut out);
    assert_eq!(out, t("n=9"));
}

#[test]
fn mime_follows_the_extension() {
    assert_eq!(get_mime(&t("a/simple.html")), t("text/html"));
    assert_eq!(get_mime(&t("Test.txt")), t("text/plain"));
    assert_eq!(get_mime(&t("no_extension")), t("text/plain"));
    assert_eq!(get_mime(&t("a.no-such-extension")), t("text/plain"));
    assert_eq!(mime_or_default(None), t("text/plain"));
    assert_eq!(mime_or_default(Some(t("image/png"))), t("image/png"));
}

#[test]
fn numbers_and_literals_in_generated_code() {
    assert_eq!(decimal(0), t("0"));
    assert_eq!(decimal(9), t("9"));
    assert_eq!(decimal(10), t("10"));
    assert_eq!(decimal(12345), t("12345"));
    let mut q = Vec::new();
    quote(&mut q, b"a\"b\\c\nd\re\tf{}");
    assert_eq!(q, t("\"a\\\"b\\\\c\\nd\\re\\tf{}\""));
    let mut q = t("x");
    quote(&mut q, b"");
    assert_eq!(q, t("x\"\""));
}

#[test]
fn lines_are_indented_by_their_braces() {
    let mut b = Buffer::new(0);
    b.writeln(b"fn f() {");
    b.writeln(b"if a {");
    b.writeln(b"x;");
    b.writeln(b"  } else {");
    b.writeln(b"y;");
    b.writeln(b"}");
    b.writeln(b"");
    b.writeln(b"}");
    b.writeln(b"}");
    assert_eq!(
        String::from_utf8(b.buf).unwrap(),
        "fn f() {\n    if a {\n        x;\n    } else {\n        y;\n    }\n\n}\n}\n"
    );
    let mut b = Buffer::new(2);
    b.write(b"a");
    b.write(b"b");
    b.indent();
    b.dedent();
    b.dedent();
    b.writeln(b"c");
    b.writeln(b"d");
    assert_eq!(String::from_utf8(b.buf).unwrap(), "        abc\n    d\n");
}

fn path(id: &str) -> Expr {
    Expr::Path { qself: false, segments: vec![t(id)], text: t(id) }
}

fn write(m: &mut Machine, on: &Vec<On>, e: &Expr) -> Result<String, Reason> {
    let mut ops = Vec::new();
    lower_expr(e, &mut ops);
    validate(&ops)?;
    m.run(on, &ops)?;
    Ok(String::from_utf8(m.take()).unwrap())
}

#[test]
fn bare_names_are_rewritten_against_scopes_and_frames() {
    let mut m = Machine::new(t("self"));
    let top: Vec<On> = vec![];
    assert_eq!(write(&mut m, &top, &path("name")).unwrap(), "self.name");
    assert_eq!(write(&mut m, &top, &path("self")).unwrap(), "self");
    assert_eq!(write(&mut m, &top, &path("MAX_LEN")).unwrap(), "MAX_LEN");
    assert_eq!(write(&mut m, &top, &path("index")).unwrap(), "self.index");
    m.open(vec![t("local")]);
    assert_eq!(write(&mut m, &top, &path("local")).unwrap(), "local");
    assert_eq!(write(&mut m, &top, &path("other")).unwrap(), "self.other");
    m.close();
    assert_eq!(write(&mut m, &top, &path("local")).unwrap(), "self.local");
}

#[test]
fn inside_each_the_index_is_one_counter() {
    let mut m = Machine::new(t("self"));
    m.open(vec![t("_key_1"), t("_index_1")]);
    let on = vec![On::Each(1)];
    m.wrapped = false;
    assert_eq!(write(&mut m, &on, &path("key")).unwrap(), "_key_1");
    assert!(!m.wrapped);
    assert_eq!(write(&mut m, &on, &path("index0")).unwrap(), "_index_1");
    assert!(m.wrapped);
    assert_eq!(write(&mut m, &on, &path("index")).unwrap(), "(_index_1 + 1)");
    assert_eq!(write(&mut m, &on, &path("first")).unwrap(), "(_index_1 == 0)");
    assert_eq!(
        write(&mut m, &on, &path("last")).unwrap(),
        "((_key_1).len() == (_index_1 + 1))"
    );
    assert_eq!(write(&mut m, &on, &path("field")).unwrap(), "_key_1.field");
    m.open(vec![t("self.inner")]);
    let on = vec![On::Each(1), On::With(2)];
    assert_eq!(write(&mut m, &on, &path("field")).unwrap(), "self.inner.field");
    assert_eq!(write(&mut m, &on, &path("index")).unwrap(), "(_index_1 + 1)");
}

fn up(n: usize, id: &str) -> Expr {
    let mut segments = vec![t("super"); n];
    segments.push(t(id));
    Expr::Path { qself: false, segments, text: t("unused") }
}

#[test]
fn super_climbs_the_context_frames() {
    let mut m = Machine::new(t("self"));
    m.open(vec![t("_key_1"), t("_index_1")]);
    m.open(vec![t("_key_1.deep")]);
    let on = vec![On::Each(1), On::With(2)];
    assert_eq!(write(&mut m, &on, &up(1, "a")).unwrap(), "_key_1.a");
    assert_eq!(write(&mut m, &on, &up(1, "index")).unwrap(), "(_index_1 + 1)");
    assert_eq!(write(&mut m, &on, &up(2, "a")).unwrap(), "self.a");
    assert_eq!(write(&mut m, &on, &up(3, "a")), Err(Reason::SuperWithoutParent));
    assert_eq!(write(&mut m, &vec![], &up(1, "a")), Err(Reason::SuperAtTop));
    let other = Expr::Path { qself: false, segments: vec![t("a"), t("B")], text: t("a :: B") };
    assert_eq!(write(&mut m, &on, &other).unwrap(), "a :: B");
}

#[test]
fn a_frame_that_is_not_there_is_reported() {
    let mut m = Machine::new(t("self"));
    assert_eq!(write(&mut m, &vec![On::With(3)], &path("a")), Err(Reason::MissingFrame));
    let mut m = Machine::new(t("self"));
    m.open(vec![t("_key_1")]);
    assert_eq!(write(&mut m, &vec![On::Each(1)], &path("index")), Err(Reason::MissingFrame));
    assert_eq!(write(&mut m, &vec![On::Each(1)], &path("key")).unwrap(), "_key_1");
}

#[test]
fn what_templates_do_not_admit_is_refused() {
    let mut m = Machine::new(t("self"));
    let top: Vec<On> = vec![];
    let cases = vec![
        (Construct::Async, Reason::Async),
        (Construct::InPlace, Reason::InPlace),
        (Construct::TryBlock, Reason::TryBlock),
        (Construct::Yield, Reason::Yield),
        (Construct::Verbatim, Reason::Verbatim),
    ];
    for (c, r) in cases {
        let e = Expr::Paren(Box::new(Expr::Rejected(c)));
        assert_eq!(write(&mut m, &top, &e), Err(r));
    }
    let a = Expr::Attributed(Box::new(path("a")));
    assert_eq!(write(&mut m, &top, &a), Err(Reason::Attribute));
    let q = Expr::Path { qself: true, segments: vec![t("a")], text: t("a") };
    assert_eq!(write(&mut m, &top, &q), Err(Reason::QSelf));
}

#[test]
fn literals_mark_where_they_may() {
    let one = || Expr::Lit { kind: LitKind::Int, text: t("1") };
    let s = || Expr::Lit { kind: LitKind::Str, text: t("\"a\"") };
    let top: Vec<On> = vec![];
    let mut m = Machine::new(t("self"));
    m.wrapped = false;
    assert_eq!(write(&mut m, &top, &s()).unwrap(), "\"a\"");
    assert!(!m.wrapped);
    let tuple = Expr::Tuple(yarte::ast::List { items: vec![one(), s()], trailing: false });
    assert_eq!(write(&mut m, &top, &tuple).unwrap(), "(1,\"a\")");
    assert!(!m.wrapped);
    assert!(m.will_wrap);
    let sum = Expr::Binary { left: Box::new(one()), op: t("+"), right: Box::new(path("n")) };
    assert_eq!(write(&mut m, &top, &sum).unwrap(), "1 + self.n");
    assert!(m.wrapped);
}

#[test]
fn a_lowered_fragment_names_the_index_or_not() {
    let ops = |e: &Expr| {
        let mut ops: Vec<Op> = Vec::new();
        lower_expr(e, &mut ops);
        ops
    };
    for id in ["index", "index0", "first", "last", "_index_1", "_index_23x"] {
        assert!(scan(&ops(&path(id))), "{}", id);
    }
    for id in ["key", "indexes", "_index_", "_index_x", "_key_1", "name"] {
        assert!(!scan(&ops(&path(id))), "{}", id);
    }
    let call = Expr::MethodCall {
        receiver: Box::new(path("items")),
        method: t("get"),
        args: yarte::ast::List { items: vec![path("index0")], trailing: false },
    };
    assert!(scan(&ops(&call)));
}

struct Hello<'a> {
    name: &'a str,
    count: usize,
}

impl<'a> Template for Hello<'a> {
    fn render_into(&self, sink: &mut Vec<u8>) {
        sink.extend_from_slice(b"Hello, ");
        MarkupAsStr::from(self.name).fmt(sink);
        sink.extend_from_slice(b" x");
        MarkupAsStr::from(&self.count).fmt(sink);
    }

    fn mime() -> &'static str {
        "text/html"
    }

    fn size_hint() -> usize {
        9
    }
}

#[test]
fn render_gives_what_render_into_writes() {
    let h = Hello { name: "<world>", count: 2 };
    assert_eq!(h.render(), t("Hello, &lt;world&gt; x2"));
    let mut sink = t("> ");
    h.render_into(&mut sink);
    assert_eq!(sink, t("> Hello, &lt;world&gt; x2"));
    assert_eq!(Hello::mime(), "text/html");
    assert_eq!(Hello::size_hint(), 9);
}

fn written(g: &Generator) -> String {
    String::from_utf8(g.out.buf.clone()).unwrap()
}

#[test]
fn pending_literals_alone_are_one_statement() {
    let mut g = Generator::new(t("T.txt"));
    g.write_buf_writable(true);
    assert_eq!(written(&g), "");

    g.buf_w.push(Writable::Lit(t("")));
    g.write_buf_writable(true);
    assert_eq!(written(&g), "_fmt.write_str(\"\")?;\n");
    assert!(g.buf_w.is_empty());
    assert_eq!(g.size_hint, 0);

    let mut g = Generator::new(t("T.txt"));
    g.buf_w.push(Writable::Lit(t("a ")));
    g.buf_w.push(Writable::Lit(t("")));
    g.buf_w.push(Writable::Lit(t("\"b\"")));
    g.write_buf_writable(false);
    assert_eq!(written(&g), "_fmt.write_str(\"a \\\"b\\\"\")?;\n");
    assert_eq!(g.size_hint, 5);
}

#[test]
fn between_expressions_only_text_is_written() {
    let mut g = Generator::new(t("T.html"));
    g.buf_w.push(Writable::Lit(t("")));
    g.buf_w.push(Writable::Expr(t("self.a"), false));
    g.buf_w.push(Writable::Expr(t("self.b"), true));
    g.buf_w.push(Writable::Lit(t("x")));
    g.buf_w.push(Writable::Lit(t("y")));
    g.buf_w.push(Writable::Expr(t("1"), false));
    g.buf_w.push(Writable::Lit(t("")));
    g.write_buf_writable(true);
    assert_eq!(
        written(&g),
        "(::yarte::MarkupAsStr::from(&self.a)).fmt(_fmt)?;\n(self.b).fmt(_fmt)?;\n_fmt.write_str(\"xy\")?;\n(::yarte::MarkupAsStr::from(&1)).fmt(_fmt)?;\n"
    );
    assert_eq!(g.size_hint, 2);
    let mut g = Generator::new(t("T.txt"));
    g.buf_w.push(Writable::Expr(t("self.a"), false));
    g.write_buf_writable(false);
    assert_eq!(written(&g), "(self.a).fmt(_fmt)?;\n");
}

#[test]
fn a_leading_dash_drops_the_kept_whitespace() {
    let mut g = Generator::new(t("T.txt"));
    g.buf_w.push(Writable::Lit(t("a")));
    g.next_ws = Some(t(" \n"));
    g.flush_ws(&(true, false));
    assert_eq!(g.buf_w, vec![Writable::Lit(t("a"))]);
    assert_eq!(g.next_ws, None);
    assert!(!g.skip_ws);

    g.next_ws = Some(t(" \n"));
    g.flush_ws(&(false, true));
    assert_eq!(g.buf_w, vec![Writable::Lit(t("a")), Writable::Lit(t(" \n"))]);
    assert_eq!(g.next_ws, None);
    assert!(!g.skip_ws);
}

#[test]
fn a_literal_keeps_its_fringes_unless_told_otherwise() {
    let mut g = Generator::new(t("T.txt"));
    g.visit_lit(&t(" "), &t("b"), &t("\t"));
    assert_eq!(g.buf_w, vec![Writable::Lit(t(" ")), Writable::Lit(t("b"))]);
    assert_eq!(g.next_ws, Some(t("\t")));

    let mut g = Generator::new(t("T.txt"));
    g.skip_ws = true;
    g.visit_lit(&t(" "), &t("b"), &t("\t"));
    assert_eq!(g.buf_w, vec![Writable::Lit(t("b"))]);
    assert_eq!(g.next_ws, Some(t("\t")));
    assert!(!g.skip_ws);

    let mut g = Generator::new(t("T.txt"));
    g.skip_ws = true;
    g.visit_lit(&t(" "), &t(""), &t(""));
    assert!(g.buf_w.is_empty());
    assert_eq!(g.next_ws, None);
    assert!(!g.skip_ws);

    let mut g = Generator::new(t("T.txt"));
    g.visit_lit(&t(" \n"), &t(""), &t(""));
    assert!(g.buf_w.is_empty());
    assert_eq!(g.next_ws, Some(t(" \n")));
}

#[test]
fn a_closing_line_at_the_margin_stays_at_the_margin() {
    let mut b = Buffer::new(0);
    b.dedent();
    assert_eq!(b.indent, 0);
    b.writeln(b"}");
    b.writeln(b"x");
    assert_eq!(String::from_utf8(b.buf).unwrap(), "}\nx\n");
    let mut b = Buffer::new(3);
    b.dedent();
    assert_eq!(b.indent, 2);
}

fn binding(id: &str) -> Pat {
    Pat::Ident { prefix: t(""), name: t(id), subpat: false }
}

#[test]
fn a_let_binds_the_names_of_its_pattern_where_it_stands() {
    let mut m = Machine::new(t("self"));
    m.open(vec![t("x")]);
    let top: Vec<On> = vec![];
    let pattern = Pat::Tuple {
        front: vec![binding("a"), Pat::Wild],
        dots: t(""),
        back: vec![binding("b")],
    };
    let l = Stmt::Local(Local {
        attrs: false,
        pats: vec![pattern],
        ty: None,
        init: Some(path("a")),
    });
    let mut ops = Vec::new();
    lower_stmt(&l, &mut ops);
    validate(&ops).unwrap();
    m.run(&top, &ops).unwrap();
    let code = String::from_utf8(m.take()).unwrap();
    assert!(code.starts_with("let (a"));
    assert!(code.ends_with(" = self.a;"));
    assert_eq!(m.scp, vec![vec![t("self")], vec![t("x"), t("a"), t("b")]]);
    assert!(m.shelf.is_empty());
    assert!(m.flags.is_empty());
    assert_eq!(write(&mut m, &top, &path("a")).unwrap(), "a");
    assert_eq!(write(&mut m, &top, &path("b")).unwrap(), "b");
}
