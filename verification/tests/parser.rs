// The template parser on the texts it is meant for, and on those it refuses.

use yarte::bytes::trim;
use yarte::node::{Helper, Node, TextNode, Ws};
use yarte::parser::{eat_if, helper, if_else, parse, parse_bytes, parse_partials};
use yarte::syntax::{ErrorKind, ParseError, Step};

const WS: Ws = (false, false);

fn t(s: &str) -> Vec<u8> {
    s.as_bytes().to_vec()
}

fn lit(l: &str, b: &str, r: &str) -> TextNode {
    Node::Lit(t(l), t(b), t(r))
}

fn expr(ws: Ws, e: &str) -> TextNode {
    Node::Expr(ws, t(e))
}

fn safe(ws: Ws, e: &str) -> TextNode {
    Node::Safe(ws, t(e))
}

fn same_expr(text: &[u8], code: &str) -> bool {
    let a = syn::parse_str::<syn::Expr>(std::str::from_utf8(text).unwrap()).unwrap();
    let b = syn::parse_str::<syn::Expr>(code).unwrap();
    a == b
}

fn same_stmt(text: &[u8], code: &str) -> bool {
    let a = syn::parse_str::<syn::Stmt>(std::str::from_utf8(text).unwrap()).unwrap();
    let b = syn::parse_str::<syn::Stmt>(code).unwrap();
    a == b
}

#[test]
fn parser_test_empty() {
    let src = r#""#;
    assert_eq!(parse(src).unwrap(), vec![]);
    // A closing tag that closes nothing is no part of a template.
    let src = r#"{{/"#;
    assert_eq!(
        parse(src),
        Err(ParseError { kind: ErrorKind::UnexpectedClose, start: 3, end: 3 })
    );
}

#[test]
fn test_fallback() {
    let src = r#"{{"#;
    assert_eq!(parse(src).unwrap(), vec![lit("", "{{", "")]);
    let src = r#"{{{"#;
    assert_eq!(parse(src).unwrap(), vec![lit("", "{{{", "")]);
    let src = r#"{{#"#;
    assert_eq!(parse(src).unwrap(), vec![lit("", "{{#", "")]);
    let src = r#"{{>"#;
    assert_eq!(parse(src).unwrap(), vec![lit("", "{{>", "")]);
}

#[test]
fn test_eat_comment() {
    let src = r#"{{! Commentary !}}"#;
    assert_eq!(parse(src).unwrap(), vec![Node::Comment(t(" Commentary "))]);
    let src = r#"{{!-- Commentary --!}}"#;
    assert_eq!(parse(src).unwrap(), vec![Node::Comment(t(" Commentary "))]);
}

#[test]
fn test_eat_expr() {
    let src = r#"{{ var }}"#;
    assert_eq!(parse(src).unwrap(), vec![expr(WS, "var")]);

    let src = r#"{{ fun() }}"#;
    assert_eq!(parse(src).unwrap(), vec![expr(WS, "fun()")]);

    let src = r#"{{ fun(|a| a) }}"#;
    assert_eq!(parse(src).unwrap(), vec![expr(WS, "fun(|a| a)")]);

    let src = r#"{{
            fun(|a| {
                { a }
            })
        }}"#;
    let nodes = parse(src).unwrap();
    assert_eq!(nodes.len(), 1);
    match &nodes[0] {
        Node::Expr(ws, e) => {
            assert_eq!(*ws, WS);
            assert!(same_expr(e, "fun(|a| {{a}})"));
        }
        _ => panic!("no expression"),
    }
}

#[should_panic]
#[test]
fn test_eat_expr_panic_a() {
    let src = r#"{{ fn(|a| {{a}}) }}"#;
    parse(src).unwrap();
}

#[should_panic]
#[test]
fn test_eat_expr_panic_b() {
    let src = r#"{{ let a = mut a  }}"#;
    parse(src).unwrap();
}

#[test]
fn test_eat_safe() {
    let src = r#"{{{ var }}}"#;
    assert_eq!(parse(src).unwrap(), vec![safe(WS, "var")]);

    let src = r#"{{{ fun() }}}"#;
    assert_eq!(parse(src).unwrap(), vec![safe(WS, "fun()")]);

    let src = r#"{{{ fun(|a| a) }}}"#;
    assert_eq!(parse(src).unwrap(), vec![safe(WS, "fun(|a| a)")]);

    let src = r#"{{{
            fun(|a| {
                {{ a }}
            })
        }}}"#;
    let nodes = parse(src).unwrap();
    assert_eq!(nodes.len(), 1);
    match &nodes[0] {
        Node::Safe(ws, e) => {
            assert_eq!(*ws, WS);
            assert!(same_expr(e, "fun(|a| {{{a}}})"));
        }
        _ => panic!("no safe expression"),
    }
}

#[should_panic]
#[test]
fn test_eat_safe_panic() {
    let src = r#"{{ fn(|a| {{{a}}}) }}"#;
    assert_eq!(parse(src).unwrap(), vec![safe(WS, "fn(|a| {{{a}}})")]);
}

fn parts(i: &[u8]) -> (Vec<u8>, Vec<u8>, Vec<u8>) {
    let (l, b, r) = trim(i);
    (l.to_vec(), b.to_vec(), r.to_vec())
}

#[test]
fn test_trim() {
    assert_eq!(parts(b" a "), (t(" "), t("a"), t(" ")));
    assert_eq!(parts(b" a"), (t(" "), t("a"), t("")));
    assert_eq!(parts(b"a"), (t(""), t("a"), t("")));
    assert_eq!(parts(b""), (t(""), t(""), t("")));
    assert_eq!(parts(b"a "), (t(""), t("a"), t(" ")));
    assert_eq!(parts(b"a a"), (t(""), t("a a"), t("")));
    assert_eq!(parts(b"a a "), (t(""), t("a a"), t(" ")));
    assert_eq!(parts(b" \n\t\ra a "), (t(" \n\t\r"), t("a a"), t(" ")));
    assert_eq!(parts(b" \n\t\r "), (t(" \n\t\r "), t(""), t("")));
}

#[test]
fn test_eat_if() {
    let src = br#"foo{{ else }}"#;
    let (rest, nodes) = eat_if(src, 0).unwrap();
    assert_eq!((&src[rest..], nodes), (&b" else }}"[..], vec![lit("", "foo", "")]));

    let src = br#"{{foo}}{{else}}"#;
    let (rest, nodes) = eat_if(src, 0).unwrap();
    assert_eq!((&src[rest..], nodes), (&b"else}}"[..], vec![expr(WS, "foo")]));

    let src = br#"{{ let a = foo }}{{else if cond}}{{else}}"#;
    let (rest, nodes) = eat_if(src, 0).unwrap();
    assert_eq!(&src[rest..], &b"else if cond}}{{else}}"[..]);
    assert_eq!(nodes.len(), 1);
    match &nodes[0] {
        Node::Local(s) => assert!(same_stmt(s, "let a = foo;")),
        _ => panic!("no let"),
    }
}

#[test]
fn test_helpers() {
    let src = b"each name }}{{first}} {{last}}{{/each}}";
    assert_eq!(
        helper(src, 0),
        Step::Done((
            src.len(),
            Node::Helper(Helper::Each(
                (WS, WS),
                t("name"),
                vec![expr(WS, "first"), lit(" ", "", ""), expr(WS, "last")],
            ))
        ))
    );
}

#[test]
fn test_if_else() {
    let src = b"foo{{/if}}";
    assert_eq!(
        if_else(WS, src, 0, t("bar")),
        Step::Done((
            src.len(),
            Node::Helper(Helper::If(((WS, WS), t("bar"), vec![lit("", "foo", "")]), vec![], None))
        ))
    );

    let src = b"foo{{else}}bar{{/if}}";
    assert_eq!(
        if_else(WS, src, 0, t("bar")),
        Step::Done((
            src.len(),
            Node::Helper(Helper::If(
                ((WS, WS), t("bar"), vec![lit("", "foo", "")]),
                vec![],
                Some((WS, vec![lit("", "bar", "")])),
            ))
        ))
    );
}

#[test]
fn parser_test_else_if() {
    let src = b"foo{{else if cond }}bar{{else}}foO{{/if}}";
    assert_eq!(
        if_else(WS, src, 0, t("bar")),
        Step::Done((
            src.len(),
            Node::Helper(Helper::If(
                ((WS, WS), t("bar"), vec![lit("", "foo", "")]),
                vec![(WS, t("cond"), vec![lit("", "bar", "")])],
                Some((WS, vec![lit("", "foO", "")])),
            ))
        ))
    );
}

#[test]
fn test_defined() {
    let src = "{{#foo bar}}hello{{/foo}}";
    assert_eq!(
        parse(src).unwrap(),
        vec![Node::Helper(Helper::Defined(
            (WS, WS),
            t("foo"),
            t("bar"),
            vec![lit("", "hello", "")],
        ))]
    );
}

#[test]
fn test_ws_expr() {
    let src = "{{-foo-}}";
    assert_eq!(parse(src).unwrap(), vec![expr((true, true), "foo")]);
    let src = "{{- foo-}}";
    assert_eq!(parse(src).unwrap(), vec![expr((true, true), "foo")]);
    let src = "{{- foo}}";
    assert_eq!(parse(src).unwrap(), vec![expr((true, false), "foo")]);
    let src = "{{foo    -}}";
    assert_eq!(parse(src).unwrap(), vec![expr((false, true), "foo")]);
    let src = "{{{-foo-}}}";
    assert_eq!(parse(src).unwrap(), vec![safe((true, true), "foo")]);
    let src = "{{{-foo -}}}";
    assert_eq!(parse(src).unwrap(), vec![safe((true, true), "foo")]);
}

#[test]
fn test_ws_each() {
    let src = "{{#-each bar-}}{{/-each-}}";
    assert_eq!(
        parse(src).unwrap(),
        vec![Node::Helper(Helper::Each(((true, true), (true, true)), t("bar"), vec![]))]
    );
}

#[test]
fn test_ws_if() {
    let src = "{{#-if bar-}}{{/-if-}}";
    assert_eq!(
        parse(src).unwrap(),
        vec![Node::Helper(Helper::If(
            (((true, true), (true, true)), t("bar"), vec![]),
            vec![],
            None,
        ))]
    );
}

#[test]
fn test_ws_if_else() {
    let src = "{{#-if bar-}}{{-else-}}{{/-if-}}";
    assert_eq!(
        parse(src).unwrap(),
        vec![Node::Helper(Helper::If(
            (((true, true), (true, true)), t("bar"), vec![]),
            vec![],
            Some(((true, true), vec![])),
        ))]
    );
}

#[test]
fn test_ws_if_else_if() {
    let src = "{{#-if bar-}}{{-else if bar-}}{{-else-}}{{/-if-}}";
    assert_eq!(
        parse(src).unwrap(),
        vec![Node::Helper(Helper::If(
            (((true, true), (true, true)), t("bar"), vec![]),
            vec![((true, true), t("bar"), vec![])],
            Some(((true, true), vec![])),
        ))]
    );
}

#[test]
fn test_partial() {
    let src = "{{> partial }}";
    assert_eq!(parse(src).unwrap(), vec![Node::Partial((false, false), t("partial"), vec![])])
}

#[test]
fn pre_partials_test_empty() {
    let none: Vec<TextNode> = vec![];
    assert_eq!(parse_partials(b""), none);
    assert_eq!(parse_partials(b"{{/"), none);
    assert_eq!(parse_partials(b"{{"), none);
    assert_eq!(parse_partials(b"{"), none);
    assert_eq!(parse_partials(b"{{>"), none);
    assert_eq!(parse_partials(b"{{>}}"), none);
}

#[test]
fn partials_are_found_among_other_tags() {
    let src = b"a{{> one }}{{ x }}{{#if y}}{{> sub/two.html -}}{{/if}}{{>three}}";
    assert_eq!(
        parse_partials(src),
        vec![
            Node::Partial((false, false), t("one"), vec![]),
            Node::Partial((false, true), t("sub/two.html"), vec![]),
        ]
    );
}

#[test]
fn partial_with_a_context_argument() {
    assert_eq!(
        parse("{{> item key.inner }}").unwrap(),
        vec![Node::Partial((false, false), t("item"), vec![t("key.inner")])]
    );
    assert_eq!(
        parse("{{>- item key -}}").unwrap(),
        vec![Node::Partial((true, true), t("item"), vec![t("key")])]
    );
    // An argument that is no expression leaves the braces as text.
    assert_eq!(parse("{{> item a b }}").unwrap(), vec![lit("", "{{> item a b }}", "")]);
}

#[test]
fn literal_fringes_are_kept_apart() {
    assert_eq!(
        parse(" \n a b \t{{ x }}  ").unwrap(),
        vec![lit(" \n ", "a b", " \t"), expr(WS, "x"), lit("  ", "", "")]
    );
}

#[test]
fn text_without_tags_is_one_literal() {
    let src = "  Hello { world } \n";
    assert_eq!(parse(src).unwrap(), vec![lit("  ", "Hello { world }", " \n")]);
}

#[test]
fn let_gets_its_semicolon_once() {
    assert_eq!(parse("{{ let a = 1 }}").unwrap(), vec![Node::Local(t("let a = 1;"))]);
    assert_eq!(parse("{{ let a = 1; }}").unwrap(), vec![Node::Local(t("let a = 1;"))]);
}

#[test]
fn unless_and_with_are_helpers() {
    assert_eq!(
        parse("{{#unless a}}x{{/unless}}{{#with b}}{{/with}}").unwrap(),
        vec![
            Node::Helper(Helper::Unless((WS, WS), t("a"), vec![lit("", "x", "")])),
            Node::Helper(Helper::With((WS, WS), t("b"), vec![])),
        ]
    );
}

fn refused(src: &str) -> ParseError {
    parse(src).unwrap_err()
}

#[test]
fn every_refusal_has_its_kind_and_its_place() {
    assert_eq!(
        refused("{{ 1 + }}"),
        ParseError { kind: ErrorKind::BadExpression, start: 2, end: 7 }
    );
    assert_eq!(
        refused("{{ let = }}"),
        ParseError { kind: ErrorKind::BadStatement, start: 2, end: 9 }
    );
    assert_eq!(
        refused("{{#each}}{{/each}}"),
        ParseError { kind: ErrorKind::BadArguments, start: 7, end: 7 }
    );
    assert_eq!(
        refused("{{#each a}}x"),
        ParseError { kind: ErrorKind::UnclosedBlock, start: 3, end: 7 }
    );
    assert_eq!(
        refused("{{#each a}}x{{/with}}"),
        ParseError { kind: ErrorKind::MismatchedClose, start: 15, end: 19 }
    );
    assert_eq!(
        refused("{{#each a}}x{{/ }}"),
        ParseError { kind: ErrorKind::BadIdentifier, start: 16, end: 16 }
    );
    assert_eq!(
        refused("{{#if a}}x{{else}}y"),
        ParseError { kind: ErrorKind::UnexpectedEof, start: 19, end: 19 }
    );
    assert_eq!(
        refused("{{#if a}}x{{/each}}"),
        ParseError { kind: ErrorKind::MalformedIfChain, start: 13, end: 13 }
    );
    assert_eq!(
        refused("a{{/if}}b"),
        ParseError { kind: ErrorKind::UnexpectedClose, start: 4, end: 4 }
    );
}

#[test]
fn bytes_that_are_no_text_are_no_expression() {
    let src: Vec<u8> = vec![b'{', b'{', b' ', 0xff, b' ', b'}', b'}'];
    assert_eq!(parse_bytes(&src).unwrap_err().kind, ErrorKind::BadExpression);
}
