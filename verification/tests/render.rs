// Templates compiled and then run: every test compiles a template with the
// library and walks the generated rendering code, with the values of the
// record's fields supplied for the expressions that the code holds.

use quote::ToTokens;
use yarte::analysis::{Context, Env, Tree};
use yarte::ast;
use yarte::bind::bind;
use yarte::config::Config;
use yarte::derive::{generate, Struct};
use yarte::loader::{File, LoadErrorKind};
use yarte::lower::Reason;
use yarte::markup::MarkupAsStr;
use yarte::node::TextNode;
use yarte::parser::parse;
use yarte::pipeline::{build_template, CompileError};
use yarte::syntax::ErrorKind;

fn toks<T: ToTokens>(t: &T) -> Vec<u8> {
    let mut ts = proc_macro2::TokenStream::new();
    t.to_tokens(&mut ts);
    ts.to_string().into_bytes()
}

fn spaced<T: ToTokens>(t: &T) -> Vec<u8> {
    let mut v = toks(t);
    if !v.is_empty() {
        v.push(b' ');
    }
    v
}

fn boxed(e: &syn::Expr) -> Box<ast::Expr> {
    Box::new(expr(e))
}

fn opt(e: &Option<Box<syn::Expr>>) -> Option<Box<ast::Expr>> {
    e.as_ref().map(|x| boxed(x))
}

fn list(p: &syn::punctuated::Punctuated<syn::Expr, syn::token::Comma>) -> ast::List {
    ast::List { items: p.iter().map(expr).collect(), trailing: p.trailing_punct() }
}

fn block(b: &syn::Block) -> ast::Block {
    ast::Block { stmts: b.stmts.iter().map(stmt).collect() }
}

fn attributed(e: &syn::Expr) -> bool {
    let attrs = match e {
        syn::Expr::Box(x) => &x.attrs,
        syn::Expr::InPlace(x) => &x.attrs,
        syn::Expr::Array(x) => &x.attrs,
        syn::Expr::Call(x) => &x.attrs,
        syn::Expr::MethodCall(x) => &x.attrs,
        syn::Expr::Tuple(x) => &x.attrs,
        syn::Expr::Binary(x) => &x.attrs,
        syn::Expr::Unary(x) => &x.attrs,
        syn::Expr::Lit(x) => &x.attrs,
        syn::Expr::Cast(x) => &x.attrs,
        syn::Expr::Type(x) => &x.attrs,
        syn::Expr::Let(x) => &x.attrs,
        syn::Expr::If(x) => &x.attrs,
        syn::Expr::While(x) => &x.attrs,
        syn::Expr::ForLoop(x) => &x.attrs,
        syn::Expr::Loop(x) => &x.attrs,
        syn::Expr::Match(x) => &x.attrs,
        syn::Expr::Closure(x) => &x.attrs,
        syn::Expr::Unsafe(x) => &x.attrs,
        syn::Expr::Block(x) => &x.attrs,
        syn::Expr::Assign(x) => &x.attrs,
        syn::Expr::AssignOp(x) => &x.attrs,
        syn::Expr::Field(x) => &x.attrs,
        syn::Expr::Index(x) => &x.attrs,
        syn::Expr::Range(x) => &x.attrs,
        syn::Expr::Path(x) => &x.attrs,
        syn::Expr::Reference(x) => &x.attrs,
        syn::Expr::Break(x) => &x.attrs,
        syn::Expr::Continue(x) => &x.attrs,
        syn::Expr::Return(x) => &x.attrs,
        syn::Expr::Macro(x) => &x.attrs,
        syn::Expr::Struct(x) => &x.attrs,
        syn::Expr::Repeat(x) => &x.attrs,
        syn::Expr::Paren(x) => &x.attrs,
        syn::Expr::Group(x) => &x.attrs,
        syn::Expr::Try(x) => &x.attrs,
        syn::Expr::Async(x) => &x.attrs,
        syn::Expr::TryBlock(x) => &x.attrs,
        syn::Expr::Yield(x) => &x.attrs,
        syn::Expr::Verbatim(_) => return false,
    };
    !attrs.is_empty()
}

fn expr(e: &syn::Expr) -> ast::Expr {
    if attributed(e) {
        ast::Expr::Attributed(Box::new(plain(e)))
    } else {
        plain(e)
    }
}

fn plain(e: &syn::Expr) -> ast::Expr {
    match e {
        syn::Expr::Box(x) => ast::Expr::Boxed(boxed(&x.expr)),
        syn::Expr::InPlace(_) => ast::Expr::Rejected(ast::Construct::InPlace),
        syn::Expr::Array(x) => ast::Expr::Array(list(&x.elems)),
        syn::Expr::Call(x) => ast::Expr::Call { func: toks(&x.func), args: list(&x.args) },
        syn::Expr::MethodCall(x) => {
            let mut method = toks(&x.method);
            method.extend(toks(&x.turbofish));
            ast::Expr::MethodCall { receiver: boxed(&x.receiver), method, args: list(&x.args) }
        }
        syn::Expr::Tuple(x) => ast::Expr::Tuple(list(&x.elems)),
        syn::Expr::Binary(x) => {
            ast::Expr::Binary { left: boxed(&x.left), op: toks(&x.op), right: boxed(&x.right) }
        }
        syn::Expr::Unary(x) => ast::Expr::Unary { op: toks(&x.op), expr: boxed(&x.expr) },
        syn::Expr::Lit(x) => {
            let kind = match &x.lit {
                syn::Lit::Int(_) => ast::LitKind::Int,
                syn::Lit::Float(_) => ast::LitKind::Float,
                syn::Lit::Bool(_) => ast::LitKind::Bool,
                syn::Lit::Str(_) => ast::LitKind::Str,
                _ => ast::LitKind::Other,
            };
            ast::Expr::Lit { kind, text: toks(&x.lit) }
        }
        syn::Expr::Cast(x) => ast::Expr::Cast { expr: boxed(&x.expr), ty: toks(&x.ty) },
        syn::Expr::Type(x) => expr(&x.expr),
        syn::Expr::Let(x) => ast::Expr::Let { pats: x.pats.iter().map(pat).collect(), expr: boxed(&x.expr) },
        syn::Expr::If(x) => ast::Expr::If {
            cond: boxed(&x.cond),
            then_branch: block(&x.then_branch),
            else_branch: x.else_branch.as_ref().map(|(_, e)| boxed(e)),
        },
        syn::Expr::While(x) => {
            ast::Expr::While { label: spaced(&x.label), cond: boxed(&x.cond), body: block(&x.body) }
        }
        syn::Expr::ForLoop(x) => ast::Expr::ForLoop {
            label: spaced(&x.label),
            pat: pat(&x.pat),
            expr: boxed(&x.expr),
            body: block(&x.body),
        },
        syn::Expr::Loop(x) => ast::Expr::Loop { label: spaced(&x.label), body: block(&x.body) },
        syn::Expr::Match(x) => {
            ast::Expr::Match { expr: boxed(&x.expr), arms: x.arms.iter().map(arm).collect() }
        }
        syn::Expr::Closure(x) => {
            let mut head = spaced(&x.asyncness);
            head.extend(spaced(&x.movability));
            head.extend(toks(&x.capture));
            ast::Expr::Closure {
                head,
                inputs: x.inputs.iter().map(arg).collect(),
                output: spaced(&x.output),
                body: boxed(&x.body),
            }
        }
        syn::Expr::Unsafe(x) => ast::Expr::Unsafe(block(&x.block)),
        syn::Expr::Block(x) => ast::Expr::Block { label: spaced(&x.label), block: block(&x.block) },
        syn::Expr::Assign(x) => {
            ast::Expr::Assign { left: toks(&x.left), op: b"=".to_vec(), right: boxed(&x.right) }
        }
        syn::Expr::AssignOp(x) => {
            ast::Expr::Assign { left: toks(&x.left), op: toks(&x.op), right: boxed(&x.right) }
        }
        syn::Expr::Field(x) => ast::Expr::Field { base: boxed(&x.base), member: toks(&x.member) },
        syn::Expr::Index(x) => ast::Expr::Index { expr: boxed(&x.expr), index: toks(&x.index) },
        syn::Expr::Range(x) => {
            ast::Expr::Range { from: opt(&x.from), limits: limits(&x.limits), to: opt(&x.to) }
        }
        syn::Expr::Path(x) => ast::Expr::Path {
            qself: x.qself.is_some(),
            segments: x.path.segments.iter().map(|s| s.ident.to_string().into_bytes()).collect(),
            text: toks(&x.path),
        },
        syn::Expr::Reference(x) => {
            ast::Expr::Reference { mutable: x.mutability.is_some(), expr: boxed(&x.expr) }
        }
        syn::Expr::Break(x) => ast::Expr::Break { label: toks(&x.label), expr: opt(&x.expr) },
        syn::Expr::Continue(_) => ast::Expr::Raw(toks(e)),
        syn::Expr::Return(x) => ast::Expr::Return(opt(&x.expr)),
        syn::Expr::Macro(_) => ast::Expr::Raw(toks(e)),
        syn::Expr::Struct(x) => {
            let mut rest = toks(&x.dot2_token);
            rest.extend(toks(&x.rest));
            ast::Expr::Struct {
                path: toks(&x.path),
                fields: x
                    .fields
                    .iter()
                    .map(|f| ast::FieldValue {
                        attrs: !f.attrs.is_empty(),
                        member: toks(&f.member),
                        expr: expr(&f.expr),
                    })
                    .collect(),
                rest,
            }
        }
        syn::Expr::Repeat(_) => ast::Expr::Raw(toks(e)),
        syn::Expr::Paren(x) => ast::Expr::Paren(boxed(&x.expr)),
        syn::Expr::Group(x) => ast::Expr::Group(boxed(&x.expr)),
        syn::Expr::Try(x) => ast::Expr::Try(boxed(&x.expr)),
        syn::Expr::Async(_) => ast::Expr::Rejected(ast::Construct::Async),
        syn::Expr::TryBlock(_) => ast::Expr::Rejected(ast::Construct::TryBlock),
        syn::Expr::Yield(_) => ast::Expr::Rejected(ast::Construct::Yield),
        syn::Expr::Verbatim(_) => ast::Expr::Rejected(ast::Construct::Verbatim),
    }
}

fn limits(l: &syn::RangeLimits) -> Vec<u8> {
    match l {
        syn::RangeLimits::HalfOpen(t) => toks(t),
        syn::RangeLimits::Closed(t) => toks(t),
    }
}

fn dots(
    front: &syn::punctuated::Punctuated<syn::Pat, syn::token::Comma>,
    dot2: &Option<syn::token::Dot2>,
    comma: &Option<syn::token::Comma>,
) -> Vec<u8> {
    let mut d = Vec::new();
    if front.trailing_punct() {
        d.push(b',');
    }
    d.extend(toks(dot2));
    d.extend(toks(comma));
    d
}

fn pat(p: &syn::Pat) -> ast::Pat {
    match p {
        syn::Pat::Wild(_) => ast::Pat::Wild,
        syn::Pat::Ident(x) => {
            let mut prefix = spaced(&x.by_ref);
            prefix.extend(spaced(&x.mutability));
            ast::Pat::Ident {
                prefix,
                name: x.ident.to_string().into_bytes(),
                subpat: x.subpat.is_some(),
            }
        }
        syn::Pat::Tuple(x) => ast::Pat::Tuple {
            front: x.front.iter().map(pat).collect(),
            dots: dots(&x.front, &x.dot2_token, &x.comma_token),
            back: x.back.iter().map(pat).collect(),
        },
        syn::Pat::TupleStruct(x) => ast::Pat::TupleStruct {
            path: toks(&x.path),
            front: x.pat.front.iter().map(pat).collect(),
            dots: dots(&x.pat.front, &x.pat.dot2_token, &x.pat.comma_token),
            back: x.pat.back.iter().map(pat).collect(),
        },
        other => ast::Pat::Raw(toks(other)),
    }
}

fn arm(a: &syn::Arm) -> ast::Arm {
    ast::Arm {
        attrs: !a.attrs.is_empty(),
        leading_vert: a.leading_vert.is_some(),
        guard: a.guard.is_some(),
        pats: a.pats.iter().map(pat).collect(),
        body: expr(&a.body),
    }
}

fn arg(a: &syn::FnArg) -> ast::Arg {
    match a {
        syn::FnArg::Captured(c) => ast::Arg { pat: Some(pat(&c.pat)), ty: Some(toks(&c.ty)) },
        syn::FnArg::Inferred(p) => ast::Arg { pat: Some(pat(p)), ty: None },
        other => ast::Arg { pat: Some(ast::Pat::Raw(toks(other))), ty: None },
    }
}

fn stmt(s: &syn::Stmt) -> ast::Stmt {
    match s {
        syn::Stmt::Local(l) => ast::Stmt::Local(ast::Local {
            attrs: !l.attrs.is_empty(),
            pats: l.pats.iter().map(pat).collect(),
            ty: l.ty.as_ref().map(|(_, t)| toks(t)),
            init: l.init.as_ref().map(|(_, e)| expr(e)),
        }),
        syn::Stmt::Item(i) => ast::Stmt::Item(toks(i)),
        syn::Stmt::Expr(e) => ast::Stmt::Expr(expr(e)),
        syn::Stmt::Semi(e, _) => ast::Stmt::Semi(expr(e)),
    }
}

fn host_expr(text: &[u8]) -> ast::Expr {
    expr(&syn::parse_str::<syn::Expr>(std::str::from_utf8(text).unwrap()).unwrap())
}

fn host_stmt(text: &[u8]) -> ast::Stmt {
    stmt(&syn::parse_str::<syn::Stmt>(std::str::from_utf8(text).unwrap()).unwrap())
}

fn trees(nodes: Vec<TextNode>) -> Vec<Tree> {
    bind(&nodes, &|t: &Vec<u8>| host_expr(t), &|t: &Vec<u8>| host_stmt(t))
}

fn compile_all(root: &str, html: bool, files: &[(&str, &str)]) -> Result<String, Reason> {
    let mut paths = Vec::new();
    let mut all = Vec::new();
    for (p, src) in files {
        paths.push(p.as_bytes().to_vec());
        all.push(trees(parse(src).unwrap()));
    }
    let env = Env {
        html,
        config: Config::new(b"", None),
        ctx: Context { paths, trees: all },
    };
    let s = Struct {
        ident: b"T".to_vec(),
        impl_generics: Vec::new(),
        ty_generics: Vec::new(),
        where_clause: Vec::new(),
    };
    generate(&env, &s, &root.as_bytes().to_vec(), false).map(|c| String::from_utf8(c).unwrap())
}

fn compile(src: &str, ext: &str) -> String {
    let html = ext == "html";
    let path = format!("T.{}", ext);
    compile_all(&path, html, &[(&path, src)]).unwrap()
}

// A value that the generated code formats.
enum V {
    Text(String),
    Num(i64),
    Flag(bool),
    Done,
    Fail,
}

fn text(s: &str) -> V {
    V::Text(s.to_string())
}

fn unquote(q: &str) -> String {
    let q = q.strip_prefix('"').unwrap().strip_suffix('"').unwrap();
    let mut out = String::new();
    let mut it = q.chars();
    while let Some(c) = it.next() {
        if c == '\\' {
            match it.next().unwrap() {
                'n' => out.push('\n'),
                'r' => out.push('\r'),
                't' => out.push('\t'),
                o => out.push(o),
            }
        } else {
            out.push(c);
        }
    }
    out
}

struct Run<'a> {
    lines: Vec<String>,
    pos: usize,
    out: String,
    idx: Vec<usize>,
    eval: &'a dyn Fn(&str, &[usize]) -> V,
}

impl<'a> Run<'a> {
    fn line(&self) -> &str {
        self.lines[self.pos].trim()
    }

    fn show(&mut self, code: &str, escape: bool) -> Result<(), ()> {
        match (self.eval)(code, &self.idx) {
            V::Text(s) => {
                if escape {
                    let m: MarkupAsStr = MarkupAsStr::from(s.as_str());
                    self.out.push_str(&String::from_utf8(m.render()).unwrap());
                } else {
                    self.out.push_str(&s);
                }
            }
            V::Num(n) => {
                let m: MarkupAsStr = MarkupAsStr::from(&n);
                self.out.push_str(&String::from_utf8(m.render()).unwrap());
            }
            V::Flag(b) => {
                let m: MarkupAsStr = MarkupAsStr::from(&b);
                self.out.push_str(&String::from_utf8(m.render()).unwrap());
            }
            V::Fail => return Err(()),
            V::Done => panic!("no value for {}", code),
        }
        Ok(())
    }

    fn flag(&mut self, code: &str) -> Result<bool, ()> {
        match (self.eval)(code, &self.idx) {
            V::Flag(b) => Ok(b),
            V::Fail => Err(()),
            _ => panic!("no condition for {}", code),
        }
    }

    // Runs the statements up to the line that closes the block.
    fn block(&mut self, live: bool) -> Result<(), ()> {
        while self.pos < self.lines.len() && !self.line().starts_with('}') {
            let line = self.line().to_string();
            if let Some(q) =
                line.strip_prefix("_fmt.write_str(").and_then(|l| l.strip_suffix(")?;"))
            {
                if live {
                    self.out.push_str(&unquote(q));
                }
                self.pos += 1;
            } else if let Some(code) = line
                .strip_prefix("(::yarte::MarkupAsStr::from(&")
                .and_then(|l| l.strip_suffix(")).fmt(_fmt)?;"))
            {
                if live {
                    self.show(code, true)?;
                }
                self.pos += 1;
            } else if let Some(code) =
                line.strip_prefix("(").and_then(|l| l.strip_suffix(").fmt(_fmt)?;"))
            {
                if live {
                    self.show(code, false)?;
                }
                self.pos += 1;
            } else if line.starts_with("for ") && line.ends_with('{') {
                self.pos += 1;
                let start = self.pos;
                let n = if live {
                    match (self.eval)(&line, &self.idx) {
                        V::Num(n) => n as usize,
                        _ => panic!("no count for {}", line),
                    }
                } else {
                    0
                };
                for i in 0..n {
                    self.pos = start;
                    self.idx.push(i);
                    self.block(true)?;
                    self.idx.pop();
                }
                if n == 0 {
                    self.block(false)?;
                }
                assert_eq!(self.line(), "}");
                self.pos += 1;
            } else if line.starts_with("if ") && line.ends_with('{') {
                let mut taken = false;
                let mut head = line[3..line.len() - 1].trim().to_string();
                loop {
                    let now = live && !taken && self.flag(&head)?;
                    taken = taken || now;
                    self.pos += 1;
                    self.block(now)?;
                    let next = self.line().to_string();
                    if let Some(c) =
                        next.strip_prefix("} else if ").and_then(|l| l.strip_suffix('{'))
                    {
                        head = c.trim().to_string();
                    } else if next == "} else {" {
                        self.pos += 1;
                        self.block(live && !taken)?;
                        assert_eq!(self.line(), "}");
                        self.pos += 1;
                        break;
                    } else {
                        assert_eq!(next, "}");
                        self.pos += 1;
                        break;
                    }
                }
            } else {
                if live {
                    match (self.eval)(&line, &self.idx) {
                        V::Done => {}
                        V::Fail => return Err(()),
                        _ => panic!("no statement {}", line),
                    }
                }
                self.pos += 1;
            }
        }
        Ok(())
    }
}

// The lines of the formatting routine's body.
fn body(code: &str) -> Vec<String> {
    let lines: Vec<&str> = code.lines().collect();
    let start = lines.iter().position(|l| l.trim().starts_with("fn fmt(")).unwrap() + 1;
    let end = lines.iter().rposition(|l| l.trim() == "Ok(())").unwrap();
    lines[start..end].iter().map(|l| l.to_string()).collect()
}

fn run(code: &str, eval: &dyn Fn(&str, &[usize]) -> V) -> Result<String, ()> {
    let mut r = Run { lines: body(code), pos: 0, out: String::new(), idx: Vec::new(), eval };
    r.block(true)?;
    assert_eq!(r.pos, r.lines.len());
    Ok(r.out)
}

fn render(src: &str, ext: &str, eval: &dyn Fn(&str, &[usize]) -> V) -> Result<String, ()> {
    run(&compile(src, ext), eval)
}

fn unknown(code: &str) -> V {
    panic!("unexpected code: {:?}", code)
}

#[test]
fn expr_test_hello() {
    let name = "world";
    let r = render("Hello, {{ name }}!", "txt", &|c, _| match c {
        "self.name" => text(name),
        _ => unknown(c),
    });
    assert_eq!("Hello, world!", r.unwrap());
}

#[test]
fn test_ignore() {
    let cond: Option<bool> = Some(false);
    let r = render(
        "{{# if let Some(_) = cond -}}
    foo
{{- else if let Some(..) = cond -}}
    bar
{{/-if}}",
        "txt",
        &|c, _| match c {
            "let Some(_) = self.cond" => V::Flag(if let Some(_) = cond { true } else { false }),
            "let Some(..) = self.cond" => V::Flag(if let Some(..) = cond { true } else { false }),
            _ => unknown(c),
        },
    );
    assert_eq!("foo", r.unwrap());
}

#[test]
fn test_closure() {
    let name = "world";
    let r = render(
        "{{  name.chars().position(|x| x.eq(&'o')).is_some() }}",
        "txt",
        &|c, _| match c {
            "self.name.chars().position( |x,| x.eq(&'o')).is_some()" => {
                V::Flag(name.chars().position(|x| x.eq(&'o')).is_some())
            }
            _ => unknown(c),
        },
    );
    assert_eq!("true", r.unwrap());
}

#[test]
fn test_let_closure() {
    let name = "world";
    let r = render(
        "{{ let a = |a: &str| a.repeat(2) }}{{ a(name) }}",
        "txt",
        &|c, _| {
            let a = |a: &str| a.repeat(2);
            match c {
                "let a =  |a: & str,| a.repeat(2);" => V::Done,
                "a(self.name)" => V::Text(a(name)),
                _ => unknown(c),
            }
        },
    );
    assert_eq!("worldworld", r.unwrap());
}

#[test]
fn test_let_closure_scope() {
    let name = "world";
    let r = render(
        "{{ let a = |n| name.repeat(n) }}{{ a(1) }}",
        "txt",
        &|c, _| {
            let a = |n| name.repeat(n);
            match c {
                "let a =  |n,| self.name.repeat(n);" => V::Done,
                "a(1)" => V::Text(a(1)),
                _ => unknown(c),
            }
        },
    );
    assert_eq!("world", r.unwrap());
}

#[test]
fn expr_test_let() {
    let name = "world";
    let r = render("{{ let a = name }}Hello, {{ a }}!", "txt", &|c, _| {
        let a = name;
        match c {
            "let a = self.name;" => V::Done,
            "a" => text(a),
            _ => unknown(c),
        }
    });
    assert_eq!("Hello, world!", r.unwrap());
}

#[test]
fn test_with_fields() {
    let names = (("foo", "bar"), ("fOO", "bAR"));
    let r = render(
        "Hello, {{ names.0.first }} {{ names.0.last }} and {{ names.1.first }} {{ names.1.last }}!",
        "txt",
        &|c, _| match c {
            "self.names.0.first" => text((names.0).0),
            "self.names.0.last" => text((names.0).1),
            "self.names.1.first" => text((names.1).0),
            "self.names.1.last" => text((names.1).1),
            _ => unknown(c),
        },
    );
    assert_eq!("Hello, foo bar and fOO bAR!", r.unwrap());
}

#[test]
fn test_let_with() {
    let name = "world";
    let r = render(
        "{{ let a = (name, name) }}Hello, {{ a.0 }}{{ a.1 }}!",
        "txt",
        &|c, _| {
            let a = (name, name);
            match c {
                "let a = (self.name,self.name);" => V::Done,
                "a.0" => text(a.0),
                "a.1" => text(a.1),
                _ => unknown(c),
            }
        },
    );
    assert_eq!("Hello, worldworld!", r.unwrap());
}

#[test]
fn test_let_if() {
    let this_cond = true;
    let r = render(
        "{{ let cond = !cond }}{{
              let a = if !cond {
              let a = if cond { \"world\" } else { \"foo\" };
              a
              } else if !cond {
              \"foo\"
              } else {
              \"bar\"
              }
              }}Hello, {{ self.cond }} {{ cond }} {{ a }}!",
        "txt",
        &|c, _| {
            let cond = !this_cond;
            let a = if !cond {
                let a = if cond { "world" } else { "foo" };
                a
            } else if !cond {
                "foo"
            } else {
                "bar"
            };
            match c {
                "let cond = !self.cond;" => V::Done,
                "let a =  if !cond { let a =  if cond { \"world\" } else { \"foo\" };a } else if !cond { \"foo\" } else { \"bar\" };" => V::Done,
                "self.cond" => V::Flag(this_cond),
                "cond" => V::Flag(cond),
                "a" => text(a),
                _ => unknown(c),
            }
        },
    );
    assert_eq!("Hello, true false foo!", r.unwrap());
}

#[test]
fn test_let_if_some() {
    let this_cond: Option<bool> = Some(false);
    let r = render(
        "Hello, {{
                if let Some(cond) = cond {
                    if !cond {
                        let cond =  \"bar\";
                        cond
                    } else {
                        \"foo\"
                    }
                } else {
                    \"fun\"
                } }}!",
        "txt",
        &|c, _| match c {
            " if let Some(cond) = self.cond {  if !cond { let cond = \"bar\";cond } else { \"foo\" } } else { \"fun\" }" => {
                text(if let Some(cond) = this_cond {
                    if !cond {
                        let cond = "bar";
                        cond
                    } else {
                        "foo"
                    }
                } else {
                    "fun"
                })
            }
            _ => unknown(c),
        },
    );
    assert_eq!("Hello, bar!", r.unwrap());
}

const ELSE_IF_SOME: &str = "Hello, {{
                if let Some(cond) = cond {
                    if !cond {
                        let cond =  \"bar\";
                        cond
                    } else {
                        \"foo\"
                    }
                } else if let Some(cond) = check {
                    if !cond {
                        let cond =  \"fun\";
                        cond
                    } else {
                        \"baa\"
                    }
                } else {
                    \"None\"
                } }}!";

fn else_if_some(cond: Option<bool>, check: Option<bool>) -> &'static str {
    if let Some(cond) = cond {
        if !cond {
            let cond = "bar";
            cond
        } else {
            "foo"
        }
    } else if let Some(cond) = check {
        if !cond {
            let cond = "fun";
            cond
        } else {
            "baa"
        }
    } else {
        "None"
    }
}

fn let_else_if_some(cond: Option<bool>, check: Option<bool>) -> String {
    render(ELSE_IF_SOME, "txt", &|c, _| match c {
        " if let Some(cond) = self.cond {  if !cond { let cond = \"bar\";cond } else { \"foo\" } } else if let Some(cond) = self.check {  if !cond { let cond = \"fun\";cond } else { \"baa\" } } else { \"None\" }" => {
            text(else_if_some(cond, check))
        }
        _ => unknown(c),
    })
    .unwrap()
}

#[test]
fn test_let_else_if_some() {
    assert_eq!("Hello, bar!", let_else_if_some(Some(false), Some(false)));
    assert_eq!("Hello, foo!", let_else_if_some(Some(true), Some(false)));
    assert_eq!("Hello, baa!", let_else_if_some(None, Some(true)));
    assert_eq!("Hello, fun!", let_else_if_some(None, Some(false)));
    assert_eq!("Hello, None!", let_else_if_some(None, None));
}

struct Cond {
    cond: Option<bool>,
    check: Option<bool>,
}

fn let_else_if_each_some(conditions: &Vec<Cond>) -> String {
    render(
        "Hello, {{#each conditions}}{{
                if let Some(cond) = cond {
                    if !cond {
                        let cond =  \"bar\";
                        cond
                    } else {
                        \"foo\"
                    }
                } else if let Some(cond) = check {
                    if !cond {
                        let cond =  \"fun\";
                        cond
                    } else {
                        \"baa\"
                    }
                } else {
                    \"None\"
                } }}{{/each}}!",
        "txt",
        &|c, i| match c {
            "for _key_1 in (&self.conditions).into_iter() {" => V::Num(conditions.len() as i64),
            " if let Some(cond) = _key_1.cond {  if !cond { let cond = \"bar\";cond } else { \"foo\" } } else if let Some(cond) = _key_1.check {  if !cond { let cond = \"fun\";cond } else { \"baa\" } } else { \"None\" }" => {
                let key = &conditions[i[0]];
                text(else_if_some(key.cond, key.check))
            }
            _ => unknown(c),
        },
    )
    .unwrap()
}

#[test]
fn test_let_else_if_each_some() {
    let mut conditions = vec![];
    for _ in 0..5 {
        conditions.push(Cond { cond: Some(false), check: Some(false) })
    }
    assert_eq!("Hello, barbarbarbarbar!", let_else_if_each_some(&conditions));

    let mut conditions = vec![];
    for _ in 0..5 {
        conditions.push(Cond { cond: None, check: None })
    }
    assert_eq!("Hello, NoneNoneNoneNoneNone!", let_else_if_each_some(&conditions));
}

fn else_if_each_some(conditions: &Vec<Cond>) -> String {
    render(
        "Hello, {{#each conditions}}
    {{#-if let Some(check) = cond }}
        {{#-if check }}
            {{ let cond = if check { \"&foo\" } else { \"&\"} }}
            {{
                if check {
                    cond
                } else if let Some(cond) = key.cond {
                    if cond {
                        \"1\"
                    } else {
                        \"2\"
                    }
                } else {
                   \"for\"
                }
            }}
        {{- else if let Some(_) = cond }}
        {{- else if let Some(cond) = key.check }}
            {{#-if cond -}}
                baa
            {{/-if }}
        {{- else -}}
            {{ cond.is_some() }}
        {{/-if-}}
        {{ cond.is_some() && true }}
    {{-else if let Some(cond) = check }}
        {{#-if cond -}}
            bar
        {{/-if}}
    {{- else -}}
        None
    {{/-if
}}{{/each}}!",
        "html",
        &|c, i| {
            let key = &conditions[*i.get(0).unwrap_or(&0)];
            match c {
                "for _key_1 in (&self.conditions).into_iter() {" => {
                    V::Num(conditions.len() as i64)
                }
                "let Some(check) = _key_1.cond" => V::Flag(key.cond.is_some()),
                "check" => V::Flag(key.cond.unwrap()),
                "let cond =  if check { \"&foo\" } else { \"&\" };" => V::Done,
                " if check { cond } else if let Some(cond) = _key_1.cond {  if cond { \"1\" } else { \"2\" } } else { \"for\" }" => {
                    let check = key.cond.unwrap();
                    let cond = if check { "&foo" } else { "&" };
                    text(if check {
                        cond
                    } else if let Some(cond) = key.cond {
                        if cond {
                            "1"
                        } else {
                            "2"
                        }
                    } else {
                        "for"
                    })
                }
                "let Some(_) = _key_1.cond" => V::Flag(key.cond.is_some()),
                "let Some(cond) = _key_1.check" => V::Flag(key.check.is_some()),
                "cond" => V::Flag(key.check.unwrap()),
                "_key_1.cond.is_some()" => V::Flag(key.cond.is_some()),
                "_key_1.cond.is_some() && true" => V::Flag(key.cond.is_some() && true),
                "let Some(cond) = _key_1.check" => V::Flag(key.check.is_some()),
                _ => unknown(c),
            }
        },
    )
    .unwrap()
}

#[test]
fn test_else_if_each_some() {
    let mut conditions = vec![];
    for _ in 0..5 {
        conditions.push(Cond { cond: Some(true), check: Some(false) })
    }
    assert_eq!(
        "Hello, &amp;footrue&amp;footrue&amp;footrue&amp;footrue&amp;footrue!",
        else_if_each_some(&conditions)
    );

    let mut conditions = vec![];
    for _ in 0..5 {
        conditions.push(Cond { cond: None, check: None })
    }
    assert_eq!("Hello, NoneNoneNoneNoneNone!", else_if_each_some(&conditions));
}

#[test]
fn test_let_loop() {
    let name = "&foo";
    let r = render(
        "{{ let mut a = name.chars() }}
{{ let b: String = loop {
        if a.next().is_none() && true {
            let mut a = name.repeat(1);
            a.push('!');
            break a.repeat(2);
        } else {
            continue;
        }
    }
}}{{ b }}",
        "html",
        &|c, _| {
            let mut a = name.chars();
            let b: String = loop {
                if a.next().is_none() && true {
                    let mut a = name.repeat(1);
                    a.push('!');
                    break a.repeat(2);
                } else {
                    continue;
                }
            };
            match c {
                "let mut a = self.name.chars();" => V::Done,
                "let b: String = loop {  if a.next().is_none() && true { let mut a = self.name.repeat(1);a.push('!');break  a.repeat(2); } else { continue; } };" => V::Done,
                "b" => V::Text(b),
                _ => unknown(c),
            }
        },
    );
    assert_eq!("&amp;foo!&amp;foo!", r.unwrap());
}

#[test]
fn test_let_collect() {
    let a: Vec<usize> = vec![0, 1];
    let r = render(
        "
{{ let doubled = a.iter().map(|x| x * 2).collect::<Vec<_>>() }}
{{ let doubled: Vec<usize> = a.iter().map(|x| x * 2).collect() }}
{{#each doubled -}}
    {{ key + 1 }}
{{/-each}}",
        "html",
        &|c, i| {
            let doubled: Vec<usize> = a.iter().map(|x| x * 2).collect();
            match c {
                "let doubled = self.a.iter().map( |x,| x * 2).collect:: < Vec < _ > >();" => {
                    V::Done
                }
                "let doubled: Vec < usize > = self.a.iter().map( |x,| x * 2).collect();" => {
                    V::Done
                }
                "for _key_1 in (&doubled).into_iter() {" => V::Num(doubled.len() as i64),
                "_key_1 + 1" => V::Num((doubled[i[0]] + 1) as i64),
                _ => unknown(c),
            }
        },
    );
    assert_eq!("13", r.unwrap());
}

fn try_template(a: Result<usize, ()>) -> Result<String, ()> {
    render("{{ a? }}", "html", &|c, _| match c {
        "self.a?" => match a {
            Ok(n) => V::Num(n as i64),
            Err(_) => V::Fail,
        },
        _ => unknown(c),
    })
}

#[test]
fn test_try() {
    assert!(try_template(Err(())).is_err());
    assert_eq!("1", try_template(Ok(1)).unwrap());
}

fn not_is(some: bool) -> Result<bool, ()> {
    if some {
        Ok(false)
    } else {
        Err(())
    }
}

fn try_method(some: bool) -> Result<String, ()> {
    render("{{#unless self.not_is(some)? }}foo{{/unless}}", "txt", &|c, _| match c {
        "!(self.not_is(self.some)?)" => match not_is(some) {
            Ok(b) => V::Flag(!b),
            Err(_) => V::Fail,
        },
        _ => unknown(c),
    })
}

#[test]
fn test_try_method() {
    assert!(try_method(false).is_err());
    assert_eq!("foo", try_method(true).unwrap());
}

#[test]
fn test_brackets() {
    let r = render("{{}", "txt", &|c, _| unknown(c));
    assert_eq!("{{}", r.unwrap());
}

#[test]
fn test_brackets2() {
    let r = render("{{{}}", "txt", &|c, _| unknown(c));
    assert_eq!("{{{}}", r.unwrap());
}

#[test]
fn test_comment() {
    let r = render("  {{! foo !}}", "txt", &|c, _| unknown(c));
    assert_eq!(r.unwrap(), "");
}

#[test]
fn test_negation() {
    let foo = false;
    let r = render("{{# if !foo }}Hello{{/if }}", "txt", &|c, _| match c {
        "!self.foo" => V::Flag(!foo),
        _ => unknown(c),
    });
    assert_eq!(r.unwrap(), "Hello");
}

#[test]
fn test_minus() {
    let foo: i8 = 1;
    let r = render("{{# if foo > -2 }}Hello{{/ if }}", "txt", &|c, _| match c {
        "self.foo > -2" => V::Flag(foo > -2),
        _ => unknown(c),
    });
    assert_eq!(r.unwrap(), "Hello");
}

#[test]
fn simple_test_index() {
    let mut foo: std::collections::HashMap<String, String> = std::collections::HashMap::new();
    foo.insert("bar".into(), "baz".into());
    let r = render("{{ foo[\"bar\"] }}", "txt", &|c, _| match c {
        "self.foo[\"bar\"]" => text(&foo["bar"]),
        _ => unknown(c),
    });
    assert_eq!(r.unwrap(), "baz");
}

#[test]
fn simple_test_empty() {
    let r = render("foo", "txt", &|c, _| unknown(c));
    assert_eq!(r.unwrap(), "foo");
}

struct Holder {
    foo: usize,
    bar: usize,
}

struct DeepHold {
    deep: Holder,
}

#[test]
fn test_with_each() {
    let hold = vec![DeepHold { deep: Holder { foo: 0, bar: 1 } }];
    let r = render(
        "{{#each hold}}{{#with deep}}{{ foo }} {{ bar }}{{/with}}{{/each}}",
        "txt",
        &|c, i| match c {
            "for _key_1 in (&self.hold).into_iter() {" => V::Num(hold.len() as i64),
            "_key_1.deep.foo" => V::Num(hold[i[0]].deep.foo as i64),
            "_key_1.deep.bar" => V::Num(hold[i[0]].deep.bar as i64),
            _ => unknown(c),
        },
    );
    assert_eq!("0 1", r.unwrap());
}

#[test]
fn vars_test_let() {
    let s = "foo";
    let r = render("{{ let v = s }}{{ v }}", "txt", &|c, _| {
        let v = s;
        match c {
            "let v = self.s;" => V::Done,
            "v" => text(v),
            _ => unknown(c),
        }
    });
    assert_eq!(r.unwrap(), "foo");
}

#[test]
fn wrapped_test_if() {
    let cond = true;
    let r = render(
        "{{
              if true {
              let a = if true { \"&\" } else { \"&\" };
              a
              } else if true || !cond {
              \"&\"
              } else {
              \"&\"
              }
              }}",
        "html",
        &|c, _| match c {
            " if true { let a =  if true { \"&\" } else { \"&\" };a } else if true || !self.cond { \"&\" } else { \"&\" }" => {
                text(if true {
                    let a = if true { "&" } else { "&" };
                    a
                } else if true || !cond {
                    "&"
                } else {
                    "&"
                })
            }
            _ => unknown(c),
        },
    );
    assert_eq!("&amp;", r.unwrap());
}

#[test]
fn wrapped_test_index() {
    let arr = vec!["&"];
    let r = render("{{ arr[0] }}", "html", &|c, _| match c {
        "self.arr[0]" => text(arr[0]),
        _ => unknown(c),
    });
    assert_eq!("&amp;", r.unwrap());
}

#[test]
fn test_slice() {
    let arr: &[&str] = &vec!["&"];
    let r = render("{{ arr[..1][0] }}", "html", &|c, _| match c {
        "self.arr[.. 1][0]" => text(arr[..1][0]),
        _ => unknown(c),
    });
    assert_eq!("&amp;", r.unwrap());
}

fn repeat(s: &str, i: usize) -> String {
    s.repeat(i)
}

#[test]
fn test_call() {
    let s = "&";
    let r = render("{{ s.repeat(1) }}{{ repeat(s, 1) }}", "html", &|c, _| match c {
        "self.s.repeat(1)" => V::Text(s.repeat(1)),
        "repeat(self.s,1)" => V::Text(repeat(s, 1)),
        _ => unknown(c),
    });
    assert_eq!("&amp;&amp;", r.unwrap());
}

#[test]
fn test_array() {
    let r = render("{{ [\"&\"][..1][0] }}", "html", &|c, _| match c {
        "[\"&\"][.. 1][0]" => text(["&"][..1][0]),
        _ => unknown(c),
    });
    assert_eq!("&amp;", r.unwrap());
}

#[test]
fn test_tuple() {
    let r = render("{{ (\"&\", 1, 1.0, true).0 }}", "html", &|c, _| match c {
        "(\"&\",1,1.0,true).0" => text(("&", 1, 1.0, true).0),
        _ => unknown(c),
    });
    assert_eq!("&amp;", r.unwrap());
}

#[test]
fn test_simple() {
    let cond = true;
    let num: usize = 0;
    let r = render(
        "{{ cond }}{{ 1 + num }}{{ num }}{{ cond || true }}{{ 1.0 }}{{ [true][0..1][0] }}",
        "html",
        &|c, _| match c {
            "self.cond" => V::Flag(cond),
            "1 + self.num" => V::Num((1 + num) as i64),
            "self.num" => V::Num(num as i64),
            "self.cond || true" => V::Flag(cond || true),
            "1.0" => text(&format!("{}", 1.0)),
            "[true][0 .. 1][0]" => V::Flag([true][0..1][0]),
            _ => unknown(c),
        },
    );
    assert_eq!("true10true1true", r.unwrap());
}

#[test]
fn hello_test_hello() {
    let name = "world";
    let r = render("Hello, {{ name }}!", "html", &|c, _| match c {
        "self.name" => text(name),
        _ => unknown(c),
    });
    assert_eq!("Hello, world!", r.unwrap());
}

#[test]
fn test_escape() {
    let name = "<>&\"'/";
    let r = render("Hello, {{ name }}!", "html", &|c, _| match c {
        "self.name" => text(name),
        _ => unknown(c),
    });
    assert_eq!(r.unwrap(), "Hello, &lt;&gt;&amp;&quot;&#x27;&#x2f;!");
}

#[test]
fn a_safe_expression_is_not_escaped() {
    let name = "<b>";
    let r = render("{{{ name }}}{{ name }}", "html", &|c, _| match c {
        "self.name" => text(name),
        _ => unknown(c),
    });
    assert_eq!(r.unwrap(), "<b>&lt;b&gt;");
    let r = render("{{ name }}", "txt", &|c, _| match c {
        "self.name" => text(name),
        _ => unknown(c),
    });
    assert_eq!(r.unwrap(), "<b>");
}

#[test]
fn each_counts_from_zero_and_from_one() {
    let items = vec!["a", "b", "c"];
    let r = render("{{#each items}}{{index0}}:{{key}} {{/each}}", "txt", &|c, i| match c {
        "for (_index_1, _key_1) in (&self.items).into_iter().enumerate() {" => {
            V::Num(items.len() as i64)
        }
        "_index_1" => V::Num(i[0] as i64),
        "_key_1" => text(items[i[0]]),
        _ => unknown(c),
    });
    assert_eq!(r.unwrap(), "0:a 1:b 2:c ");
    let r = render(
        "{{#each items}}{{index}}{{#if first}}!{{/if}}{{/each}}",
        "txt",
        &|c, i| match c {
            "for (_index_1, _key_1) in (&self.items).into_iter().enumerate() {" => {
                V::Num(items.len() as i64)
            }
            "(_index_1 + 1)" => V::Num((i[0] + 1) as i64),
            "(_index_1 == 0)" => V::Flag(i[0] == 0),
            _ => unknown(c),
        },
    );
    assert_eq!(r.unwrap(), "1!23");
}

#[test]
fn each_over_a_range_and_each_in_each() {
    let code = compile("{{#each 0..n}}{{ key }}{{/each}}", "txt");
    assert_eq!(
        body(&code).iter().map(|l| l.trim().to_string()).collect::<Vec<_>>(),
        vec!["for _key_1 in 0..self.n {", "(_key_1).fmt(_fmt)?;", "}"]
    );
    let code = compile("{{#each 0..n}}{{ index }}{{/each}}", "txt");
    assert_eq!(
        body(&code)[0].trim(),
        "for (_index_1, _key_1) in (0..self.n).enumerate() {"
    );
    let code = compile("{{#each a}}{{#each key}}{{ key }}{{ super::key }}{{/each}}{{/each}}", "txt");
    assert_eq!(
        body(&code).iter().map(|l| l.trim().to_string()).collect::<Vec<_>>(),
        vec![
            "for _key_1 in (&self.a).into_iter() {",
            "for _key_2 in (&_key_1).into_iter() {",
            "(_key_2).fmt(_fmt)?;",
            "(_key_1).fmt(_fmt)?;",
            "}",
            "}"
        ]
    );
}

#[test]
fn unless_counts_as_a_helper_inside_each() {
    let code = compile("{{#each xs}}{{#unless key}}{{index}}{{/unless}}{{/each}}", "txt");
    assert_eq!(
        body(&code).iter().map(|l| l.trim().to_string()).collect::<Vec<_>>(),
        vec![
            "for (_index_1, _key_1) in (&self.xs).into_iter().enumerate() {",
            "if !(_key_1) {",
            "((_index_1 + 1)).fmt(_fmt)?;",
            "}",
            "}"
        ]
    );
}

#[test]
fn the_first_branch_that_holds_is_written() {
    let run = |cond: bool, other: bool| {
        render("{{#if cond}}y{{else if other}}e{{else}}n{{/if}}", "txt", &|c, _| match c {
            "self.cond" => V::Flag(cond),
            "self.other" => V::Flag(other),
            _ => unknown(c),
        })
        .unwrap()
    };
    assert_eq!(run(false, true), "e");
    assert_eq!(run(true, true), "y");
    assert_eq!(run(false, false), "n");
}

#[test]
fn a_dash_takes_the_whitespace_on_its_side() {
    let values = |c: &str, _: &[usize]| match c {
        "self.x" => text("X"),
        "self.y" => text("Y"),
        _ => unknown(c),
    };
    assert_eq!(render(" a {{- x -}} b {{ y }} c ", "txt", &values).unwrap(), " aXb Y c ");
    assert_eq!(render(" a {{ x }} b", "txt", &values).unwrap(), " a X b");
    assert_eq!(render("a {{- x }} b", "txt", &values).unwrap(), "aX b");
    assert_eq!(render("a {{ x -}} b", "txt", &values).unwrap(), "a Xb");
    assert_eq!(render("{{ x }} \n {{- y }}", "txt", &values).unwrap(), "XY");
    assert_eq!(render("{{ x -}} \n {{ y }}", "txt", &values).unwrap(), "XY");
    assert_eq!(render("{{ x }} \n {{ y }}", "txt", &values).unwrap(), "X \n Y");
    assert_eq!(render("a \n{{! gone !}}\n b", "txt", &values).unwrap(), "ab");
}

#[test]
fn text_without_tags_is_rendered_as_it_is() {
    for src in ["foo", "  foo  ", " \n\t", "a { b } c\n", "say \"hi\" \\ there", "{ {", "ünï"] {
        assert_eq!(render(src, "txt", &|c, _| unknown(c)).unwrap(), src);
        let code = compile(src, "html");
        assert!(code.contains(&format!("fn size_hint() -> usize {{\n        {}\n", src.len())));
    }
    assert_eq!(body(&compile("", "txt")).len(), 0);
}

#[test]
fn the_size_hint_counts_the_literal_bytes() {
    let code = compile("ab{{ x }}cde{{#if y}}fg{{/if}}", "txt");
    assert!(code.contains("fn size_hint() -> usize {\n        7\n"));
}

#[test]
fn a_partial_is_written_in_the_place_of_its_tag() {
    let strs = vec!["foo", "bar"];
    let code = compile_all(
        "dir/T.html",
        true,
        &[
            ("dir/T.html", "{{#each strs}}\n  {{> included }}{{/each}}"),
            ("dir/included.html", "INCLUDED: {{ key }}{{ index }}"),
        ],
    )
    .unwrap();
    let r = run(&code, &|c, i| match c {
        "for (_index_1, _key_1) in (&self.strs).into_iter().enumerate() {" => {
            V::Num(strs.len() as i64)
        }
        "_key_1" => text(strs[i[0]]),
        "(_index_1 + 1)" => V::Num((i[0] + 1) as i64),
        _ => unknown(c),
    });
    assert_eq!(r.unwrap(), "\n  INCLUDED: foo1\n  INCLUDED: bar2");
}

#[test]
fn a_partial_with_an_argument_reads_its_fields() {
    let code = compile_all(
        "T.txt",
        false,
        &[
            ("T.txt", "{{#with hold}}{{> p deep }}{{ foo }}{{/with}}"),
            ("p.txt", "{{ foo }}{{ let a = bar }}{{ a }}"),
        ],
    )
    .unwrap();
    assert_eq!(
        body(&code).iter().map(|l| l.trim().to_string()).collect::<Vec<_>>(),
        vec![
            "(self.hold.deep.foo).fmt(_fmt)?;",
            "let a = self.hold.deep.bar;",
            "(a).fmt(_fmt)?;",
            "(self.hold.foo).fmt(_fmt)?;"
        ]
    );
}

#[test]
fn a_name_bound_in_a_body_is_a_field_again_after_it() {
    let code = compile(
        "{{ v }}{{#if let Some(v) = w}}{{ v }}{{/if}}{{ v }}{{ let v = 1 }}{{ v }}",
        "txt",
    );
    assert_eq!(
        body(&code).iter().map(|l| l.trim().to_string()).collect::<Vec<_>>(),
        vec![
            "(self.v).fmt(_fmt)?;",
            "if let Some(v) = self.w {",
            "(v).fmt(_fmt)?;",
            "}",
            "(self.v).fmt(_fmt)?;",
            "let v = 1;",
            "(v).fmt(_fmt)?;"
        ]
    );
}

fn reason(src: &str) -> Reason {
    compile_all("T.txt", false, &[("T.txt", src)]).unwrap_err()
}

#[test]
fn templates_are_refused_for_each_reason() {
    assert_eq!(reason("{{#foo bar}}x{{/foo}}"), Reason::UnknownHelper);
    assert_eq!(reason("{{> nowhere }}"), Reason::MissingPartial);
    assert_eq!(reason("{{> T }}"), Reason::CircularPartial);
    assert_eq!(reason("{{ super::a }}"), Reason::SuperAtTop);
    assert_eq!(reason("{{#with a}}{{ super::super::b }}{{/with}}"), Reason::SuperWithoutParent);
    assert_eq!(reason("{{ match a { | 1 => 2, _ => 3 } }}"), Reason::LeadingVert);
    assert_eq!(reason("{{ match a { b if c => 1, _ => 2 } }}"), Reason::Guard);
    assert_eq!(reason("{{ let a @ 1 = b }}"), Reason::Subpattern);
    assert_eq!(reason("{{ <T as U>::x }}"), Reason::QSelf);
    assert_eq!(reason("{{ async { 1 } }}"), Reason::Async);
    assert_eq!(reason("{{ #[a] b }}"), Reason::Attribute);
}

#[test]
fn the_implementations_stand_around_the_body() {
    let env = Env {
        html: true,
        config: Config::new(b"", None),
        ctx: Context { paths: vec![b"a/T.html".to_vec()], trees: vec![trees(parse("x").unwrap())] },
    };
    let s = Struct {
        ident: b"T".to_vec(),
        impl_generics: b"< 'a >".to_vec(),
        ty_generics: b"< 'a >".to_vec(),
        where_clause: b"where 'a : 'static".to_vec(),
    };
    let code = String::from_utf8(generate(&env, &s, &b"a/T.html".to_vec(), true).unwrap()).unwrap();
    assert_eq!(
        code,
        "impl< 'a > ::std::fmt::Display for T< 'a > where 'a : 'static {
    fn fmt(&self, _fmt: &mut ::std::fmt::Formatter) -> ::std::fmt::Result {
        _fmt.write_str(\"x\")?;
        Ok(())
    }
}
impl< 'a > ::yarte::Template for T< 'a > where 'a : 'static {
    fn mime() -> &'static str {
        \"text/html\"
    }
    fn size_hint() -> usize {
        1
    }
}
impl< 'a > ::yarte::actix_web::Responder for T< 'a > where 'a : 'static {
    type Item = ::yarte::actix_web::HttpResponse;
    type Error = ::yarte::actix_web::Error;
    fn respond_to<S>(self, _req: &::yarte::actix_web::HttpRequest<S>) -> ::std::result::Result<Self::Item, Self::Error> {
        self.render().map(|s| Self::Item::Ok().content_type(Self::mime()).body(s)).map_err(|_| ::yarte::actix_web::ErrorInternalServerError(\"Template parsing error\"))
    }
}
"
    );
    assert_eq!(generate(&env, &s, &b"other.html".to_vec(), false), Err(Reason::MissingPartial));
}

#[test]
fn names_bound_inside_a_fragment_end_with_it() {
    let last = |src: &str| body(&compile(src, "txt")).last().unwrap().trim().to_string();
    assert_eq!(last("{{ let f = |a| a + b }}{{ a }}"), "(self.a).fmt(_fmt)?;");
    assert_eq!(last("{{ let f = |a| a + b }}{{ f }}"), "(f).fmt(_fmt)?;");
    assert_eq!(
        last("{{ let u = while let Some(x) = y.pop() { x; } }}{{ x }}"),
        "(self.x).fmt(_fmt)?;"
    );
    assert_eq!(
        last("{{ let m = match o { Some(z) => z, _ => 0 } }}{{ z }}"),
        "(self.z).fmt(_fmt)?;"
    );
    assert_eq!(
        last("{{ let s = { let t = 1; t } }}{{ t }}"),
        "(self.t).fmt(_fmt)?;"
    );
    assert_eq!(
        last("{{ let n = for (i, j) in ps { i; } }}{{ i }}"),
        "(self.i).fmt(_fmt)?;"
    );
    let code = compile("{{ let u = while let Some(x) = y.pop() { x; } }}", "txt");
    assert_eq!(
        body(&code)[0].trim(),
        "let u =  while let Some(x) = self.y.pop() { x; };"
    );
}

fn build(root: (&str, &str), files: &[(&str, &str)]) -> Result<String, CompileError> {
    let file = |p: &str, t: &str| File { path: p.as_bytes().to_vec(), text: t.as_bytes().to_vec() };
    let all: Vec<File> = files.iter().map(|(p, t)| file(p, t)).collect();
    let s = Struct {
        ident: b"T".to_vec(),
        impl_generics: Vec::new(),
        ty_generics: Vec::new(),
        where_clause: Vec::new(),
    };
    build_template(
        Config::new(b"/c", None),
        &all,
        file(root.0, root.1),
        true,
        &s,
        false,
        &|t: &Vec<u8>| host_expr(t),
        &|t: &Vec<u8>| host_stmt(t),
    )
    .map(|c| String::from_utf8(c).unwrap())
}

#[test]
fn from_files_to_code() {
    let files = [
        ("/c/templates/list.html", "<ul>{{#each items}}{{> item }}{{/each}}</ul>  \n"),
        ("/c/templates/item.html", "<li>{{ key }}</li>\n"),
        ("/c/templates/broken.html", "{{#each x}}"),
        ("/c/templates/odd.html", "{{#shout x}}{{/shout}}"),
    ];
    let code = build(("/c/templates/list.html", "<ul>{{#each items}}{{> item }}{{/each}}</ul>"), &files)
        .unwrap();
    let items = vec!["a<", "b"];
    let r = run(&code, &|c, i| match c {
        "for _key_1 in (&self.items).into_iter() {" => V::Num(items.len() as i64),
        "_key_1" => text(items[i[0]]),
        _ => unknown(c),
    });
    assert_eq!(r.unwrap(), "<ul><li>a&lt;</li>\n<li>b</li>\n</ul>");

    match build(("T.html", "{{> missing }}"), &files) {
        Err(CompileError::Load(e)) => assert_eq!(e.kind, LoadErrorKind::TemplateNotFound),
        other => panic!("{:?}", other),
    }
    match build(("T.html", "a{{> broken }}"), &files) {
        Err(CompileError::Parse(k, e)) => {
            assert_eq!(k, 1);
            assert_eq!(e.kind, ErrorKind::UnclosedBlock);
        }
        other => panic!("{:?}", other),
    }
    assert_eq!(build(("T.html", "{{> odd }}"), &files), Err(CompileError::Generate(Reason::UnknownHelper)));
}

#[test]
fn templates_that_include_each_other_are_refused() {
    let files = [
        ("/c/templates/a.html", "A{{> b }}"),
        ("/c/templates/b.html", "B{{> a }}"),
    ];
    match build(("/c/templates/a.html", "A{{> b }}"), &files) {
        Err(CompileError::Load(e)) => {
            assert_eq!(e.kind, LoadErrorKind::Circular);
            assert_eq!(e.from, b"/c/templates/b.html".to_vec());
            assert_eq!(e.name, b"a".to_vec());
        }
        other => panic!("{:?}", other),
    }
}

#[test]
fn a_let_in_a_condition_sees_the_names_around_it() {
    let code = compile("{{ let r = { let a = 1; if let Some(b) = f(a) { b } else { a } } }}", "txt");
    assert_eq!(
        body(&code)[0].trim(),
        "let r =  { let a = 1; if let Some(b) = f(a) { b } else { a } };"
    );
}
