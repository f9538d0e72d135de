//! The implementations that are generated for a record: the formatting
//! routine with the rendering code in it, the template contract, and if asked
//! for, the adapter that answers a web request.
use vstd::prelude::*;
use crate::analysis::{position, Env};
use crate::buffer::{with_line, BufferM};
use crate::bytes::same;
use crate::config::{extension, extension_of};
use crate::generator::{g_flush, g_flush_ws, g_line, handle_from, GenM, Generator};
use crate::lower::{bytes_of, names_view, text, Reason};
use crate::machine::MachineM;
use crate::text::{decimal, digits, quote, quoted};

verus! {

/// The record that the template is compiled for, as it stands in the head of
/// an implementation: its name and its generics as they are written there.
#[derive(Debug, PartialEq)]
pub struct Struct {
    pub ident: Vec<u8>,
    /// The generics after `impl`.
    pub impl_generics: Vec<u8>,
    /// The generics after the record's name.
    pub ty_generics: Vec<u8>,
    /// The `where` clause.
    pub where_clause: Vec<u8>,
}

/// The MIME type that the MIME map holds for an extension.
pub uninterp spec fn mime_of_ext(ext: Seq<u8>) -> Option<Seq<u8>>;

/// `mime_guess::get_mime_type_str` on `ext` read as UTF-8: the MIME type
/// that goes with the extension, and none for an extension that is empty or
/// unknown. An extension that is no UTF-8 has none.
#[verifier::external_body]
fn mime_type(ext: &[u8]) -> (r: Option<Vec<u8>>)
    ensures
        match r {
            Some(m) => mime_of_ext(ext@) == Some(m@),
            None => mime_of_ext(ext@) is None,
        },
        ext@.len() == 0 ==> r is None,
{
    match std::str::from_utf8(ext) {
        Ok(s) => match mime_guess::get_mime_type_str(s) {
            Some(m) => Some(m.as_bytes().to_vec()),
            None => None,
        },
        Err(_) => None,
    }
}

/// The MIME type of a template: what the MIME map holds for its extension,
/// and `text/plain` if it holds nothing.
pub open spec fn mime_or_plain(known: Option<Seq<u8>>) -> Seq<u8> {
    match known {
        Some(m) => m,
        None => text("text/plain"),
    }
}

/// The extension that the MIME type is looked up for: that of the path, or
/// `txt` for a path without one.
pub open spec fn mime_extension(path: Seq<u8>) -> Seq<u8> {
    match extension(path) {
        Some(e) => e,
        None => text("txt"),
    }
}

/// The MIME type of a template, given what the MIME map holds for its
/// extension.
pub fn mime_or_default(known: Option<Vec<u8>>) -> (r: Vec<u8>)
    ensures
        r@ == mime_or_plain(
            match known {
                Some(m) => Some(m@),
                None => None,
            },
        ),
{
    match known {
        Some(m) => m,
        None => bytes_of("text/plain"),
    }
}

/// The MIME type of the template at `path`.
pub fn get_mime(path: &Vec<u8>) -> (r: Vec<u8>)
    ensures
        r@ == mime_or_plain(mime_of_ext(mime_extension(path@))),
{
    let ext = match extension_of(path.as_slice()) {
        Some(e) => e,
        None => bytes_of("txt"),
    };
    mime_or_default(mime_type(ext.as_slice()))
}

/// The first line of the implementation of `target` for the record.
pub open spec fn head_line(s: Struct, target: Seq<u8>) -> Seq<u8> {
    text("impl") + s.impl_generics@ + text(" ") + target + text(" for ") + s.ident@
        + s.ty_generics@ + text(" ") + s.where_clause@ + text(" {")
}

impl Struct {
    /// Writes the first line of the implementation of `t` for the record.
    pub fn implement_head(&self, t: &str, g: &mut Generator)
        ensures
            final(g)@ == g_line(old(g)@, head_line(*self, text(t))),
    {
        let mut code = bytes_of("impl");
        code.extend_from_slice(self.impl_generics.as_slice());
        code.extend_from_slice(" ".as_bytes());
        code.extend_from_slice(t.as_bytes());
        code.extend_from_slice(" for ".as_bytes());
        code.extend_from_slice(self.ident.as_slice());
        code.extend_from_slice(self.ty_generics.as_slice());
        code.extend_from_slice(" ".as_bytes());
        code.extend_from_slice(self.where_clause.as_slice());
        code.extend_from_slice(" {".as_bytes());
        proof {
            assert(code@ =~= head_line(*self, text(t)));
        }
        g.out.writeln(code.as_slice());
    }
}

/// The generator after a line of fixed text.
pub open spec fn said(g: GenM, s: &str) -> GenM {
    g_line(g, text(s))
}

/// The generator after the formatting routine: the rendering code of the
/// nodes, and whatever is pending after them.
pub open spec fn display_spec(env: Env, s: Struct, nodes: Seq<crate::analysis::Tree>, g: GenM)
    -> Result<GenM, Reason> {
    match handle_from(
        env,
        nodes,
        0,
        said(
            g_line(g, head_line(s, text("::std::fmt::Display"))),
            "fn fmt(&self, _fmt: &mut ::std::fmt::Formatter) -> ::std::fmt::Result {",
        ),
        env.ctx.paths@.len(),
    ) {
        Err(r) => Err(r),
        Ok(g1) => Ok(said(said(said(finished(g1, env.html), "Ok(())"), "}"), "}")),
    }
}

/// The generator at the end of the template: the whitespace that the last
/// literal ends with is written, and so is all that is pending.
pub open spec fn finished(g: GenM, html: bool) -> GenM {
    g_flush(g_flush_ws(g, (false, false)), html)
}

/// The generator after the template contract: the MIME type and the count of
/// literal bytes that the formatting routine writes.
pub open spec fn template_spec(s: Struct, mime: Seq<u8>, g: GenM) -> GenM {
    said(
        said(
            g_line(
                said(
                    said(
                        g_line(
                            said(
                                g_line(g, head_line(s, text("::yarte::Template"))),
                                "fn mime() -> &'static str {",
                            ),
                            quoted(mime),
                        ),
                        "}",
                    ),
                    "fn size_hint() -> usize {",
                ),
                digits(g.size_hint as nat),
            ),
            "}",
        ),
        "}",
    )
}

/// The generator after the adapter that answers a web request.
pub open spec fn responder_spec(s: Struct, g: GenM) -> GenM {
    said(
        said(
            said(
                said(
                    said(
                        said(
                            g_line(g, head_line(s, text("::yarte::actix_web::Responder"))),
                            "type Item = ::yarte::actix_web::HttpResponse;",
                        ),
                        "type Error = ::yarte::actix_web::Error;",
                    ),
                    "fn respond_to<S>(self, _req: &::yarte::actix_web::HttpRequest<S>) -> ::std::result::Result<Self::Item, Self::Error> {",
                ),
                "self.render().map(|s| Self::Item::Ok().content_type(Self::mime()).body(s)).map_err(|_| ::yarte::actix_web::ErrorInternalServerError(\"Template parsing error\"))",
            ),
            "}",
        ),
        "}",
    )
}

/// The generated code for the template at `path`, or the reason why there is
/// none.
pub open spec fn generate_spec(env: Env, s: Struct, path: Seq<u8>, responder: bool) -> Result<
    Seq<u8>,
    Reason,
> {
    match position(names_view(env.ctx.paths@), path, 0) {
        None => Err(Reason::MissingPartial),
        Some(k) => if k >= env.ctx.trees@.len() {
            Err(Reason::MissingPartial)
        } else {
            match display_spec(env, s, env.ctx.trees@[k]@, start(path)) {
                Err(r) => Err(r),
                Ok(g) => {
                    let g1 = template_spec(s, mime_or_plain(mime_of_ext(mime_extension(path))), g);
                    Ok(
                        if responder {
                            responder_spec(s, g1)
                        } else {
                            g1
                        }.out.buf,
                    )
                },
            }
        },
    }
}

/// The generator before anything is written.
pub open spec fn start(path: Seq<u8>) -> GenM {
    GenM {
        m: MachineM {
            buf: Seq::empty(),
            scp: seq![seq![text("self")]],
            shelf: Seq::empty(),
            flags: Seq::empty(),
            wrapped: true,
            will_wrap: true,
        },
        on: Seq::empty(),
        pending: Seq::empty(),
        next_ws: None,
        skip_ws: false,
        on_path: path,
        size_hint: 0,
        out: BufferM { buf: Seq::empty(), indent: 0, start: true },
    }
}

fn say(g: &mut Generator, s: &str)
    ensures
        final(g)@ == said(old(g)@, s),
{
    g.out.writeln(s.as_bytes());
}

fn find(paths: &Vec<Vec<u8>>, p: &Vec<u8>) -> (r: Option<usize>)
    ensures
        match r {
            Some(k) => position(names_view(paths@), p@, 0) == Some(k as int) && k < paths@.len(),
            None => position(names_view(paths@), p@, 0) is None,
        },
{
    let mut k: usize = 0;
    while k < paths.len()
        invariant
            k <= paths@.len(),
            position(names_view(paths@), p@, k as int) == position(names_view(paths@), p@, 0),
        decreases paths@.len() - k,
    {
        proof {
            assert(names_view(paths@)[k as int] == paths@[k as int]@);
        }
        if same(paths[k].as_slice(), p.as_slice()) {
            return Some(k);
        }
        k += 1;
    }
    None
}

/// Generates the code for the record `s` from the parsed templates in
/// `env`, of which the one at `path` is the root: the formatting routine, the
/// template contract and, if `responder`, the adapter for web requests.
pub fn generate(env: &Env, s: &Struct, path: &Vec<u8>, responder: bool) -> (r: Result<
    Vec<u8>,
    Reason,
>)
    ensures
        match r {
            Ok(code) => generate_spec(*env, *s, path@, responder) == Ok::<Seq<u8>, Reason>(code@),
            Err(e) => generate_spec(*env, *s, path@, responder) == Err::<Seq<u8>, Reason>(e),
        },
{
    let k = match find(&env.ctx.paths, path) {
        None => {
            return Err(Reason::MissingPartial);
        },
        Some(k) => k,
    };
    if k >= env.ctx.trees.len() {
        return Err(Reason::MissingPartial);
    }
    let mut g = Generator::new(crate::lower::dup(path));
    s.implement_head("::std::fmt::Display", &mut g);
    say(&mut g, "fn fmt(&self, _fmt: &mut ::std::fmt::Formatter) -> ::std::fmt::Result {");
    g.handle(env, &env.ctx.trees[k], env.ctx.paths.len())?;
    g.finish(env.html);
    say(&mut g, "Ok(())");
    say(&mut g, "}");
    say(&mut g, "}");
    let mime = get_mime(path);
    s.implement_head("::yarte::Template", &mut g);
    say(&mut g, "fn mime() -> &'static str {");
    let mut m: Vec<u8> = Vec::new();
    quote(&mut m, mime.as_slice());
    g.out.writeln(m.as_slice());
    say(&mut g, "}");
    say(&mut g, "fn size_hint() -> usize {");
    let d = decimal(g.size_hint);
    g.out.writeln(d.as_slice());
    say(&mut g, "}");
    say(&mut g, "}");
    if responder {
        s.implement_head("::yarte::actix_web::Responder", &mut g);
        say(&mut g, "type Item = ::yarte::actix_web::HttpResponse;");
        say(&mut g, "type Error = ::yarte::actix_web::Error;");
        say(
            &mut g,
            "fn respond_to<S>(self, _req: &::yarte::actix_web::HttpRequest<S>) -> ::std::result::Result<Self::Item, Self::Error> {",
        );
        say(
            &mut g,
            "self.render().map(|s| Self::Item::Ok().content_type(Self::mime()).body(s)).map_err(|_| ::yarte::actix_web::ErrorInternalServerError(\"Template parsing error\"))",
        );
        say(&mut g, "}");
        say(&mut g, "}");
    }
    Ok(g.out.buf)
}

} // verus!
