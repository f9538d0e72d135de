//! The template metadata on the record: where the template comes from, how
//! it escapes, and what is printed while it is compiled.
use vstd::prelude::*;
use crate::bytes::same;
use crate::config::{extension, extension_of, found, Config, DOT};
use crate::lower::{dup, names_view, text};

verus! {

broadcast use vstd::std_specs::vec::group_vec_axioms;

/// A literal in an attribute.
#[derive(Debug, PartialEq)]
pub enum Lit {
    Str(Vec<u8>),
    Bool(bool),
    Other,
}

/// An attribute as far as it can be read: a word, a list, or a name with a
/// value.
#[derive(Debug, PartialEq)]
pub enum Meta {
    Word(Vec<u8>),
    List(Vec<u8>, Vec<NestedMeta>),
    NameValue(Vec<u8>, Lit),
}

/// An element of a list in an attribute.
#[derive(Debug, PartialEq)]
pub enum NestedMeta {
    Meta(Meta),
    Literal(Lit),
}

/// Where the template's text comes from.
#[derive(Debug, PartialEq)]
pub enum Source {
    /// A file, found among the template directories.
    Path(Vec<u8>),
    /// The text itself.
    Source(Vec<u8>),
}

/// Whether expressions are escaped for HTML.
#[derive(Debug, PartialEq, Eq, Clone, Copy, Structural)]
pub enum EscapeMode {
    /// Expressions are escaped.
    Html,
    /// Nothing is escaped.
    Off,
}

/// What is printed while the template is compiled.
#[derive(Debug, PartialEq, Eq, Clone, Copy, Structural)]
pub enum Print {
    /// The node tree and the generated code.
    All,
    /// The node tree.
    Ast,
    /// The generated code.
    Code,
    /// Nothing.
    Off,
}

/// Why the metadata is refused.
#[derive(Debug, PartialEq, Eq, Clone, Copy, Structural)]
pub enum InputError {
    /// An attribute of the record cannot be read.
    Uninterpretable,
    /// The record has no `template` attribute.
    NoTemplateAttribute,
    /// The `template` attribute is no list.
    NotAList,
    /// `path` is no string.
    PathNotString,
    /// `source` is no string.
    SourceNotString,
    /// Both `path` and `source` are given, or one of them twice.
    BothSourceAndPath,
    /// `print` is no string.
    PrintNotString,
    /// `print` is none of `all`, `ast`, `code`, `none`.
    InvalidPrint,
    /// `escape` is no string.
    EscapeNotString,
    /// `escape` is neither `html` nor `none`.
    InvalidEscape,
    /// `ext` is no string.
    ExtNotString,
    /// `assured` is no boolean.
    AssuredNotBool,
    /// A key is none of those that are understood.
    UnsupportedKey,
    /// Neither `path` nor `source` is given.
    MissingSource,
    /// `ext` is given beside `path`.
    ExtWithPath,
    /// `source` is given without `ext`.
    SourceWithoutExt,
    /// The file that `path` names is in no template directory.
    TemplateNotFound,
}

/// What the metadata of a record says.
#[derive(Debug, PartialEq)]
pub struct TemplateInput {
    pub source: Source,
    pub print: Print,
    pub escaping: EscapeMode,
    pub ext: Option<Vec<u8>>,
    /// The path of the template: of the file, or made of the record's name
    /// and `ext` for a template given as text.
    pub path: Vec<u8>,
}

pub enum SourceM {
    Path(Seq<u8>),
    Source(Seq<u8>),
}

pub struct InputM {
    pub source: SourceM,
    pub print: Print,
    pub escaping: EscapeMode,
    pub ext: Option<Seq<u8>>,
    pub path: Seq<u8>,
}

/// What has been read of the `template` attribute so far.
pub struct Settings {
    pub source: Option<Source>,
    pub print: Print,
    pub escaping: Option<EscapeMode>,
    pub ext: Option<Vec<u8>>,
    pub assured: Option<bool>,
}

pub struct SettingsM {
    pub source: Option<SourceM>,
    pub print: Print,
    pub escaping: Option<EscapeMode>,
    pub ext: Option<Seq<u8>>,
    pub assured: Option<bool>,
}

pub open spec fn source_view(s: Source) -> SourceM {
    match s {
        Source::Path(p) => SourceM::Path(p@),
        Source::Source(t) => SourceM::Source(t@),
    }
}

pub open spec fn bytes_view(o: Option<Vec<u8>>) -> Option<Seq<u8>> {
    match o {
        Some(v) => Some(v@),
        None => None,
    }
}

impl Settings {
    pub open spec fn view(&self) -> SettingsM {
        SettingsM {
            source: match self.source {
                Some(s) => Some(source_view(s)),
                None => None,
            },
            print: self.print,
            escaping: self.escaping,
            ext: bytes_view(self.ext),
            assured: self.assured,
        }
    }
}

impl TemplateInput {
    pub open spec fn view(&self) -> InputM {
        InputM {
            source: source_view(self.source),
            print: self.print,
            escaping: self.escaping,
            ext: bytes_view(self.ext),
            path: self.path@,
        }
    }
}

/// The extensions of templates that escape HTML unless told otherwise.
pub open spec fn is_html_extension(e: Seq<u8>) -> bool {
    e == text("html") || e == text("htm") || e == text("xml") || e == text("hbs") || e == text(
        "handlebars",
    ) || e == text("mustache")
}

/// How a template at this path escapes if its metadata does not say.
pub open spec fn escape_of_path(path: Seq<u8>) -> EscapeMode {
    match extension(path) {
        Some(e) => if is_html_extension(e) {
            EscapeMode::Html
        } else {
            EscapeMode::Off
        },
        None => EscapeMode::Off,
    }
}

pub open spec fn print_of(s: Seq<u8>) -> Option<Print> {
    if s == text("all") {
        Some(Print::All)
    } else if s == text("ast") {
        Some(Print::Ast)
    } else if s == text("code") {
        Some(Print::Code)
    } else if s == text("none") {
        Some(Print::Off)
    } else {
        None
    }
}

pub open spec fn escape_of(s: Seq<u8>) -> Option<EscapeMode> {
    if s == text("html") {
        Some(EscapeMode::Html)
    } else if s == text("none") {
        Some(EscapeMode::Off)
    } else {
        None
    }
}

/// The `template` attribute among the attributes from the `k`-th on, the last
/// one if there are several; `found` is the one seen before.
pub open spec fn template_attr(attrs: Seq<Option<Meta>>, k: int, seen: Option<Meta>) -> Result<
    Meta,
    InputError,
>
    decreases attrs.len() - k,
{
    if 0 <= k < attrs.len() {
        match attrs[k] {
            None => Err(InputError::Uninterpretable),
            Some(m) => template_attr(
                attrs,
                k + 1,
                if meta_name(m) == text("template") {
                    Some(m)
                } else {
                    seen
                },
            ),
        }
    } else {
        match seen {
            Some(m) => Ok(m),
            None => Err(InputError::NoTemplateAttribute),
        }
    }
}

pub open spec fn meta_name(m: Meta) -> Seq<u8> {
    match m {
        Meta::Word(n) => n@,
        Meta::List(n, _) => n@,
        Meta::NameValue(n, _) => n@,
    }
}

/// The settings after one `key = value`.
pub open spec fn setting(st: SettingsM, key: Seq<u8>, lit: Lit) -> Result<SettingsM, InputError> {
    if key == text("path") {
        match lit {
            Lit::Str(s) => if st.source is Some {
                Err(InputError::BothSourceAndPath)
            } else {
                Ok(SettingsM { source: Some(SourceM::Path(s@)), ..st })
            },
            _ => Err(InputError::PathNotString),
        }
    } else if key == text("source") {
        match lit {
            Lit::Str(s) => if st.source is Some {
                Err(InputError::BothSourceAndPath)
            } else {
                Ok(SettingsM { source: Some(SourceM::Source(s@)), ..st })
            },
            _ => Err(InputError::SourceNotString),
        }
    } else if key == text("print") {
        match lit {
            Lit::Str(s) => match print_of(s@) {
                Some(p) => Ok(SettingsM { print: p, ..st }),
                None => Err(InputError::InvalidPrint),
            },
            _ => Err(InputError::PrintNotString),
        }
    } else if key == text("escape") {
        match lit {
            Lit::Str(s) => match escape_of(s@) {
                Some(e) => Ok(SettingsM { escaping: Some(e), ..st }),
                None => Err(InputError::InvalidEscape),
            },
            _ => Err(InputError::EscapeNotString),
        }
    } else if key == text("ext") {
        match lit {
            Lit::Str(s) => Ok(SettingsM { ext: Some(s@), ..st }),
            _ => Err(InputError::ExtNotString),
        }
    } else if key == text("assured") {
        match lit {
            Lit::Bool(b) => Ok(SettingsM { assured: Some(b), ..st }),
            _ => Err(InputError::AssuredNotBool),
        }
    } else {
        Err(InputError::UnsupportedKey)
    }
}

/// The settings after the elements of the list from the `k`-th on. Only the
/// elements of the form `key = value` count.
pub open spec fn settings_from(items: Seq<NestedMeta>, k: int, st: SettingsM) -> Result<
    SettingsM,
    InputError,
>
    decreases items.len() - k,
{
    if 0 <= k < items.len() {
        match items[k] {
            NestedMeta::Meta(Meta::NameValue(key, lit)) => match setting(st, key@, lit) {
                Ok(st1) => settings_from(items, k + 1, st1),
                Err(e) => Err(e),
            },
            _ => settings_from(items, k + 1, st),
        }
    } else {
        Ok(st)
    }
}

pub open spec fn no_settings() -> SettingsM {
    SettingsM { source: None, print: Print::Off, escaping: None, ext: None, assured: None }
}

/// The input that the settings make for a record named `ident`. `assured`
/// decides over escaping before `escape` does, and `escape` before the path.
pub open spec fn input_of(
    st: SettingsM,
    ident: Seq<u8>,
    dirs: Seq<Seq<u8>>,
    files: Seq<Seq<u8>>,
) -> Result<InputM, InputError> {
    match (st.source, st.ext) {
        (None, _) => Err(InputError::MissingSource),
        (Some(SourceM::Path(_)), Some(_)) => Err(InputError::ExtWithPath),
        (Some(SourceM::Source(_)), None) => Err(InputError::SourceWithoutExt),
        (Some(SourceM::Path(p)), None) => match found(dirs, files, p, None) {
            None => Err(InputError::TemplateNotFound),
            Some(path) => Ok(finished(st, SourceM::Path(p), path)),
        },
        (Some(SourceM::Source(t)), Some(e)) => Ok(
            finished(st, SourceM::Source(t), ident + seq![DOT] + e),
        ),
    }
}

pub open spec fn finished(st: SettingsM, source: SourceM, path: Seq<u8>) -> InputM {
    InputM {
        source,
        print: st.print,
        escaping: match st.assured {
            Some(true) => EscapeMode::Off,
            Some(false) => EscapeMode::Html,
            None => match st.escaping {
                Some(e) => e,
                None => escape_of_path(path),
            },
        },
        ext: st.ext,
        path,
    }
}

/// What the attributes of a record named `ident` say about its template.
pub open spec fn input_spec(
    ident: Seq<u8>,
    attrs: Seq<Option<Meta>>,
    dirs: Seq<Seq<u8>>,
    files: Seq<Seq<u8>>,
) -> Result<InputM, InputError> {
    match template_attr(attrs, 0, None) {
        Err(e) => Err(e),
        Ok(Meta::List(_, items)) => match settings_from(items@, 0, no_settings()) {
            Err(e) => Err(e),
            Ok(st) => input_of(st, ident, dirs, files),
        },
        Ok(_) => Err(InputError::NotAList),
    }
}

fn is(a: &Vec<u8>, s: &str) -> (r: bool)
    ensures
        r == (a@ == text(s)),
{
    same(a.as_slice(), s.as_bytes())
}

impl Print {
    /// The print option of this name.
    pub fn parse(s: &Vec<u8>) -> (r: Option<Print>)
        ensures
            r == print_of(s@),
    {
        if is(s, "all") {
            Some(Print::All)
        } else if is(s, "ast") {
            Some(Print::Ast)
        } else if is(s, "code") {
            Some(Print::Code)
        } else if is(s, "none") {
            Some(Print::Off)
        } else {
            None
        }
    }
}

impl EscapeMode {
    /// The escape mode of this name.
    pub fn parse(s: &Vec<u8>) -> (r: Option<EscapeMode>)
        ensures
            r == escape_of(s@),
    {
        if is(s, "html") {
            Some(EscapeMode::Html)
        } else if is(s, "none") {
            Some(EscapeMode::Off)
        } else {
            None
        }
    }

    /// The escape mode that goes with a path: HTML for the extensions `html`,
    /// `htm`, `xml`, `hbs`, `handlebars` and `mustache`, none for any other.
    pub fn from_path(path: &Vec<u8>) -> (r: EscapeMode)
        ensures
            r == escape_of_path(path@),
    {
        match extension_of(path.as_slice()) {
            Some(e) => {
                if is(&e, "html") || is(&e, "htm") || is(&e, "xml") || is(&e, "hbs") || is(
                    &e,
                    "handlebars",
                ) || is(&e, "mustache") {
                    EscapeMode::Html
                } else {
                    EscapeMode::Off
                }
            },
            None => EscapeMode::Off,
        }
    }
}

fn name_of(m: &Meta) -> (r: &Vec<u8>)
    ensures
        r@ == meta_name(*m),
{
    match m {
        Meta::Word(n) => n,
        Meta::List(n, _) => n,
        Meta::NameValue(n, _) => n,
    }
}

fn find_attr(attrs: &Vec<Option<Meta>>) -> (r: Result<&Meta, InputError>)
    ensures
        match r {
            Ok(m) => template_attr(attrs@, 0, None) == Ok::<Meta, InputError>(*m),
            Err(e) => template_attr(attrs@, 0, None) == Err::<Meta, InputError>(e),
        },
{
    let mut seen: Option<&Meta> = None;
    let mut k: usize = 0;
    while k < attrs.len()
        invariant
            k <= attrs@.len(),
            template_attr(
                attrs@,
                k as int,
                match seen {
                    Some(m) => Some(*m),
                    None => None,
                },
            ) == template_attr(attrs@, 0, None),
        decreases attrs@.len() - k,
    {
        match &attrs[k] {
            None => {
                return Err(InputError::Uninterpretable);
            },
            Some(m) => {
                if is(name_of(m), "template") {
                    seen = Some(m);
                }
            },
        }
        k += 1;
    }
    match seen {
        Some(m) => Ok(m),
        None => Err(InputError::NoTemplateAttribute),
    }
}

/// The outcome of a step that changes settings.
pub open spec fn settled(r: Result<(), InputError>, st: SettingsM) -> Result<
    SettingsM,
    InputError,
> {
    match r {
        Ok(()) => Ok(st),
        Err(e) => Err(e),
    }
}

/// The outcome of reading settings, as what it stands for.
pub open spec fn settings_view(r: Result<Settings, InputError>) -> Result<SettingsM, InputError> {
    match r {
        Ok(s) => Ok(s@),
        Err(e) => Err(e),
    }
}

impl Settings {
    /// Reads the settings from the elements of the `template` list.
    pub fn read(items: &Vec<NestedMeta>) -> (r: Result<Settings, InputError>)
        ensures
            settings_view(r) == settings_from(items@, 0, no_settings()),
    {
        let mut st = Settings {
            source: None,
            print: Print::Off,
            escaping: None,
            ext: None,
            assured: None,
        };
        let mut k: usize = 0;
        while k < items.len()
            invariant
                k <= items@.len(),
                settings_from(items@, k as int, st@) == settings_from(items@, 0, no_settings()),
            decreases items@.len() - k,
        {
            match &items[k] {
                NestedMeta::Meta(Meta::NameValue(key, lit)) => {
                    match st.set(key, lit) {
                        Ok(()) => {},
                        Err(e) => {
                            return Err(e);
                        },
                    }
                },
                _ => {},
            }
            k += 1;
        }
        Ok(st)
    }

    /// Takes one `key = value` into the settings.
    pub fn set(&mut self, key: &Vec<u8>, lit: &Lit) -> (r: Result<(), InputError>)
        ensures
            settled(r, final(self)@) == setting(old(self)@, key@, *lit),
    {
        if is(key, "path") {
            match lit {
                Lit::Str(s) => {
                    if self.source.is_some() {
                        return Err(InputError::BothSourceAndPath);
                    }
                    self.source = Some(Source::Path(dup(s)));
                    Ok(())
                },
                _ => Err(InputError::PathNotString),
            }
        } else if is(key, "source") {
            match lit {
                Lit::Str(s) => {
                    if self.source.is_some() {
                        return Err(InputError::BothSourceAndPath);
                    }
                    self.source = Some(Source::Source(dup(s)));
                    Ok(())
                },
                _ => Err(InputError::SourceNotString),
            }
        } else if is(key, "print") {
            match lit {
                Lit::Str(s) => match Print::parse(s) {
                    Some(p) => {
                        self.print = p;
                        Ok(())
                    },
                    None => Err(InputError::InvalidPrint),
                },
                _ => Err(InputError::PrintNotString),
            }
        } else if is(key, "escape") {
            match lit {
                Lit::Str(s) => match EscapeMode::parse(s) {
                    Some(e) => {
                        self.escaping = Some(e);
                        Ok(())
                    },
                    None => Err(InputError::InvalidEscape),
                },
                _ => Err(InputError::EscapeNotString),
            }
        } else if is(key, "ext") {
            match lit {
                Lit::Str(s) => {
                    self.ext = Some(dup(s));
                    Ok(())
                },
                _ => Err(InputError::ExtNotString),
            }
        } else if is(key, "assured") {
            match lit {
                Lit::Bool(b) => {
                    self.assured = Some(*b);
                    Ok(())
                },
                _ => Err(InputError::AssuredNotBool),
            }
        } else {
            Err(InputError::UnsupportedKey)
        }
    }
}

/// The outcome of reading the metadata, as what it stands for.
pub open spec fn input_view(r: Result<TemplateInput, InputError>) -> Result<InputM, InputError> {
    match r {
        Ok(i) => Ok(i@),
        Err(e) => Err(e),
    }
}

impl TemplateInput {
    /// Reads the template metadata of a record named `ident` from its
    /// attributes. A template given by `path` is looked up among `files`
    /// below the directories of `config`.
    pub fn new(ident: &Vec<u8>, attrs: &Vec<Option<Meta>>, config: &Config, files: &Vec<Vec<u8>>)
        -> (r: Result<TemplateInput, InputError>)
        ensures
            input_view(r) == input_spec(
                ident@,
                attrs@,
                names_view(config.dirs@),
                names_view(files@),
            ),
    {
        let items = match find_attr(attrs)? {
            Meta::List(_, items) => items,
            _ => {
                return Err(InputError::NotAList);
            },
        };
        let st = Settings::read(items)?;
        Self::build(st, ident, config, files)
    }

    /// Makes the input from the settings: checks that `path` and `source`,
    /// and `ext` with them, are given as they must be, and finds the path.
    pub fn build(st: Settings, ident: &Vec<u8>, config: &Config, files: &Vec<Vec<u8>>) -> (r:
        Result<TemplateInput, InputError>)
        ensures
            input_view(r) == input_of(
                st@,
                ident@,
                names_view(config.dirs@),
                names_view(files@),
            ),
    {
        let Settings { source, print, escaping, ext, assured } = st;
        let source = match source {
            None => {
                return Err(InputError::MissingSource);
            },
            Some(s) => s,
        };
        let path = match (&source, &ext) {
            (Source::Path(_), Some(_)) => {
                return Err(InputError::ExtWithPath);
            },
            (Source::Source(_), None) => {
                return Err(InputError::SourceWithoutExt);
            },
            (Source::Path(p), None) => match config.find_template(p.as_slice(), None, files) {
                None => {
                    return Err(InputError::TemplateNotFound);
                },
                Some(path) => path,
            },
            (Source::Source(_), Some(e)) => {
                let mut path = dup(ident);
                path.push(DOT);
                path.extend_from_slice(e.as_slice());
                proof {
                    assert(path@ =~= ident@ + seq![DOT] + e@);
                }
                path
            },
        };
        let escaping = match assured {
            Some(true) => EscapeMode::Off,
            Some(false) => EscapeMode::Html,
            None => match escaping {
                Some(e) => e,
                None => EscapeMode::from_path(&path),
            },
        };
        Ok(TemplateInput { source, print, escaping, ext, path })
    }
}

} // verus!
