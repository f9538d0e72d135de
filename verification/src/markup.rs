//! What generated code calls when it renders: the adapter that escapes a
//! value for HTML, and the rendering contract of a record.
//!
//! Text is escaped: each of `& < > " ' /` is replaced by its entity. Numbers
//! and booleans are written as they are.
use vstd::prelude::*;
use vstd::string::StringSliceAdditionalSpecFns;
use crate::lower::text;
use crate::text::digits;

verus! {

/// A value on its way into rendered output.
#[derive(Debug)]
pub enum MarkupAsStr<'a> {
    /// Text; it is escaped.
    UnSafe(&'a str),
    /// A number or a boolean; it is written as it is.
    Safe(SafeTypes<'a>),
}

/// The values that need no escaping.
#[derive(Debug)]
pub enum SafeTypes<'a> {
    Usize(&'a usize),
    U8(&'a u8),
    U16(&'a u16),
    U32(&'a u32),
    U64(&'a u64),
    Isize(&'a isize),
    I8(&'a i8),
    I16(&'a i16),
    I32(&'a i32),
    I64(&'a i64),
    Bool(&'a bool),
}

/// The rendering contract that generated code implements for a record.
pub trait Template {
    /// The text that the record renders to. A record says what it is; where
    /// it does not, nothing is known of the text.
    open spec fn rendered(&self) -> Seq<u8> {
        arbitrary()
    }

    /// Writes the rendered template to `sink`, after what `sink` holds.
    fn render_into(&self, sink: &mut Vec<u8>)
        ensures
            final(sink)@ == old(sink)@ + self.rendered(),
    ;

    /// The MIME type that goes with the template's extension.
    fn mime() -> &'static str;

    /// How many bytes of the rendered template are literal text.
    fn size_hint() -> usize;

    /// The rendered template: what `render_into` writes, in a buffer of its
    /// own that is made to hold `size_hint` bytes.
    fn render(&self) -> (r: Vec<u8>)
        ensures
            r@ == self.rendered(),
    {
        let mut buf: Vec<u8> = Vec::with_capacity(Self::size_hint());
        self.render_into(&mut buf);
        proof {
            assert(Seq::<u8>::empty() + self.rendered() =~= self.rendered());
        }
        buf
    }
}

/// What stands for a byte in escaped text: the entity of `"`, `&`, `'`, `/`,
/// `<` and `>`, and any other byte itself.
pub open spec fn entity(b: u8) -> Seq<u8> {
    if b == 0x22 {
        seq![0x26u8, 0x71u8, 0x75u8, 0x6fu8, 0x74u8, 0x3bu8]
    } else if b == 0x26 {
        seq![0x26u8, 0x61u8, 0x6du8, 0x70u8, 0x3bu8]
    } else if b == 0x27 {
        seq![0x26u8, 0x23u8, 0x78u8, 0x32u8, 0x37u8, 0x3bu8]
    } else if b == 0x2f {
        seq![0x26u8, 0x23u8, 0x78u8, 0x32u8, 0x66u8, 0x3bu8]
    } else if b == 0x3c {
        seq![0x26u8, 0x6cu8, 0x74u8, 0x3bu8]
    } else if b == 0x3e {
        seq![0x26u8, 0x67u8, 0x74u8, 0x3bu8]
    } else {
        seq![b]
    }
}

/// The bytes of `s` from the `k`-th on, escaped.
pub open spec fn escaped_from(s: Seq<u8>, k: int) -> Seq<u8>
    decreases s.len() - k,
{
    if 0 <= k < s.len() {
        entity(s[k]) + escaped_from(s, k + 1)
    } else {
        Seq::empty()
    }
}

/// Escaped text.
pub open spec fn escaped(s: Seq<u8>) -> Seq<u8> {
    escaped_from(s, 0)
}

/// One of the bytes that escaped text is free of.
pub open spec fn is_markup(b: u8) -> bool {
    b == 0x22 || b == 0x27 || b == 0x2f || b == 0x3c || b == 0x3e
}

/// Escaped text holds none of `< > " ' /`, whatever the text was.
pub proof fn lemma_escape_total(s: Seq<u8>, k: int)
    requires
        0 <= k,
    ensures
        forall|j: int| 0 <= j < escaped_from(s, k).len() ==> !is_markup(#[trigger] escaped_from(s, k)[j]),
    decreases s.len() - k,
{
    if k < s.len() {
        lemma_escape_total(s, k + 1);
        let e = entity(s[k]);
        let r = escaped_from(s, k + 1);
        assert forall|j: int| 0 <= j < (e + r).len() implies !is_markup(#[trigger] (e + r)[j]) by {
            if j < e.len() {
                assert((e + r)[j] == e[j]);
            } else {
                assert((e + r)[j] == r[j - e.len()]);
            }
        }
    }
}

/// Text that holds none of the six bytes is its own escaped form.
pub proof fn lemma_escape_plain(s: Seq<u8>, k: int)
    requires
        0 <= k <= s.len(),
        forall|j: int| k <= j < s.len() ==> !is_markup(#[trigger] s[j]) && s[j] != 0x26,
    ensures
        escaped_from(s, k) == s.subrange(k, s.len() as int),
    decreases s.len() - k,
{
    if k < s.len() {
        lemma_escape_plain(s, k + 1);
        assert(seq![s[k]] + s.subrange(k + 1, s.len() as int) =~= s.subrange(k, s.len() as int));
    } else {
        assert(s.subrange(k, s.len() as int) =~= Seq::<u8>::empty());
    }
}

/// `v_htmlescape::escape_bytes`: adds `s` to `buf`, with each of the bytes
/// `"`, `&`, `'`, `/`, `<`, `>` replaced by `&quot;`, `&amp;`, `&#x27;`,
/// `&#x2f;`, `&lt;`, `&gt;` and every other byte as it is.
#[verifier::external_body]
fn escape(s: &str, buf: &mut Vec<u8>)
    ensures
        final(buf)@ == old(buf)@ + escaped(s.spec_bytes()),
{
    v_htmlescape::escape_bytes(s, buf)
}

/// A whole number in decimal, with `-` before it if it is negative.
pub open spec fn number(n: int) -> Seq<u8> {
    if n < 0 {
        seq![0x2du8] + digits((-n) as nat)
    } else {
        digits(n as nat)
    }
}

fn write_unsigned(n: u64, buf: &mut Vec<u8>)
    ensures
        final(buf)@ == old(buf)@ + digits(n as nat),
    decreases n,
{
    if n < 10 {
        let d: u8 = 0x30 + n as u8;
        buf.push(d);
        proof {
            assert(buf@ =~= old(buf)@ + digits(n as nat));
        }
    } else {
        write_unsigned(n / 10, buf);
        let d: u8 = 0x30 + (n % 10) as u8;
        buf.push(d);
        proof {
            assert(buf@ =~= old(buf)@ + digits(n as nat));
        }
    }
}

fn write_signed(n: i64, buf: &mut Vec<u8>)
    ensures
        final(buf)@ == old(buf)@ + number(n as int),
{
    if n < 0 {
        buf.push(0x2d);
        let m: u64 = (-(n + 1)) as u64 + 1;
        write_unsigned(m, buf);
        proof {
            assert(buf@ =~= old(buf)@ + number(n as int));
        }
    } else {
        write_unsigned(n as u64, buf);
    }
}

/// What a safe value is written as.
pub open spec fn safe_text(s: SafeTypes) -> Seq<u8> {
    match s {
        SafeTypes::Usize(n) => number(*n as int),
        SafeTypes::U8(n) => number(*n as int),
        SafeTypes::U16(n) => number(*n as int),
        SafeTypes::U32(n) => number(*n as int),
        SafeTypes::U64(n) => number(*n as int),
        SafeTypes::Isize(n) => number(*n as int),
        SafeTypes::I8(n) => number(*n as int),
        SafeTypes::I16(n) => number(*n as int),
        SafeTypes::I32(n) => number(*n as int),
        SafeTypes::I64(n) => number(*n as int),
        SafeTypes::Bool(b) => if *b {
            text("true")
        } else {
            text("false")
        },
    }
}

/// What a value is written as: text escaped, a safe value as it is.
pub open spec fn markup_text(m: MarkupAsStr) -> Seq<u8> {
    match m {
        MarkupAsStr::UnSafe(s) => escaped(s.spec_bytes()),
        MarkupAsStr::Safe(s) => safe_text(s),
    }
}

impl<'a> SafeTypes<'a> {
    /// Writes the value to `f`.
    pub fn fmt(&self, f: &mut Vec<u8>)
        ensures
            final(f)@ == old(f)@ + safe_text(*self),
    {
        match self {
            SafeTypes::Usize(n) => write_unsigned(**n as u64, f),
            SafeTypes::U8(n) => write_unsigned(**n as u64, f),
            SafeTypes::U16(n) => write_unsigned(**n as u64, f),
            SafeTypes::U32(n) => write_unsigned(**n as u64, f),
            SafeTypes::U64(n) => write_unsigned(**n, f),
            SafeTypes::Isize(n) => write_signed(**n as i64, f),
            SafeTypes::I8(n) => write_signed(**n as i64, f),
            SafeTypes::I16(n) => write_signed(**n as i64, f),
            SafeTypes::I32(n) => write_signed(**n as i64, f),
            SafeTypes::I64(n) => write_signed(**n, f),
            SafeTypes::Bool(b) => {
                if **b {
                    f.extend_from_slice("true".as_bytes());
                } else {
                    f.extend_from_slice("false".as_bytes());
                }
            },
        }
    }
}

impl<'a> MarkupAsStr<'a> {
    /// Writes the value to `f`: text escaped, a number or a boolean as it
    /// is.
    pub fn fmt(&self, f: &mut Vec<u8>)
        ensures
            final(f)@ == old(f)@ + markup_text(*self),
    {
        match self {
            MarkupAsStr::UnSafe(s) => escape(s, f),
            MarkupAsStr::Safe(s) => s.fmt(f),
        }
    }

    /// The value as it is written.
    pub fn render(&self) -> (r: Vec<u8>)
        ensures
            r@ == markup_text(*self),
    {
        let mut f: Vec<u8> = Vec::new();
        self.fmt(&mut f);
        f
    }
}

impl<'a> From<&'a str> for MarkupAsStr<'a> {
    fn from(t: &'a str) -> (r: MarkupAsStr<'a>) {
        MarkupAsStr::UnSafe(t)
    }
}

impl<'a> vstd::std_specs::convert::FromSpecImpl<&'a str> for MarkupAsStr<'a> {
    open spec fn obeys_from_spec() -> bool {
        true
    }

    open spec fn from_spec(t: &'a str) -> MarkupAsStr<'a> {
        MarkupAsStr::UnSafe(t)
    }
}

impl<'a> From<&'a String> for MarkupAsStr<'a> {
    fn from(t: &'a String) -> (r: MarkupAsStr<'a>)
        ensures
            r matches MarkupAsStr::UnSafe(s) && s@ == t@,
    {
        MarkupAsStr::UnSafe(t.as_str())
    }
}

/// The text of a `String` is borrowed: the result is fixed by its view, which
/// the conversion itself states.
impl<'a> vstd::std_specs::convert::FromSpecImpl<&'a String> for MarkupAsStr<'a> {
    open spec fn obeys_from_spec() -> bool {
        false
    }

    open spec fn from_spec(t: &'a String) -> MarkupAsStr<'a> {
        MarkupAsStr::UnSafe("")
    }
}

impl<'a> From<&'a bool> for MarkupAsStr<'a> {
    fn from(t: &'a bool) -> (r: MarkupAsStr<'a>) {
        MarkupAsStr::Safe(SafeTypes::Bool(t))
    }
}

impl<'a> vstd::std_specs::convert::FromSpecImpl<&'a bool> for MarkupAsStr<'a> {
    open spec fn obeys_from_spec() -> bool {
        true
    }

    open spec fn from_spec(t: &'a bool) -> MarkupAsStr<'a> {
        MarkupAsStr::Safe(SafeTypes::Bool(t))
    }
}

impl<'a> From<&'a usize> for MarkupAsStr<'a> {
    fn from(t: &'a usize) -> (r: MarkupAsStr<'a>) {
        MarkupAsStr::Safe(SafeTypes::Usize(t))
    }
}

impl<'a> vstd::std_specs::convert::FromSpecImpl<&'a usize> for MarkupAsStr<'a> {
    open spec fn obeys_from_spec() -> bool {
        true
    }

    open spec fn from_spec(t: &'a usize) -> MarkupAsStr<'a> {
        MarkupAsStr::Safe(SafeTypes::Usize(t))
    }
}

impl<'a> From<&'a u8> for MarkupAsStr<'a> {
    fn from(t: &'a u8) -> (r: MarkupAsStr<'a>) {
        MarkupAsStr::Safe(SafeTypes::U8(t))
    }
}

impl<'a> vstd::std_specs::convert::FromSpecImpl<&'a u8> for MarkupAsStr<'a> {
    open spec fn obeys_from_spec() -> bool {
        true
    }

    open spec fn from_spec(t: &'a u8) -> MarkupAsStr<'a> {
        MarkupAsStr::Safe(SafeTypes::U8(t))
    }
}

impl<'a> From<&'a u16> for MarkupAsStr<'a> {
    fn from(t: &'a u16) -> (r: MarkupAsStr<'a>) {
        MarkupAsStr::Safe(SafeTypes::U16(t))
    }
}

impl<'a> vstd::std_specs::convert::FromSpecImpl<&'a u16> for MarkupAsStr<'a> {
    open spec fn obeys_from_spec() -> bool {
        true
    }

    open spec fn from_spec(t: &'a u16) -> MarkupAsStr<'a> {
        MarkupAsStr::Safe(SafeTypes::U16(t))
    }
}

impl<'a> From<&'a u32> for MarkupAsStr<'a> {
    fn from(t: &'a u32) -> (r: MarkupAsStr<'a>) {
        MarkupAsStr::Safe(SafeTypes::U32(t))
    }
}

impl<'a> vstd::std_specs::convert::FromSpecImpl<&'a u32> for MarkupAsStr<'a> {
    open spec fn obeys_from_spec() -> bool {
        true
    }

    open spec fn from_spec(t: &'a u32) -> MarkupAsStr<'a> {
        MarkupAsStr::Safe(SafeTypes::U32(t))
    }
}

impl<'a> From<&'a u64> for MarkupAsStr<'a> {
    fn from(t: &'a u64) -> (r: MarkupAsStr<'a>) {
        MarkupAsStr::Safe(SafeTypes::U64(t))
    }
}

impl<'a> vstd::std_specs::convert::FromSpecImpl<&'a u64> for MarkupAsStr<'a> {
    open spec fn obeys_from_spec() -> bool {
        true
    }

    open spec fn from_spec(t: &'a u64) -> MarkupAsStr<'a> {
        MarkupAsStr::Safe(SafeTypes::U64(t))
    }
}

impl<'a> From<&'a isize> for MarkupAsStr<'a> {
    fn from(t: &'a isize) -> (r: MarkupAsStr<'a>) {
        MarkupAsStr::Safe(SafeTypes::Isize(t))
    }
}

impl<'a> vstd::std_specs::convert::FromSpecImpl<&'a isize> for MarkupAsStr<'a> {
    open spec fn obeys_from_spec() -> bool {
        true
    }

    open spec fn from_spec(t: &'a isize) -> MarkupAsStr<'a> {
        MarkupAsStr::Safe(SafeTypes::Isize(t))
    }
}

impl<'a> From<&'a i8> for MarkupAsStr<'a> {
    fn from(t: &'a i8) -> (r: MarkupAsStr<'a>) {
        MarkupAsStr::Safe(SafeTypes::I8(t))
    }
}

impl<'a> vstd::std_specs::convert::FromSpecImpl<&'a i8> for MarkupAsStr<'a> {
    open spec fn obeys_from_spec() -> bool {
        true
    }

    open spec fn from_spec(t: &'a i8) -> MarkupAsStr<'a> {
        MarkupAsStr::Safe(SafeTypes::I8(t))
    }
}

impl<'a> From<&'a i16> for MarkupAsStr<'a> {
    fn from(t: &'a i16) -> (r: MarkupAsStr<'a>) {
        MarkupAsStr::Safe(SafeTypes::I16(t))
    }
}

impl<'a> vstd::std_specs::convert::FromSpecImpl<&'a i16> for MarkupAsStr<'a> {
    open spec fn obeys_from_spec() -> bool {
        true
    }

    open spec fn from_spec(t: &'a i16) -> MarkupAsStr<'a> {
        MarkupAsStr::Safe(SafeTypes::I16(t))
    }
}

impl<'a> From<&'a i32> for MarkupAsStr<'a> {
    fn from(t: &'a i32) -> (r: MarkupAsStr<'a>) {
        MarkupAsStr::Safe(SafeTypes::I32(t))
    }
}

impl<'a> vstd::std_specs::convert::FromSpecImpl<&'a i32> for MarkupAsStr<'a> {
    open spec fn obeys_from_spec() -> bool {
        true
    }

    open spec fn from_spec(t: &'a i32) -> MarkupAsStr<'a> {
        MarkupAsStr::Safe(SafeTypes::I32(t))
    }
}

impl<'a> From<&'a i64> for MarkupAsStr<'a> {
    fn from(t: &'a i64) -> (r: MarkupAsStr<'a>) {
        MarkupAsStr::Safe(SafeTypes::I64(t))
    }
}

impl<'a> vstd::std_specs::convert::FromSpecImpl<&'a i64> for MarkupAsStr<'a> {
    open spec fn obeys_from_spec() -> bool {
        true
    }

    open spec fn from_spec(t: &'a i64) -> MarkupAsStr<'a> {
        MarkupAsStr::Safe(SafeTypes::I64(t))
    }
}

} // verus!
