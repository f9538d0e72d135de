//! The buffer that generated code is written into, line by line and indented
//! by the braces that the lines open and close.
use vstd::prelude::*;
use vstd::slice::slice_subrange;
use crate::bytes::{is_ws, skip_ws, skip_ws_from, CLOSE, OPEN, SPACE};
use crate::text::NEWLINE;

verus! {

pub struct Buffer {
    /// The code written so far.
    pub buf: Vec<u8>,
    /// The level of indentation, four spaces each.
    pub indent: u8,
    /// Whether the next text begins a line.
    pub start: bool,
}

/// What a buffer stands for.
pub struct BufferM {
    pub buf: Seq<u8>,
    pub indent: u8,
    pub start: bool,
}

/// `n` spaces.
pub open spec fn spaces(n: nat) -> Seq<u8> {
    Seq::new(n, |k: int| SPACE)
}

/// The buffer with `s` added, after the indentation where `s` begins a line.
pub open spec fn written(b: BufferM, s: Seq<u8>) -> BufferM {
    BufferM {
        buf: if b.start {
            b.buf + spaces((b.indent * 4) as nat) + s
        } else {
            b.buf + s
        },
        indent: b.indent,
        start: false,
    }
}

pub open spec fn indented(b: BufferM) -> BufferM {
    BufferM { indent: if b.indent < 255 {
        (b.indent + 1) as u8
    } else {
        b.indent
    }, ..b }
}

pub open spec fn dedented(b: BufferM) -> BufferM {
    BufferM { indent: if b.indent > 0 {
        (b.indent - 1) as u8
    } else {
        b.indent
    }, ..b }
}

/// The line as it is written: without the whitespace before a `}` that
/// begins it.
pub open spec fn line_of(s: Seq<u8>) -> Seq<u8> {
    let k = skip_ws(s, 0);
    if 0 <= k < s.len() && s[k] == CLOSE {
        s.subrange(k, s.len() as int)
    } else {
        s
    }
}

/// The buffer with the line `s` added: a line that begins with `}` stands one
/// level further out, and the lines after one that ends with `{` one level
/// further in.
pub open spec fn with_line(b: BufferM, s: Seq<u8>) -> BufferM {
    let t = line_of(s);
    let b1 = if t.len() > 0 && t[0] == CLOSE {
        dedented(b)
    } else {
        b
    };
    let b2 = if t.len() > 0 {
        written(b1, t)
    } else {
        b1
    };
    let b3 = if t.len() > 0 && t.last() == OPEN {
        indented(b2)
    } else {
        b2
    };
    BufferM { buf: b3.buf.push(NEWLINE), indent: b3.indent, start: true }
}

impl Buffer {
    pub open spec fn view(&self) -> BufferM {
        BufferM { buf: self.buf@, indent: self.indent, start: self.start }
    }

    /// An empty buffer at the given level of indentation.
    pub fn new(indent: u8) -> (r: Buffer)
        ensures
            r@ == (BufferM { buf: Seq::empty(), indent, start: true }),
    {
        Buffer { buf: Vec::new(), indent, start: true }
    }

    /// Writes a line. A line that begins with `}` is written one level
    /// further out than the lines before it; at level 0 it is written at
    /// level 0, which is deliberate: the buffer takes any line at any level.
    pub fn writeln(&mut self, s: &[u8])
        ensures
            final(self)@ == with_line(old(self)@, s@),
    {
        let k = skip_ws_from(s, 0);
        let t = if k < s.len() && s[k] == CLOSE {
            slice_subrange(s, k, s.len())
        } else {
            s
        };
        if t.len() > 0 {
            if t[0] == CLOSE {
                self.dedent();
            }
            self.write(t);
            if t[t.len() - 1] == OPEN {
                self.indent();
            }
        }
        self.buf.push(NEWLINE);
        self.start = true;
    }

    /// Writes text, indented where it begins a line.
    pub fn write(&mut self, s: &[u8])
        ensures
            final(self)@ == written(old(self)@, s@),
    {
        if self.start {
            let n: usize = self.indent as usize * 4;
            let mut k: usize = 0;
            while k < n
                invariant
                    k <= n,
                    n == self.indent * 4,
                    self.indent == old(self).indent,
                    self.buf@ == old(self).buf@ + spaces(k as nat),
                decreases n - k,
            {
                self.buf.push(SPACE);
                proof {
                    assert(old(self).buf@ + spaces(k as nat).push(SPACE) =~= old(self).buf@
                        + spaces((k + 1) as nat));
                }
                k += 1;
            }
            self.start = false;
        }
        self.buf.extend_from_slice(s);
        proof {
            assert(self@.buf == written(old(self)@, s@).buf);
        }
    }

    /// Goes one level in. The level stays at 255 once it is there.
    pub fn indent(&mut self)
        ensures
            final(self)@ == indented(old(self)@),
    {
        if self.indent < 255 {
            self.indent += 1;
        }
    }

    /// Goes one level out. At level 0 there is no further out: the buffer
    /// stays as it is, so that a closing line at the margin is written at the
    /// margin.
    pub fn dedent(&mut self)
        ensures
            final(self)@ == dedented(old(self)@),
            old(self)@.indent == 0 ==> final(self)@ == old(self)@,
            old(self)@.indent > 0 ==> final(self)@.indent == old(self)@.indent - 1,
    {
        if self.indent > 0 {
            self.indent -= 1;
        }
    }
}

} // verus!
