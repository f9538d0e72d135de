//! The scope machine: it carries out the instructions of a lowered fragment
//! and so writes the fragment's text, with every bare path rewritten.
//!
//! A bare identifier that the fragment or the template has bound stays as it
//! is. Any other is a field: of the record where no helper is open, of the
//! innermost context frame else. Inside an `each` the loop's pseudo-variables
//! (`index0`, `index`, `first`, `last`, `key`) become expressions over the
//! names that the loop binds.
use vstd::prelude::*;
use vstd::string::StringSliceAdditionalSpecFns;
use crate::bytes::{same, UNDERSCORE};
use crate::lower::{dup, names_view, op_view, ops_view, text, Op, OpM, Reason};

verus! {

/// A context frame: the helper that opened it and the index of the scope that
/// holds its names.
#[derive(Debug, PartialEq, Eq, Clone, Copy, Structural)]
pub enum On {
    Each(usize),
    With(usize),
}

/// The state in which a fragment is written.
pub struct Machine {
    /// The text written so far.
    pub buf: Vec<u8>,
    /// The scopes, innermost last. The first name of the first scope names
    /// the record.
    pub scp: Vec<Vec<Vec<u8>>>,
    /// The scopes set aside, the last one last.
    pub shelf: Vec<Vec<Vec<u8>>>,
    /// The values of `will_wrap` to go back to.
    pub flags: Vec<bool>,
    /// Whether the fragment has been marked as needing no escaping.
    pub wrapped: bool,
    /// Whether a literal at this place marks the fragment.
    pub will_wrap: bool,
}

/// What a machine stands for.
pub struct MachineM {
    pub buf: Seq<u8>,
    pub scp: Seq<Seq<Seq<u8>>>,
    pub shelf: Seq<Seq<Seq<u8>>>,
    pub flags: Seq<bool>,
    pub wrapped: bool,
    pub will_wrap: bool,
}

pub open spec fn frames_view(v: Seq<Vec<Vec<u8>>>) -> Seq<Seq<Seq<u8>>> {
    Seq::new(v.len(), |k: int| names_view(v[k]@))
}

impl Machine {
    pub open spec fn view(&self) -> MachineM {
        MachineM {
            buf: self.buf@,
            scp: frames_view(self.scp@),
            shelf: frames_view(self.shelf@),
            flags: self.flags@,
            wrapped: self.wrapped,
            will_wrap: self.will_wrap,
        }
    }
}

/// The machine after writing `t`.
pub open spec fn wrote(m: MachineM, t: Seq<u8>) -> MachineM {
    MachineM { buf: m.buf + t, ..m }
}

/// The machine after writing `t` as an expression that needs no escaping.
pub open spec fn wrote_safe(m: MachineM, t: Seq<u8>) -> MachineM {
    MachineM { buf: m.buf + t, wrapped: m.wrapped || m.will_wrap, ..m }
}

/// A name written in capitals and underscores alone: a constant.
pub open spec fn is_const_name(id: Seq<u8>) -> bool {
    forall|k: int| 0 <= k < id.len() ==> (0x41 <= #[trigger] id[k] <= 0x5a || id[k] == UNDERSCORE)
}

/// Whether a scope binds the name.
pub open spec fn bound(scp: Seq<Seq<Seq<u8>>>, id: Seq<u8>) -> bool {
    exists|j: int, k: int| 0 <= j < scp.len() && 0 <= k < scp[j].len() && #[trigger] scp[j][k] == id
}

/// The `k`-th name of the `j`-th scope.
pub open spec fn frame_name(scp: Seq<Seq<Seq<u8>>>, j: int, k: int) -> Option<Seq<u8>> {
    if 0 <= j < scp.len() && 0 <= k < scp[j].len() {
        Some(scp[j][k])
    } else {
        None
    }
}

/// The scope of the innermost `each` among the first `n` context frames.
pub open spec fn last_each(on: Seq<On>, n: int) -> Option<int>
    decreases n,
{
    if n <= 0 || n > on.len() {
        None
    } else {
        match on[n - 1] {
            On::Each(j) => Some(j as int),
            On::With(_) => last_each(on, n - 1),
        }
    }
}

pub open spec fn scope_of(f: On) -> int {
    match f {
        On::Each(j) => j as int,
        On::With(j) => j as int,
    }
}

/// Whether the name is one of the pseudo-variables of a loop.
pub open spec fn is_each_var(id: Seq<u8>) -> bool {
    id == text("index0") || id == text("index") || id == text("first") || id == text("last") || id
        == text("key")
}

/// What a pseudo-variable becomes over the key and the index of a loop.
pub open spec fn each_text(id: Seq<u8>, key: Seq<u8>, index: Seq<u8>) -> Seq<u8> {
    if id == text("index0") {
        index
    } else if id == text("index") {
        text("(") + index + text(" + 1)")
    } else if id == text("first") {
        text("(") + index + text(" == 0)")
    } else if id == text("last") {
        text("((") + key + text(").len() == (") + index + text(" + 1))")
    } else {
        key
    }
}

/// The machine after writing a pseudo-variable of the loop whose names stand
/// in the `j`-th scope. All but `key` need no escaping, and all but `key`
/// need the loop's index.
pub open spec fn each_var(m: MachineM, id: Seq<u8>, j: int) -> Result<MachineM, Reason> {
    match (frame_name(m.scp, j, 0), frame_name(m.scp, j, 1)) {
        (Some(key), Some(index)) => if id == text("key") {
            Ok(wrote(m, key))
        } else {
            Ok(wrote_safe(m, each_text(id, key, index)))
        },
        (Some(key), None) => if id == text("key") {
            Ok(wrote(m, key))
        } else {
            Err(Reason::MissingFrame)
        },
        _ => Err(Reason::MissingFrame),
    }
}

/// The machine after writing the field `id` of what the `j`-th scope names.
pub open spec fn field_of(m: MachineM, j: int, id: Seq<u8>) -> Result<MachineM, Reason> {
    match frame_name(m.scp, j, 0) {
        Some(n) => Ok(wrote(m, n + text(".") + id)),
        None => Err(Reason::MissingFrame),
    }
}

/// The machine after writing a bare identifier.
pub open spec fn single(m: MachineM, on: Seq<On>, id: Seq<u8>) -> Result<MachineM, Reason> {
    if is_const_name(id) {
        Ok(wrote(m, id))
    } else if id == text("self") {
        match frame_name(m.scp, 0, 0) {
            Some(n) => Ok(wrote(m, n)),
            None => Err(Reason::MissingFrame),
        }
    } else if bound(m.scp, id) {
        Ok(wrote(m, id))
    } else if on.len() == 0 {
        field_of(m, 0, id)
    } else if last_each(on, on.len() as int) is Some && is_each_var(id) {
        each_var(m, id, last_each(on, on.len() as int)->0)
    } else {
        field_of(m, scope_of(on.last()), id)
    }
}

/// Whether all segments but the last are `super`, and there is one at least.
pub open spec fn is_super(segments: Seq<Seq<u8>>) -> bool {
    segments.len() >= 2 && forall|k: int|
        0 <= k < segments.len() - 1 ==> #[trigger] segments[k] == text("super")
}

/// The machine after writing a path that climbs `up` context frames and then
/// names `id`.
pub open spec fn climbed(m: MachineM, on: Seq<On>, up: int, id: Seq<u8>) -> Result<
    MachineM,
    Reason,
> {
    if on.len() == 0 {
        Err(Reason::SuperAtTop)
    } else if on.len() == up {
        field_of(m, 0, id)
    } else if up < on.len() {
        match on[on.len() - up - 1] {
            On::With(j) => field_of(m, j as int, id),
            On::Each(j) => if is_each_var(id) {
                each_var(m, id, j as int)
            } else {
                field_of(m, j as int, id)
            },
        }
    } else {
        Err(Reason::SuperWithoutParent)
    }
}

/// The machine after writing a path.
pub open spec fn rewrite(m: MachineM, on: Seq<On>, segments: Seq<Seq<u8>>, t: Seq<u8>) -> Result<
    MachineM,
    Reason,
> {
    if segments.len() == 1 {
        single(m, on, segments[0])
    } else if is_super(segments) {
        climbed(m, on, segments.len() - 1, segments.last())
    } else {
        Ok(wrote(m, t))
    }
}

/// The machine after one instruction.
pub open spec fn step(m: MachineM, on: Seq<On>, op: OpM) -> Result<MachineM, Reason> {
    match op {
        OpM::Text(t) => Ok(wrote(m, t)),
        OpM::Path { segments, text } => rewrite(m, on, segments, text),
        OpM::Lit { marks, text } => Ok(
            MachineM { buf: m.buf + text, wrapped: m.wrapped || (marks && m.will_wrap), ..m },
        ),
        OpM::Open => Ok(MachineM { scp: m.scp.push(Seq::empty()), ..m }),
        OpM::Close => if m.scp.len() > 0 {
            Ok(MachineM { scp: m.scp.drop_last(), ..m })
        } else {
            Err(Reason::MissingFrame)
        },
        OpM::Bind(n) => if m.scp.len() > 0 {
            Ok(MachineM { scp: m.scp.drop_last().push(m.scp.last().push(n)), ..m })
        } else {
            Err(Reason::MissingFrame)
        },
        OpM::Shelve => if m.scp.len() > 0 {
            Ok(MachineM { scp: m.scp.drop_last(), shelf: m.shelf.push(m.scp.last()), ..m })
        } else {
            Err(Reason::MissingFrame)
        },
        OpM::Unshelve => if m.shelf.len() > 0 {
            Ok(MachineM { scp: m.scp.push(m.shelf.last()), shelf: m.shelf.drop_last(), ..m })
        } else {
            Err(Reason::MissingFrame)
        },
        OpM::Absorb => if m.shelf.len() > 0 && m.scp.len() > 0 {
            Ok(
                MachineM {
                    scp: m.scp.drop_last().push(m.scp.last() + m.shelf.last()),
                    shelf: m.shelf.drop_last(),
                    ..m
                },
            )
        } else {
            Err(Reason::MissingFrame)
        },
        OpM::WrapOff => Ok(MachineM { flags: m.flags.push(m.will_wrap), will_wrap: false, ..m }),
        OpM::WrapBack => if m.flags.len() > 0 {
            Ok(MachineM { flags: m.flags.drop_last(), will_wrap: m.flags.last(), ..m })
        } else {
            Err(Reason::MissingFrame)
        },
        OpM::Reject(r) => Err(r),
    }
}

/// The machine after the instructions from the `k`-th on, or the reason why
/// the first of them that fails does.
pub open spec fn run_from(m: MachineM, on: Seq<On>, ops: Seq<OpM>, k: int) -> Result<
    MachineM,
    Reason,
>
    decreases ops.len() - k,
{
    if 0 <= k < ops.len() {
        match step(m, on, ops[k]) {
            Ok(n) => run_from(n, on, ops, k + 1),
            Err(r) => Err(r),
        }
    } else {
        Ok(m)
    }
}

/// The reason of the first instruction from the `k`-th on that refuses the
/// fragment.
pub open spec fn first_reject(ops: Seq<OpM>, k: int) -> Option<Reason>
    decreases ops.len() - k,
{
    if 0 <= k < ops.len() {
        match ops[k] {
            OpM::Reject(r) => Some(r),
            _ => first_reject(ops, k + 1),
        }
    } else {
        None
    }
}

/// Checks a lowered fragment against what templates admit: no attribute, no
/// `async`, no `try` block, no `yield`, no placement or unparsed tokens, no
/// qualified self type, no subpattern, no guard. Names the first offence.
pub fn validate(ops: &Vec<Op>) -> (r: Result<(), Reason>)
    ensures
        match r {
            Ok(()) => first_reject(ops_view(ops@), 0) is None,
            Err(e) => first_reject(ops_view(ops@), 0) == Some(e),
        },
{
    let mut k: usize = 0;
    while k < ops.len()
        invariant
            k <= ops@.len(),
            first_reject(ops_view(ops@), k as int) == first_reject(ops_view(ops@), 0),
        decreases ops@.len() - k,
    {
        match &ops[k] {
            Op::Reject(r) => {
                return Err(*r);
            },
            _ => {},
        }
        k += 1;
    }
    Ok(())
}

fn is_const(id: &Vec<u8>) -> (r: bool)
    ensures
        r == is_const_name(id@),
{
    let mut k: usize = 0;
    while k < id.len()
        invariant
            k <= id@.len(),
            forall|m: int| 0 <= m < k ==> (0x41 <= #[trigger] id@[m] <= 0x5a || id@[m] == UNDERSCORE),
        decreases id@.len() - k,
    {
        let b = id[k];
        if !((0x41 <= b && b <= 0x5a) || b == UNDERSCORE) {
            return false;
        }
        k += 1;
    }
    true
}

fn is_text(id: &Vec<u8>, s: &str) -> (r: bool)
    ensures
        r == (id@ == text(s)),
{
    same(id.as_slice(), s.as_bytes())
}

fn each_var_name(id: &Vec<u8>) -> (r: bool)
    ensures
        r == is_each_var(id@),
{
    is_text(id, "index0") || is_text(id, "index") || is_text(id, "first") || is_text(id, "last")
        || is_text(id, "key")
}

fn innermost_each(on: &Vec<On>) -> (r: Option<usize>)
    ensures
        match r {
            Some(j) => last_each(on@, on@.len() as int) == Some(j as int),
            None => last_each(on@, on@.len() as int) is None,
        },
{
    let mut n: usize = on.len();
    while n > 0
        invariant
            n <= on@.len(),
            last_each(on@, n as int) == last_each(on@, on@.len() as int),
        decreases n,
    {
        match on[n - 1] {
            On::Each(j) => {
                return Some(j);
            },
            On::With(_) => {},
        }
        n -= 1;
    }
    None
}

fn supers(segments: &Vec<Vec<u8>>) -> (r: bool)
    ensures
        r == is_super(names_view(segments@)),
{
    let n = segments.len();
    if n < 2 {
        return false;
    }
    let mut k: usize = 0;
    while k < n - 1
        invariant
            k <= n - 1,
            n == segments@.len(),
            forall|m: int| 0 <= m < k ==> #[trigger] names_view(segments@)[m] == text("super"),
        decreases n - 1 - k,
    {
        if !is_text(&segments[k], "super") {
            proof {
                assert(names_view(segments@)[k as int] == segments@[k as int]@);
            }
            return false;
        }
        k += 1;
    }
    true
}

impl Machine {
    /// A machine with nothing written, in which `name` names the record.
    pub fn new(name: Vec<u8>) -> (r: Machine)
        ensures
            r@ == (MachineM {
                buf: Seq::empty(),
                scp: seq![seq![name@]],
                shelf: Seq::empty(),
                flags: Seq::empty(),
                wrapped: true,
                will_wrap: true,
            }),
    {
        let mut frame: Vec<Vec<u8>> = Vec::new();
        frame.push(name);
        let mut scp: Vec<Vec<Vec<u8>>> = Vec::new();
        scp.push(frame);
        let shelf: Vec<Vec<Vec<u8>>> = Vec::new();
        proof {
            assert(names_view(frame@) =~= seq![name@]);
            assert(frames_view(scp@) =~= seq![seq![name@]]);
            assert(frames_view(shelf@) =~= Seq::<Seq<Seq<u8>>>::empty());
        }
        Machine { buf: Vec::new(), scp, shelf, flags: Vec::new(), wrapped: true, will_wrap: true }
    }

    fn write(&mut self, t: &[u8])
        ensures
            final(self)@ == wrote(old(self)@, t@),
    {
        self.buf.extend_from_slice(t);
        proof {
            assert(self@.buf == old(self)@.buf + t@);
            assert(self@.scp == old(self)@.scp);
            assert(self@.shelf == old(self)@.shelf);
            assert(self@.flags == old(self)@.flags);
        }
    }

    fn write_str(&mut self, s: &str)
        ensures
            final(self)@ == wrote(old(self)@, text(s)),
    {
        self.write(s.as_bytes());
    }

    /// Whether a scope binds the name.
    pub fn binds(&self, id: &Vec<u8>) -> (r: bool)
        ensures
            r == bound(self@.scp, id@),
    {
        let mut j: usize = 0;
        while j < self.scp.len()
            invariant
                j <= self.scp@.len(),
                forall|a: int, b: int|
                    0 <= a < j && 0 <= b < self@.scp[a].len() ==> #[trigger] self@.scp[a][b]
                        != id@,
            decreases self.scp@.len() - j,
        {
            let frame = &self.scp[j];
            let mut k: usize = 0;
            while k < frame.len()
                invariant
                    j < self.scp@.len(),
                    frame == self.scp@[j as int],
                    k <= frame@.len(),
                    forall|b: int| 0 <= b < k ==> #[trigger] self@.scp[j as int][b] != id@,
                decreases frame@.len() - k,
            {
                if same(frame[k].as_slice(), id.as_slice()) {
                    proof {
                        assert(self@.scp[j as int][k as int] == frame@[k as int]@);
                    }
                    return true;
                }
                proof {
                    assert(self@.scp[j as int][k as int] == frame@[k as int]@);
                }
                k += 1;
            }
            j += 1;
        }
        false
    }

    /// The `k`-th name of the `j`-th scope.
    pub fn name(&self, j: usize, k: usize) -> (r: Option<Vec<u8>>)
        ensures
            match r {
                Some(n) => frame_name(self@.scp, j as int, k as int) == Some(n@),
                None => frame_name(self@.scp, j as int, k as int) is None,
            },
    {
        if j < self.scp.len() && k < self.scp[j].len() {
            Some(dup(&self.scp[j][k]))
        } else {
            None
        }
    }

    fn write_field(&mut self, j: usize, id: &Vec<u8>) -> (r: Result<(), Reason>)
        ensures
            match r {
                Ok(()) => field_of(old(self)@, j as int, id@) == Ok::<MachineM, Reason>(
                    final(self)@,
                ),
                Err(e) => field_of(old(self)@, j as int, id@) == Err::<MachineM, Reason>(e),
            },
    {
        match self.name(j, 0) {
            Some(n) => {
                self.write(n.as_slice());
                self.write_str(".");
                self.write(id.as_slice());
                proof {
                    assert(final(self)@.buf =~= old(self)@.buf + (n@ + text(".") + id@));
                }
                Ok(())
            },
            None => Err(Reason::MissingFrame),
        }
    }

    fn mark(&mut self)
        ensures
            final(self)@ == (MachineM {
                wrapped: old(self)@.wrapped || old(self)@.will_wrap,
                ..old(self)@
            }),
    {
        if self.will_wrap {
            self.wrapped = true;
        }
    }

    fn write_each_var(&mut self, id: &Vec<u8>, j: usize) -> (r: Result<(), Reason>)
        requires
            is_each_var(id@),
        ensures
            match r {
                Ok(()) => each_var(old(self)@, id@, j as int) == Ok::<MachineM, Reason>(
                    final(self)@,
                ),
                Err(e) => each_var(old(self)@, id@, j as int) == Err::<MachineM, Reason>(e),
            },
    {
        let key = match self.name(j, 0) {
            Some(k) => k,
            None => {
                return Err(Reason::MissingFrame);
            },
        };
        if is_text(id, "key") {
            self.write(key.as_slice());
            return Ok(());
        }
        let index = match self.name(j, 1) {
            Some(i) => i,
            None => {
                return Err(Reason::MissingFrame);
            },
        };
        self.mark();
        if is_text(id, "index0") {
            self.write(index.as_slice());
        } else if is_text(id, "index") {
            self.write_str("(");
            self.write(index.as_slice());
            self.write_str(" + 1)");
            proof {
                assert(final(self)@.buf =~= old(self)@.buf + (text("(") + index@ + text(" + 1)")));
            }
        } else if is_text(id, "first") {
            self.write_str("(");
            self.write(index.as_slice());
            self.write_str(" == 0)");
            proof {
                assert(final(self)@.buf =~= old(self)@.buf + (text("(") + index@ + text(
                    " == 0)",
                )));
            }
        } else {
            self.write_str("((");
            self.write(key.as_slice());
            self.write_str(").len() == (");
            self.write(index.as_slice());
            self.write_str(" + 1))");
            proof {
                assert(final(self)@.buf =~= old(self)@.buf + (text("((") + key@ + text(
                    ").len() == (",
                ) + index@ + text(" + 1))")));
            }
        }
        Ok(())
    }

    /// Writes a bare identifier: as it is if it is a constant or bound, as
    /// the record's name if it is `self`, as a pseudo-variable of the
    /// innermost loop if it names one, and as a field of the innermost context
    /// frame else.
    pub fn write_single_path(&mut self, on: &Vec<On>, id: &Vec<u8>) -> (r: Result<(), Reason>)
        ensures
            match r {
                Ok(()) => single(old(self)@, on@, id@) == Ok::<MachineM, Reason>(final(self)@),
                Err(e) => single(old(self)@, on@, id@) == Err::<MachineM, Reason>(e),
            },
    {
        if is_const(id) {
            self.write(id.as_slice());
            Ok(())
        } else if is_text(id, "self") {
            match self.name(0, 0) {
                Some(n) => {
                    self.write(n.as_slice());
                    Ok(())
                },
                None => Err(Reason::MissingFrame),
            }
        } else if self.binds(id) {
            self.write(id.as_slice());
            Ok(())
        } else if on.len() == 0 {
            self.write_field(0, id)
        } else {
            match innermost_each(on) {
                Some(j) => {
                    if each_var_name(id) {
                        return self.write_each_var(id, j);
                    }
                },
                None => {},
            }
            let j = match on[on.len() - 1] {
                On::Each(j) => j,
                On::With(j) => j,
            };
            self.write_field(j, id)
        }
    }

    /// Writes a path: a bare identifier as [`Machine::write_single_path`]
    /// does, a path of `super` segments and a name against the context frame
    /// as many levels up, and any other path as it is.
    pub fn visit_expr_path(&mut self, on: &Vec<On>, segments: &Vec<Vec<u8>>, t: &Vec<u8>) -> (r:
        Result<(), Reason>)
        ensures
            match r {
                Ok(()) => rewrite(old(self)@, on@, names_view(segments@), t@) == Ok::<
                    MachineM,
                    Reason,
                >(final(self)@),
                Err(e) => rewrite(old(self)@, on@, names_view(segments@), t@) == Err::<
                    MachineM,
                    Reason,
                >(e),
            },
    {
        let n = segments.len();
        if n == 1 {
            proof {
                assert(names_view(segments@)[0] == segments@[0]@);
            }
            self.write_single_path(on, &segments[0])
        } else if supers(segments) {
            let up = n - 1;
            let id = &segments[n - 1];
            proof {
                assert(names_view(segments@).last() == id@);
            }
            if on.len() == 0 {
                Err(Reason::SuperAtTop)
            } else if on.len() == up {
                self.write_field(0, id)
            } else if up < on.len() {
                match on[on.len() - up - 1] {
                    On::With(j) => self.write_field(j, id),
                    On::Each(j) => {
                        if each_var_name(id) {
                            self.write_each_var(id, j)
                        } else {
                            self.write_field(j, id)
                        }
                    },
                }
            } else {
                Err(Reason::SuperWithoutParent)
            }
        } else {
            self.write(t.as_slice());
            Ok(())
        }
    }

    /// Enters a scope that binds the given names.
    pub fn open(&mut self, names: Vec<Vec<u8>>)
        ensures
            final(self)@ == (MachineM {
                scp: old(self)@.scp.push(names_view(names@)),
                ..old(self)@
            }),
    {
        self.scp.push(names);
        proof {
            assert(frames_view(self.scp@) =~= frames_view(old(self).scp@).push(
                names_view(names@),
            ));
        }
    }

    /// Leaves the innermost scope and hands it out.
    pub fn close(&mut self) -> (r: Option<Vec<Vec<u8>>>)
        ensures
            match r {
                Some(f) => old(self)@.scp.len() > 0 && names_view(f@) == old(self)@.scp.last()
                    && final(self)@ == (MachineM {
                    scp: old(self)@.scp.drop_last(),
                    ..old(self)@
                }),
                None => old(self)@.scp.len() == 0 && final(self)@ == old(self)@,
            },
    {
        let r = self.scp.pop();
        proof {
            if r is Some {
                assert(frames_view(self.scp@) =~= frames_view(old(self).scp@).drop_last());
            }
        }
        r
    }

    fn shelve(&mut self, f: Vec<Vec<u8>>)
        ensures
            final(self)@ == (MachineM {
                shelf: old(self)@.shelf.push(names_view(f@)),
                ..old(self)@
            }),
    {
        self.shelf.push(f);
        proof {
            assert(frames_view(self.shelf@) =~= frames_view(old(self).shelf@).push(
                names_view(f@),
            ));
        }
    }

    fn unshelve(&mut self) -> (r: Option<Vec<Vec<u8>>>)
        ensures
            match r {
                Some(f) => old(self)@.shelf.len() > 0 && names_view(f@) == old(self)@.shelf.last()
                    && final(self)@ == (MachineM {
                    shelf: old(self)@.shelf.drop_last(),
                    ..old(self)@
                }),
                None => old(self)@.shelf.len() == 0 && final(self)@ == old(self)@,
            },
    {
        let r = self.shelf.pop();
        proof {
            if r is Some {
                assert(frames_view(self.shelf@) =~= frames_view(old(self).shelf@).drop_last());
            }
        }
        r
    }

    /// Carries out one instruction.
    pub fn step(&mut self, on: &Vec<On>, op: &Op) -> (r: Result<(), Reason>)
        ensures
            match r {
                Ok(()) => step(old(self)@, on@, op_view(*op)) == Ok::<MachineM, Reason>(
                    final(self)@,
                ),
                Err(e) => step(old(self)@, on@, op_view(*op)) == Err::<MachineM, Reason>(e),
            },
    {
        match op {
            Op::Text(t) => {
                self.write(t.as_slice());
                Ok(())
            },
            Op::Path { segments, text } => self.visit_expr_path(on, segments, text),
            Op::Lit { marks, text } => {
                if *marks && self.will_wrap {
                    self.wrapped = true;
                }
                self.write(text.as_slice());
                Ok(())
            },
            Op::Open => {
                let names: Vec<Vec<u8>> = Vec::new();
                proof {
                    assert(names_view(names@) =~= Seq::<Seq<u8>>::empty());
                }
                self.open(names);
                Ok(())
            },
            Op::Close => {
                match self.close() {
                    Some(_) => Ok(()),
                    None => Err(Reason::MissingFrame),
                }
            },
            Op::Bind(n) => {
                match self.close() {
                    Some(f) => {
                        let mut f = f;
                        let ghost before = f@;
                        f.push(dup(n));
                        proof {
                            assert(names_view(f@) =~= names_view(before).push(n@));
                        }
                        self.open(f);
                        Ok(())
                    },
                    None => Err(Reason::MissingFrame),
                }
            },
            Op::Shelve => {
                match self.close() {
                    Some(f) => {
                        self.shelve(f);
                        Ok(())
                    },
                    None => Err(Reason::MissingFrame),
                }
            },
            Op::Unshelve => {
                match self.unshelve() {
                    Some(f) => {
                        self.open(f);
                        Ok(())
                    },
                    None => Err(Reason::MissingFrame),
                }
            },
            Op::Absorb => {
                if self.scp.len() == 0 {
                    proof {
                        assert(self@.scp.len() == 0);
                    }
                    return Err(Reason::MissingFrame);
                }
                match self.unshelve() {
                    Some(g) => {
                        match self.close() {
                            Some(f) => {
                                let mut f = f;
                                let mut g = g;
                                let ghost fb = f@;
                                let ghost gb = g@;
                                f.append(&mut g);
                                proof {
                                    assert(names_view(f@) =~= names_view(fb) + names_view(gb));
                                }
                                self.open(f);
                                Ok(())
                            },
                            None => Err(Reason::MissingFrame),
                        }
                    },
                    None => Err(Reason::MissingFrame),
                }
            },
            Op::WrapOff => {
                self.flags.push(self.will_wrap);
                self.will_wrap = false;
                Ok(())
            },
            Op::WrapBack => {
                match self.flags.pop() {
                    Some(b) => {
                        self.will_wrap = b;
                        Ok(())
                    },
                    None => Err(Reason::MissingFrame),
                }
            },
            Op::Reject(r) => Err(*r),
        }
    }

    /// Carries out the instructions in order, up to the first that fails.
    pub fn run(&mut self, on: &Vec<On>, ops: &Vec<Op>) -> (r: Result<(), Reason>)
        ensures
            match r {
                Ok(()) => run_from(old(self)@, on@, ops_view(ops@), 0) == Ok::<MachineM, Reason>(
                    final(self)@,
                ),
                Err(e) => run_from(old(self)@, on@, ops_view(ops@), 0) == Err::<MachineM, Reason>(
                    e,
                ),
            },
    {
        let mut k: usize = 0;
        while k < ops.len()
            invariant
                k <= ops@.len(),
                run_from(self@, on@, ops_view(ops@), k as int) == run_from(
                    old(self)@,
                    on@,
                    ops_view(ops@),
                    0,
                ),
            decreases ops@.len() - k,
        {
            match self.step(on, &ops[k]) {
                Ok(()) => {},
                Err(e) => {
                    return Err(e);
                },
            }
            k += 1;
        }
        Ok(())
    }

    /// Hands out the text written so far and starts anew.
    pub fn take(&mut self) -> (r: Vec<u8>)
        ensures
            r@ == old(self)@.buf,
            final(self)@ == (MachineM { buf: Seq::empty(), ..old(self)@ }),
    {
        let mut out: Vec<u8> = Vec::new();
        std::mem::swap(&mut self.buf, &mut out);
        out
    }
}

} // verus!
