use vstd::prelude::*;
use vstd::string::StringExecFns;
use crate::value::{
    Function, Num, NumV, Op, Value, ValueV, as_block, as_bool, as_num, as_text, clone_values,
    lemma_vv_seq_push, vv, vv_seq,
};

verus! {

/// What the session is waiting for. `Ready` means the next step can run;
/// `AwaitNum` means an arithmetic request is outstanding and the driver must
/// supply the resulting number before stepping on; `Ended` means an `exit`
/// was evaluated and the session does no further work.
#[derive(Clone, Copy, Debug, PartialEq, Eq, Structural)]
pub enum Mode {
    Ready,
    AwaitNum,
    Ended,
}

/// One pending write to standard output: the text and whether a newline
/// follows it. The session only records writes; the driver performs them.
#[derive(Debug, PartialEq)]
pub struct OutItem {
    pub text: String,
    pub newline: bool,
}

/// An evaluation frame. `Run` is a value sequence being evaluated, with the
/// position of the next item and whether the return counter must still be
/// consulted for the item just finished. `WhileTest` waits for the result of
/// a loop's condition block and decides whether to run the body once more.
#[derive(Debug)]
pub enum Frame {
    Run { items: Vec<Value>, pos: usize, check: bool },
    WhileTest { cond: Vec<Value>, body: Vec<Value> },
}

/// What one step of the machine reports to the driver.
#[derive(Clone, Copy, Debug, PartialEq, Eq, Structural)]
pub enum StepOut {
    /// A step ran; call `step` again.
    Ran,
    /// No frames are left: evaluation has finished.
    Done,
    /// The named arithmetic operation must be applied to the two numbers,
    /// given as IEEE-754 bits, first operand first; answer via `supply_num`.
    NeedNum(Op, u64, u64),
    /// An `exit` was evaluated with the given number; the process is to
    /// terminate with that number truncated to an exit status.
    Exited(u64),
}

#[verifier::ext_equal]
pub ghost struct OutV {
    pub text: Seq<char>,
    pub newline: bool,
}

#[verifier::ext_equal]
pub ghost enum FrameV {
    Run { items: Seq<ValueV>, pos: nat, check: bool },
    WhileTest { cond: Seq<ValueV>, body: Seq<ValueV> },
}

/// Mathematical image of a whole session.
#[verifier::ext_equal]
pub ghost struct StV {
    pub stack: Seq<ValueV>,
    pub env: Seq<(Seq<char>, ValueV)>,
    pub frames: Seq<FrameV>,
    pub ret: nat,
    pub out: Seq<OutV>,
    pub mode: Mode,
}

pub open spec fn fv(f: Frame) -> FrameV {
    match f {
        Frame::Run { items, pos, check } => FrameV::Run {
            items: vv_seq(items@),
            pos: pos as nat,
            check,
        },
        Frame::WhileTest { cond, body } => FrameV::WhileTest {
            cond: vv_seq(cond@),
            body: vv_seq(body@),
        },
    }
}

pub open spec fn env_v(e: Seq<(String, Value)>) -> Seq<(Seq<char>, ValueV)> {
    e.map_values(|p: (String, Value)| (p.0@, vv(p.1)))
}

/// One interpreter session: the shared data stack, the flat name
/// environment, the evaluation frames, the return counter, the pending
/// output, and what the session waits for.
pub struct Core {
    pub stack: Vec<Value>,
    pub memory: Vec<(String, Value)>,
    pub frames: Vec<Frame>,
    pub returns: usize,
    pub out: Vec<OutItem>,
    pub mode: Mode,
}

impl Core {
    pub open spec fn deep(&self) -> StV {
        StV {
            stack: vv_seq(self.stack@),
            env: env_v(self.memory@),
            frames: self.frames@.map_values(|f: Frame| fv(f)),
            ret: self.returns as nat,
            out: self.out@.map_values(|o: OutItem| OutV { text: o.text@, newline: o.newline }),
            mode: self.mode,
        }
    }
}

/// Popping the model stack: the top value, or Null when it is empty, and
/// the remaining stack — an empty stack stays empty.
pub open spec fn st_pop(stack: Seq<ValueV>) -> (ValueV, Seq<ValueV>) {
    if stack.len() == 0 {
        (ValueV::Null, stack)
    } else {
        (stack.last(), stack.drop_last())
    }
}

/// The first binding of `name` at or after position `i`.
pub open spec fn env_lookup_from(
    e: Seq<(Seq<char>, ValueV)>,
    name: Seq<char>,
    i: int,
) -> Option<ValueV>
    decreases e.len() - i,
{
    if i < 0 || i >= e.len() {
        None
    } else if e[i].0 == name {
        Some(e[i].1)
    } else {
        env_lookup_from(e, name, i + 1)
    }
}

/// Binding a name: the first binding of that name is overwritten; a name
/// bound nowhere is appended.
pub open spec fn env_set_from(
    e: Seq<(Seq<char>, ValueV)>,
    name: Seq<char>,
    v: ValueV,
    i: int,
) -> Seq<(Seq<char>, ValueV)>
    decreases e.len() - i,
{
    if i < 0 || i >= e.len() {
        e.push((name, v))
    } else if e[i].0 == name {
        e.update(i, (name, v))
    } else {
        env_set_from(e, name, v, i + 1)
    }
}

/// The effect of one builtin operation on the session model, and what it
/// reports. Every builtin pops its operands with the default coercions and
/// never fails; arithmetic hands its operand bits to the driver and leaves
/// the session waiting for the resulting number.
pub open spec fn spec_apply_op(op: Op, st: StV) -> (StV, StepOut) {
    let (b, s1) = st_pop(st.stack);
    let (a, s2) = st_pop(s1);
    match op {
        Op::Add | Op::Sub | Op::Mul | Op::Div | Op::Rem | Op::Pow => (
            StV { stack: s2, mode: Mode::AwaitNum, ..st },
            StepOut::NeedNum(op, as_num(a).bits, as_num(b).bits),
        ),
        Op::Equal => (
            StV { stack: s2.push(ValueV::Bool(as_text(a) == as_text(b))), ..st },
            StepOut::Ran,
        ),
        Op::NotEqual => (
            StV { stack: s2.push(ValueV::Bool(as_text(a) != as_text(b))), ..st },
            StepOut::Ran,
        ),
        Op::And => (
            StV { stack: s2.push(ValueV::Bool(as_bool(a) && as_bool(b))), ..st },
            StepOut::Ran,
        ),
        Op::Or => (
            StV { stack: s2.push(ValueV::Bool(as_bool(a) || as_bool(b))), ..st },
            StepOut::Ran,
        ),
        Op::Concat => (
            StV { stack: s2.push(ValueV::Text(as_text(a) + as_text(b))), ..st },
            StepOut::Ran,
        ),
        Op::Print => (
            StV { stack: s1, out: st.out.push(OutV { text: as_text(b), newline: false }), ..st },
            StepOut::Ran,
        ),
        Op::PrintLn => (
            StV { stack: s1, out: st.out.push(OutV { text: as_text(b), newline: true }), ..st },
            StepOut::Ran,
        ),
        Op::IfElse => {
            let (c, s3) = st_pop(s2);
            let chosen = if as_bool(c) {
                as_block(a)
            } else {
                as_block(b)
            };
            (
                StV {
                    stack: s3,
                    frames: st.frames.push(FrameV::Run { items: chosen, pos: 0, check: false }),
                    ..st
                },
                StepOut::Ran,
            )
        },
        Op::When => (
            if as_bool(a) {
                StV {
                    stack: s2,
                    frames: st.frames.push(
                        FrameV::Run { items: as_block(b), pos: 0, check: false },
                    ),
                    ..st
                }
            } else {
                StV { stack: s2, ..st }
            },
            StepOut::Ran,
        ),
        Op::While => (
            StV {
                stack: s2,
                frames: st.frames.push(
                    FrameV::WhileTest { cond: as_block(a), body: as_block(b) },
                ).push(FrameV::Run { items: as_block(a), pos: 0, check: false }),
                ..st
            },
            StepOut::Ran,
        ),
        Op::Ret => (StV { stack: s1, ret: as_num(b).level as nat, ..st }, StepOut::Ran),
        Op::Bind => (
            StV { stack: s2, env: env_set_from(st.env, as_text(b), a, 0), ..st },
            StepOut::Ran,
        ),
        Op::Eval => (
            StV {
                stack: s1,
                frames: st.frames.push(FrameV::Run { items: as_block(b), pos: 0, check: false }),
                ..st
            },
            StepOut::Ran,
        ),
        Op::Defun => (
            StV {
                stack: s2,
                env: env_set_from(st.env, as_text(b), ValueV::Defined(as_block(a)), 0),
                ..st
            },
            StepOut::Ran,
        ),
        Op::Exit => (
            StV { stack: s1, mode: Mode::Ended, ..st },
            StepOut::Exited(as_num(b).bits),
        ),
        Op::Pop => (StV { stack: s1, ..st }, StepOut::Ran),
    }
}

/// Evaluating one program item: a symbol is looked up — a builtin runs, a
/// user-defined body is evaluated in a new frame against the same stack and
/// environment, any other bound value is pushed as a copy, and an unbound
/// symbol is pushed as a literal; every non-symbol value is pushed as it is.
pub open spec fn spec_dispatch(item: ValueV, st: StV) -> (StV, StepOut) {
    match item {
        ValueV::Symbol(name) => match env_lookup_from(st.env, name, 0) {
            None => (StV { stack: st.stack.push(ValueV::Symbol(name)), ..st }, StepOut::Ran),
            Some(ValueV::Builtin(op)) => spec_apply_op(op, st),
            Some(ValueV::Defined(body)) => (
                StV {
                    frames: st.frames.push(FrameV::Run { items: body, pos: 0, check: false }),
                    ..st
                },
                StepOut::Ran,
            ),
            Some(v) => (StV { stack: st.stack.push(v), ..st }, StepOut::Ran),
        },
        v => (StV { stack: st.stack.push(v), ..st }, StepOut::Ran),
    }
}

/// One step of the machine. The top frame advances: after each item of a
/// run frame, a nonzero return counter is decremented once and aborts the
/// rest of that frame alone; a finished frame is discarded; a while-test
/// frame pops the condition's result and either schedules body-then-
/// condition again or leaves the loop.
pub open spec fn spec_step(st: StV) -> (StV, StepOut) {
    if st.frames.len() == 0 {
        (st, StepOut::Done)
    } else {
        let top = st.frames.last();
        match top {
            FrameV::Run { items, pos, check } => {
                if check {
                    if st.ret != 0 {
                        (
                            StV {
                                ret: (st.ret - 1) as nat,
                                frames: st.frames.drop_last(),
                                ..st
                            },
                            StepOut::Ran,
                        )
                    } else {
                        (
                            StV {
                                frames: st.frames.update(
                                    st.frames.len() - 1,
                                    FrameV::Run { items, pos, check: false },
                                ),
                                ..st
                            },
                            StepOut::Ran,
                        )
                    }
                } else if pos >= items.len() {
                    (StV { frames: st.frames.drop_last(), ..st }, StepOut::Ran)
                } else {
                    let item = items[pos as int];
                    let st1 = StV {
                        frames: st.frames.update(
                            st.frames.len() - 1,
                            FrameV::Run { items, pos: pos + 1, check: true },
                        ),
                        ..st
                    };
                    spec_dispatch(item, st1)
                }
            },
            FrameV::WhileTest { cond, body } => {
                let (c, s1) = st_pop(st.stack);
                if as_bool(c) {
                    (
                        StV {
                            stack: s1,
                            frames: st.frames.push(
                                FrameV::Run { items: cond, pos: 0, check: false },
                            ).push(FrameV::Run { items: body, pos: 0, check: false }),
                            ..st
                        },
                        StepOut::Ran,
                    )
                } else {
                    (StV { stack: s1, frames: st.frames.drop_last(), ..st }, StepOut::Ran)
                }
            },
        }
    }
}

impl Core {
    /// Pops the data stack; an empty stack yields Null and stays empty.
    pub fn pop(&mut self) -> (r: Value)
        ensures
            vv(r) == st_pop(old(self).deep().stack).0,
            final(self).deep() == (StV { stack: st_pop(old(self).deep().stack).1, ..old(
                self,
            ).deep() }),
    {
        let r = match self.stack.pop() {
            Some(v) => v,
            None => Value::Null,
        };
        proof {
            assert(final(self).deep() =~~= StV {
                stack: st_pop(old(self).deep().stack).1,
                ..old(self).deep()
            });
        }
        r
    }

    fn push_value(&mut self, v: Value)
        ensures
            final(self).deep() == (StV { stack: old(self).deep().stack.push(vv(v)), ..old(
                self,
            ).deep() }),
    {
        proof {
            lemma_vv_seq_push(self.stack@, v);
        }
        self.stack.push(v);
        proof {
            assert(final(self).deep() =~~= StV {
                stack: old(self).deep().stack.push(vv(v)),
                ..old(self).deep()
            });
        }
    }

    fn push_frame(&mut self, f: Frame)
        ensures
            final(self).deep() == (StV { frames: old(self).deep().frames.push(fv(f)), ..old(
                self,
            ).deep() }),
    {
        let ghost fg = fv(f);
        self.frames.push(f);
        proof {
            assert(final(self).frames@.map_values(|x: Frame| fv(x)) =~= old(
                self,
            ).frames@.map_values(|x: Frame| fv(x)).push(fg));
            assert(final(self).deep() =~~= StV {
                frames: old(self).deep().frames.push(fg),
                ..old(self).deep()
            });
        }
    }

    /// Finds the first binding of a name, if any.
    fn env_find(&self, name: &String) -> (r: Option<usize>)
        ensures
            match r {
                None => env_lookup_from(self.deep().env, name@, 0) is None,
                Some(i) => i < self.memory@.len() && self.memory@[i as int].0@ == name@
                    && env_lookup_from(self.deep().env, name@, 0) == Some(
                    vv(self.memory@[i as int].1),
                ),
            },
    {
        let n = self.memory.len();
        for i in 0..n
            invariant
                n == self.memory@.len(),
                env_lookup_from(self.deep().env, name@, 0) == env_lookup_from(
                    self.deep().env,
                    name@,
                    i as int,
                ),
            decreases n - i,
        {
            if self.memory[i].0 == *name {
                return Some(i);
            }
        }
        None
    }

    /// Binds a name: overwrites the first binding of it, or appends one.
    fn env_set(&mut self, name: String, v: Value)
        ensures
            final(self).deep() == (StV {
                env: env_set_from(old(self).deep().env, name@, vv(v), 0),
                ..old(self).deep()
            }),
    {
        let ghost nm = name@;
        let ghost vg = vv(v);
        let ghost e0 = self.deep().env;
        let n = self.memory.len();
        for i in 0..n
            invariant
                n == self.memory@.len(),
                e0 == self.deep().env,
                self.stack@ == old(self).stack@,
                self.memory@ == old(self).memory@,
                self.frames@ == old(self).frames@,
                self.out@ == old(self).out@,
                self.returns == old(self).returns,
                self.mode == old(self).mode,
                nm == name@,
                vg == vv(v),
                env_set_from(e0, nm, vg, 0) == env_set_from(e0, nm, vg, i as int),
            decreases n - i,
        {
            if self.memory[i].0 == name {
                proof {
                    assert(e0[i as int].0 == nm);
                    assert(env_set_from(e0, nm, vg, i as int) == e0.update(i as int, (nm, vg)));
                }
                self.memory.set(i, (name, v));
                proof {
                    assert(final(self).memory@.map_values(|p: (String, Value)| (p.0@, vv(p.1)))
                        =~= e0.update(i as int, (nm, vg)));
                    assert(env_set_from(e0, nm, vg, 0) == e0.update(i as int, (nm, vg)));
                    assert(final(self).deep() =~~= StV {
                        env: env_set_from(e0, nm, vg, 0),
                        ..old(self).deep()
                    });
                }
                return ;
            }
        }
        self.memory.push((name, v));
        proof {
            assert(e0.len() == n);
            assert(env_set_from(e0, nm, vg, n as int) == e0.push((nm, vg)));
            assert(final(self).memory@.map_values(|p: (String, Value)| (p.0@, vv(p.1))) =~= e0.push(
                (nm, vg),
            ));
            assert(final(self).deep() =~~= StV {
                env: env_set_from(e0, nm, vg, 0),
                ..old(self).deep()
            });
        }
    }

    fn record_out(&mut self, text: String, newline: bool)
        ensures
            final(self).deep() == (StV {
                out: old(self).deep().out.push(OutV { text: text@, newline }),
                ..old(self).deep()
            }),
    {
        let ghost tg = text@;
        self.out.push(OutItem { text, newline });
        proof {
            assert(final(self).out@.map_values(|o: OutItem| OutV { text: o.text@, newline: o.newline })
                =~= old(self).deep().out.push(OutV { text: tg, newline }));
            assert(final(self).deep() =~~= StV {
                out: old(self).deep().out.push(OutV { text: tg, newline }),
                ..old(self).deep()
            });
        }
    }

    /// Applies one builtin operation.
    fn apply_op(&mut self, op: Op) -> (r: StepOut)
        ensures
            (final(self).deep(), r) == spec_apply_op(op, old(self).deep()),
    {
        match op {
            Op::Add | Op::Sub | Op::Mul | Op::Div | Op::Rem | Op::Pow => {
                let b = self.pop().get_number();
                let a = self.pop().get_number();
                self.mode = Mode::AwaitNum;
                proof {
                    assert(final(self).deep() =~~= spec_apply_op(op, old(self).deep()).0);
                }
                StepOut::NeedNum(op, a.bits, b.bits)
            },
            Op::Equal => {
                let b = self.pop().get_string();
                let a = self.pop().get_string();
                self.push_value(Value::Bool(a == b));
                proof {
                    assert(final(self).deep() =~~= spec_apply_op(op, old(self).deep()).0);
                }
                StepOut::Ran
            },
            Op::NotEqual => {
                let b = self.pop().get_string();
                let a = self.pop().get_string();
                self.push_value(Value::Bool(!(a == b)));
                proof {
                    assert(final(self).deep() =~~= spec_apply_op(op, old(self).deep()).0);
                }
                StepOut::Ran
            },
            Op::And => {
                let b = self.pop().get_bool();
                let a = self.pop().get_bool();
                self.push_value(Value::Bool(a && b));
                proof {
                    assert(final(self).deep() =~~= spec_apply_op(op, old(self).deep()).0);
                }
                StepOut::Ran
            },
            Op::Or => {
                let b = self.pop().get_bool();
                let a = self.pop().get_bool();
                self.push_value(Value::Bool(a || b));
                proof {
                    assert(final(self).deep() =~~= spec_apply_op(op, old(self).deep()).0);
                }
                StepOut::Ran
            },
            Op::Concat => {
                let b = self.pop().get_string();
                let a = self.pop().get_string();
                let joined = a.concat(b.as_str());
                self.push_value(Value::Text(joined));
                proof {
                    assert(final(self).deep() =~~= spec_apply_op(op, old(self).deep()).0);
                }
                StepOut::Ran
            },
            Op::Print => {
                let a = self.pop().get_string();
                self.record_out(a, false);
                proof {
                    assert(final(self).deep() =~~= spec_apply_op(op, old(self).deep()).0);
                }
                StepOut::Ran
            },
            Op::PrintLn => {
                let a = self.pop().get_string();
                self.record_out(a, true);
                proof {
                    assert(final(self).deep() =~~= spec_apply_op(op, old(self).deep()).0);
                }
                StepOut::Ran
            },
            Op::IfElse => {
                let code_false = self.pop().get_block();
                let code_true = self.pop().get_block();
                let condition = self.pop().get_bool();
                let chosen = if condition {
                    code_true
                } else {
                    code_false
                };
                self.push_frame(Frame::Run { items: chosen, pos: 0, check: false });
                proof {
                    assert(final(self).deep() =~~= spec_apply_op(op, old(self).deep()).0);
                }
                StepOut::Ran
            },
            Op::When => {
                let code_true = self.pop().get_block();
                let condition = self.pop().get_bool();
                if condition {
                    self.push_frame(Frame::Run { items: code_true, pos: 0, check: false });
                }
                proof {
                    assert(final(self).deep() =~~= spec_apply_op(op, old(self).deep()).0);
                }
                StepOut::Ran
            },
            Op::While => {
                let body = self.pop().get_block();
                let cond = self.pop().get_block();
                let cond2 = clone_values(&cond);
                self.push_frame(Frame::WhileTest { cond, body });
                self.push_frame(Frame::Run { items: cond2, pos: 0, check: false });
                proof {
                    assert(final(self).deep() =~~= spec_apply_op(op, old(self).deep()).0);
                }
                StepOut::Ran
            },
            Op::Ret => {
                let level = self.pop().get_number();
                self.returns = level.level;
                proof {
                    assert(final(self).deep() =~~= spec_apply_op(op, old(self).deep()).0);
                }
                StepOut::Ran
            },
            Op::Bind => {
                let name = self.pop().get_string();
                let value = self.pop();
                self.env_set(name, value);
                proof {
                    assert(final(self).deep() =~~= spec_apply_op(op, old(self).deep()).0);
                }
                StepOut::Ran
            },
            Op::Eval => {
                let code = self.pop().get_block();
                self.push_frame(Frame::Run { items: code, pos: 0, check: false });
                proof {
                    assert(final(self).deep() =~~= spec_apply_op(op, old(self).deep()).0);
                }
                StepOut::Ran
            },
            Op::Defun => {
                let name = self.pop().get_string();
                let body = self.pop().get_block();
                self.env_set(name, Value::Function(Function::UserDefined(body)));
                proof {
                    assert(final(self).deep() =~~= spec_apply_op(op, old(self).deep()).0);
                }
                StepOut::Ran
            },
            Op::Exit => {
                let code = self.pop().get_number();
                self.mode = Mode::Ended;
                proof {
                    assert(final(self).deep() =~~= spec_apply_op(op, old(self).deep()).0);
                }
                StepOut::Exited(code.bits)
            },
            Op::Pop => {
                let _discard = self.pop();
                proof {
                    assert(final(self).deep() =~~= spec_apply_op(op, old(self).deep()).0);
                }
                StepOut::Ran
            },
        }
    }

    fn dispatch(&mut self, item: Value) -> (r: StepOut)
        ensures
            (final(self).deep(), r) == spec_dispatch(vv(item), old(self).deep()),
    {
        match item {
            Value::Symbol(name) => {
                let found = self.env_find(&name);
                match found {
                    None => {
                        self.push_value(Value::Symbol(name));
                        StepOut::Ran
                    },
                    Some(i) => {
                        let bound = &self.memory[i].1;
                        match bound {
                            Value::Function(Function::Builtin(op)) => {
                                let op = *op;
                                self.apply_op(op)
                            },
                            Value::Function(Function::UserDefined(body)) => {
                                let items = clone_values(body);
                                self.push_frame(Frame::Run { items, pos: 0, check: false });
                                StepOut::Ran
                            },
                            _ => {
                                let c = self.memory[i].1.clone();
                                self.push_value(c);
                                StepOut::Ran
                            },
                        }
                    },
                }
            },
            other => {
                self.push_value(other);
                StepOut::Ran
            },
        }
    }

    /// Runs one step of the machine.
    pub fn step(&mut self) -> (r: StepOut)
        requires
            old(self).mode == Mode::Ready,
        ensures
            (final(self).deep(), r) == spec_step(old(self).deep()),
    {
        let n = self.frames.len();
        if n == 0 {
            return StepOut::Done;
        }
        let top = self.frames.pop().unwrap();
        proof {
            assert(old(self).deep().frames.last() == fv(top));
            assert(self.frames@.map_values(|x: Frame| fv(x)) =~= old(
                self,
            ).deep().frames.drop_last());
        }
        match top {
            Frame::Run { items, pos, check } => {
                proof {
                    crate::value::lemma_vv_seq_props(items@);
                }
                if check {
                    if self.returns != 0 {
                        self.returns = self.returns - 1;
                        proof {
                            assert(final(self).deep() =~~= spec_step(old(self).deep()).0);
                        }
                        StepOut::Ran
                    } else {
                        self.push_frame(Frame::Run { items, pos, check: false });
                        proof {
                            assert(old(self).deep().frames.drop_last().push(
                                fv(Frame::Run { items, pos, check: false }),
                            ) =~= old(self).deep().frames.update(
                                old(self).deep().frames.len() - 1,
                                fv(Frame::Run { items, pos, check: false }),
                            ));
                            assert(final(self).deep() =~~= spec_step(old(self).deep()).0);
                        }
                        StepOut::Ran
                    }
                } else if pos >= items.len() {
                    proof {
                        assert(final(self).deep() =~~= spec_step(old(self).deep()).0);
                    }
                    StepOut::Ran
                } else {
                    let item = items[pos].clone();
                    proof {
                        crate::value::lemma_vv_seq_props(items@);
                    }
                    let ghost up = FrameV::Run {
                        items: vv_seq(items@),
                        pos: (pos + 1) as nat,
                        check: true,
                    };
                    self.push_frame(Frame::Run { items, pos: pos + 1, check: true });
                    proof {
                        assert(old(self).deep().frames.drop_last().push(up) =~= old(
                            self,
                        ).deep().frames.update(old(self).deep().frames.len() - 1, up));
                    }
                    self.dispatch(item)
                }
            },
            Frame::WhileTest { cond, body } => {
                let c = self.pop().get_bool();
                if c {
                    let cond2 = clone_values(&cond);
                    let body2 = clone_values(&body);
                    self.push_frame(Frame::WhileTest { cond, body });
                    proof {
                        assert(old(self).deep().frames.drop_last().push(
                            old(self).deep().frames.last(),
                        ) =~= old(self).deep().frames);
                    }
                    self.push_frame(Frame::Run { items: cond2, pos: 0, check: false });
                    self.push_frame(Frame::Run { items: body2, pos: 0, check: false });
                    proof {
                        assert(final(self).deep() =~~= spec_step(old(self).deep()).0);
                    }
                    StepOut::Ran
                } else {
                    proof {
                        assert(final(self).deep() =~~= spec_step(old(self).deep()).0);
                    }
                    StepOut::Ran
                }
            },
        }
    }

    /// Schedules a program for evaluation: a new frame over the same stack
    /// and environment.
    pub fn eval(&mut self, program: Vec<Value>)
        requires
            old(self).mode == Mode::Ready,
        ensures
            final(self).deep() == (StV {
                frames: old(self).deep().frames.push(
                    FrameV::Run { items: vv_seq(program@), pos: 0, check: false },
                ),
                ..old(self).deep()
            }),
    {
        self.push_frame(Frame::Run { items: program, pos: 0, check: false });
    }

    /// Answers an outstanding arithmetic request: the resulting number is
    /// pushed and the session is ready again.
    pub fn supply_num(&mut self, n: Num)
        requires
            old(self).mode == Mode::AwaitNum,
        ensures
            final(self).deep() == (StV {
                stack: old(self).deep().stack.push(
                    ValueV::Number(NumV { bits: n.bits, text: n.text@, level: n.level }),
                ),
                mode: Mode::Ready,
                ..old(self).deep()
            }),
    {
        self.mode = Mode::Ready;
        self.push_value(Value::Number(n));
    }


    /// Steps the machine until evaluation finishes, a number request or an
    /// exit must be answered by the driver, or the step budget is spent.
    pub fn run_pending(&mut self, budget: u64) -> (r: StepOut)
        requires
            old(self).mode == Mode::Ready,
        ensures
            (final(self).deep(), r) == spec_drive(old(self).deep(), budget as nat),
    {
        let mut left: u64 = budget;
        loop
            invariant
                self.mode == Mode::Ready,
                spec_drive(old(self).deep(), budget as nat) == spec_drive(
                    self.deep(),
                    left as nat,
                ),
            decreases left,
        {
            if self.frames.len() == 0 {
                return StepOut::Done;
            }
            let ghost before = self.deep();
            let r = self.step();
            match r {
                StepOut::Ran => {
                    proof {
                        lemma_ran_keeps_ready(before);
                    }
                    if left == 0 {
                        return r;
                    }
                    left = left - 1;
                },
                _ => {
                    return r;
                },
            }
        }
    }

    /// Whether evaluation has nothing left to do.
    pub fn done(&self) -> (r: bool)
        ensures
            r == (self.deep().frames.len() == 0),
    {
        self.frames.len() == 0
    }
}


impl Core {
    /// A fresh session: empty stack, no frames, return counter zero, and the
    /// environment pre-loaded with every builtin operation, the three string
    /// constants, and the two boolean constants.
    pub fn new() -> (r: Core)
        ensures
            r.deep() == init_state(),
    {
        let mut memory: Vec<(String, Value)> = Vec::new();
        memory.push(("+".to_owned(), Value::Function(Function::Builtin(Op::Add))));
        memory.push(("-".to_owned(), Value::Function(Function::Builtin(Op::Sub))));
        memory.push(("*".to_owned(), Value::Function(Function::Builtin(Op::Mul))));
        memory.push(("/".to_owned(), Value::Function(Function::Builtin(Op::Div))));
        memory.push(("%".to_owned(), Value::Function(Function::Builtin(Op::Rem))));
        memory.push(("^".to_owned(), Value::Function(Function::Builtin(Op::Pow))));
        memory.push(("=".to_owned(), Value::Function(Function::Builtin(Op::Equal))));
        memory.push(("!=".to_owned(), Value::Function(Function::Builtin(Op::NotEqual))));
        memory.push(("&".to_owned(), Value::Function(Function::Builtin(Op::And))));
        memory.push(("|".to_owned(), Value::Function(Function::Builtin(Op::Or))));
        memory.push(("concat".to_owned(), Value::Function(Function::Builtin(Op::Concat))));
        memory.push(("print".to_owned(), Value::Function(Function::Builtin(Op::Print))));
        memory.push(("println".to_owned(), Value::Function(Function::Builtin(Op::PrintLn))));
        memory.push(("if-else".to_owned(), Value::Function(Function::Builtin(Op::IfElse))));
        memory.push(("when".to_owned(), Value::Function(Function::Builtin(Op::When))));
        memory.push(("while".to_owned(), Value::Function(Function::Builtin(Op::While))));
        memory.push(("return".to_owned(), Value::Function(Function::Builtin(Op::Ret))));
        memory.push(("let".to_owned(), Value::Function(Function::Builtin(Op::Bind))));
        memory.push(("eval".to_owned(), Value::Function(Function::Builtin(Op::Eval))));
        memory.push(("defun".to_owned(), Value::Function(Function::Builtin(Op::Defun))));
        memory.push(("exit".to_owned(), Value::Function(Function::Builtin(Op::Exit))));
        memory.push(("pop".to_owned(), Value::Function(Function::Builtin(Op::Pop))));
        memory.push(("new-line".to_owned(), Value::Text("\n".to_owned())));
        memory.push(("double-quote".to_owned(), Value::Text("\"".to_owned())));
        memory.push(("tab".to_owned(), Value::Text("\t".to_owned())));
        memory.push(("true".to_owned(), Value::Bool(true)));
        memory.push(("false".to_owned(), Value::Bool(false)));
        let r = Core {
            stack: Vec::new(),
            memory,
            frames: Vec::new(),
            returns: 0,
            out: Vec::new(),
            mode: Mode::Ready,
        };
        proof {
            reveal_strlit("+");
            reveal_strlit("-");
            reveal_strlit("*");
            reveal_strlit("/");
            reveal_strlit("%");
            reveal_strlit("^");
            reveal_strlit("=");
            reveal_strlit("!=");
            reveal_strlit("&");
            reveal_strlit("|");
            reveal_strlit("concat");
            reveal_strlit("print");
            reveal_strlit("println");
            reveal_strlit("if-else");
            reveal_strlit("when");
            reveal_strlit("while");
            reveal_strlit("return");
            reveal_strlit("let");
            reveal_strlit("eval");
            reveal_strlit("defun");
            reveal_strlit("exit");
            reveal_strlit("pop");
            reveal_strlit("new-line");
            reveal_strlit("double-quote");
            reveal_strlit("tab");
            reveal_strlit("true");
            reveal_strlit("false");
            reveal_strlit("\n");
            reveal_strlit("\"");
            reveal_strlit("\t");
            assert(env_v(r.memory@) =~~= builtin_env());
            assert(r.deep() =~~= init_state());
        }
        r
    }
}

/// The names and values every fresh environment starts with.
pub open spec fn builtin_env() -> Seq<(Seq<char>, ValueV)> {
    seq![
        (seq!['+'], ValueV::Builtin(Op::Add)),
        (seq!['-'], ValueV::Builtin(Op::Sub)),
        (seq!['*'], ValueV::Builtin(Op::Mul)),
        (seq!['/'], ValueV::Builtin(Op::Div)),
        (seq!['%'], ValueV::Builtin(Op::Rem)),
        (seq!['^'], ValueV::Builtin(Op::Pow)),
        (seq!['='], ValueV::Builtin(Op::Equal)),
        (seq!['!', '='], ValueV::Builtin(Op::NotEqual)),
        (seq!['&'], ValueV::Builtin(Op::And)),
        (seq!['|'], ValueV::Builtin(Op::Or)),
        (seq!['c', 'o', 'n', 'c', 'a', 't'], ValueV::Builtin(Op::Concat)),
        (seq!['p', 'r', 'i', 'n', 't'], ValueV::Builtin(Op::Print)),
        (seq!['p', 'r', 'i', 'n', 't', 'l', 'n'], ValueV::Builtin(Op::PrintLn)),
        (seq!['i', 'f', '-', 'e', 'l', 's', 'e'], ValueV::Builtin(Op::IfElse)),
        (seq!['w', 'h', 'e', 'n'], ValueV::Builtin(Op::When)),
        (seq!['w', 'h', 'i', 'l', 'e'], ValueV::Builtin(Op::While)),
        (seq!['r', 'e', 't', 'u', 'r', 'n'], ValueV::Builtin(Op::Ret)),
        (seq!['l', 'e', 't'], ValueV::Builtin(Op::Bind)),
        (seq!['e', 'v', 'a', 'l'], ValueV::Builtin(Op::Eval)),
        (seq!['d', 'e', 'f', 'u', 'n'], ValueV::Builtin(Op::Defun)),
        (seq!['e', 'x', 'i', 't'], ValueV::Builtin(Op::Exit)),
        (seq!['p', 'o', 'p'], ValueV::Builtin(Op::Pop)),
        (seq!['n', 'e', 'w', '-', 'l', 'i', 'n', 'e'], ValueV::Text(seq!['\n'])),
        (
            seq!['d', 'o', 'u', 'b', 'l', 'e', '-', 'q', 'u', 'o', 't', 'e'],
            ValueV::Text(seq!['"']),
        ),
        (seq!['t', 'a', 'b'], ValueV::Text(seq!['\t'])),
        (seq!['t', 'r', 'u', 'e'], ValueV::Bool(true)),
        (seq!['f', 'a', 'l', 's', 'e'], ValueV::Bool(false)),
    ]
}

/// The model of a fresh session.
pub open spec fn init_state() -> StV {
    StV {
        stack: Seq::empty(),
        env: builtin_env(),
        frames: Seq::empty(),
        ret: 0,
        out: Seq::empty(),
        mode: Mode::Ready,
    }
}

/// Answering an arithmetic request in the model.
pub open spec fn supply_spec(st: StV, n: NumV) -> StV {
    StV { stack: st.stack.push(ValueV::Number(n)), mode: Mode::Ready, ..st }
}

/// A whole run in the model: stepping while frames remain, consuming one
/// driver reply for each arithmetic request, halting after an `exit`, and
/// giving up when the step budget runs out.
pub open spec fn spec_run(st: StV, replies: Seq<NumV>, fuel: nat) -> StV
    decreases fuel,
{
    if fuel == 0 {
        st
    } else {
        match st.mode {
            Mode::Ready => if st.frames.len() == 0 {
                st
            } else {
                spec_run(spec_step(st).0, replies, (fuel - 1) as nat)
            },
            Mode::AwaitNum => if replies.len() == 0 {
                st
            } else {
                spec_run(supply_spec(st, replies[0]), replies.drop_first(), (fuel - 1) as nat)
            },
            Mode::Ended => st,
        }
    }
}

/// Popping an empty stack is harmless: the `pop` builtin applied to a
/// session with an empty stack reports an ordinary step and leaves the whole
/// session, stack included, exactly as it was — the popped value is Null and
/// is discarded.
pub proof fn lemma_pop_on_empty_stack(st: StV)
    requires
        st.stack.len() == 0,
    ensures
        spec_apply_op(Op::Pop, st) == (st, StepOut::Ran),
{
    assert(spec_apply_op(Op::Pop, st).0 =~~= st);
}



/// Driving the machine in the model: stepping until evaluation finishes,
/// a driver request or an exit comes up, or the step budget runs out —
/// whichever is first. A run that stops for the budget reports an ordinary
/// step with frames still pending, never a crash.
pub open spec fn spec_drive(st: StV, fuel: nat) -> (StV, StepOut)
    decreases fuel,
{
    if st.frames.len() == 0 {
        (st, StepOut::Done)
    } else {
        let stepped = spec_step(st);
        if fuel == 0 {
            stepped
        } else {
            match stepped.1 {
                StepOut::Ran => spec_drive(stepped.0, (fuel - 1) as nat),
                _ => stepped,
            }
        }
    }
}

/// A step that reports plain progress leaves the session ready: only an
/// arithmetic request or an exit changes what the session waits for.
pub proof fn lemma_ran_keeps_ready(st: StV)
    requires
        st.mode == Mode::Ready,
        spec_step(st).1 == StepOut::Ran,
    ensures
        spec_step(st).0.mode == Mode::Ready,
{
}

/// Binding is an unconditional overwrite: after `let` or `defun` binds a
/// name, that name resolves to exactly the new value, whatever was bound
/// before, and every other name resolves as it did before.
pub proof fn lemma_bind_overwrites(
    e: Seq<(Seq<char>, ValueV)>,
    name: Seq<char>,
    v: ValueV,
    other: Seq<char>,
)
    requires
        other != name,
    ensures
        env_lookup_from(env_set_from(e, name, v, 0), name, 0) == Some(v),
        env_lookup_from(env_set_from(e, name, v, 0), other, 0) == env_lookup_from(e, other, 0),
{
    lemma_set_then_lookup(e, name, v, 0);
    lemma_set_keeps_others(e, name, v, other, 0);
}

proof fn lemma_set_then_lookup(e: Seq<(Seq<char>, ValueV)>, name: Seq<char>, v: ValueV, i: int)
    requires
        0 <= i <= e.len(),
    ensures
        env_lookup_from(env_set_from(e, name, v, i), name, i) == Some(v),
        forall|k: int| 0 <= k < i ==> env_set_from(e, name, v, i)[k] == e[k],
    decreases e.len() - i,
{
    if i >= e.len() {
        assert(env_set_from(e, name, v, i) == e.push((name, v)));
    } else if e[i].0 == name {
    } else {
        lemma_set_then_lookup(e, name, v, i + 1);
    }
}

proof fn lemma_set_keeps_others(
    e: Seq<(Seq<char>, ValueV)>,
    name: Seq<char>,
    v: ValueV,
    other: Seq<char>,
    i: int,
)
    requires
        0 <= i <= e.len(),
        other != name,
    ensures
        env_lookup_from(env_set_from(e, name, v, i), other, i) == env_lookup_from(e, other, i),
    decreases e.len() - i,
{
    if i >= e.len() {
    } else if e[i].0 == name {
        lemma_update_lookup_untouched(e, i, (name, v), other, i);
    } else {
        lemma_set_keeps_others(e, name, v, other, i + 1);
        assert(env_set_from(e, name, v, i) == env_set_from(e, name, v, i + 1));
        lemma_set_then_lookup(e, name, v, i + 1);
    }
}

proof fn lemma_update_lookup_untouched(
    e: Seq<(Seq<char>, ValueV)>,
    j: int,
    p: (Seq<char>, ValueV),
    other: Seq<char>,
    i: int,
)
    requires
        0 <= j < e.len(),
        0 <= i <= e.len(),
        p.0 != other,
        e[j].0 != other,
    ensures
        env_lookup_from(e.update(j, p), other, i) == env_lookup_from(e, other, i),
    decreases e.len() - i,
{
    if i < e.len() {
        lemma_update_lookup_untouched(e, j, p, other, i + 1);
    }
}

/// Evaluation is deterministic: a run is a function of the starting session
/// and of the numbers the driver hands back, and nothing else. Two sessions
/// in equal states — in particular two fresh sessions holding the same
/// program — answered with equal replies are equal after any number of
/// steps, so identical input always yields identical final stack contents.
pub proof fn lemma_run_deterministic(a: StV, b: StV, replies: Seq<NumV>, fuel: nat)
    requires
        a == b,
    ensures
        spec_run(a, replies, fuel) == spec_run(b, replies, fuel),
{
}

} // verus!
