use vstd::prelude::*;

verus! {

/// The builtin operations of the language. Each is installed into a fresh
/// session's environment under its surface name, and the evaluator dispatches
/// on this closed enum by pattern match.
#[derive(Clone, Copy, Debug, PartialEq, Eq, Structural)]
pub enum Op {
    Add,
    Sub,
    Mul,
    Div,
    Rem,
    Pow,
    Equal,
    NotEqual,
    And,
    Or,
    Concat,
    Print,
    PrintLn,
    IfElse,
    When,
    While,
    Ret,
    Bind,
    Eval,
    Defun,
    Exit,
    Pop,
}

/// A runtime number. The language's numbers are 64-bit IEEE-754 floats; the
/// library holds one as its raw bit pattern together with the two readings
/// the evaluator needs of it: its canonical decimal rendering and its
/// truncation to an unsigned machine integer (saturating at the ends).
/// The driver that performs native float work supplies all three fields
/// together; the evaluator never takes them apart.
#[derive(Debug, PartialEq)]
pub struct Num {
    pub bits: u64,
    pub text: String,
    pub level: usize,
}

/// A runtime value: the closed tagged union of every datum the language has.
#[derive(Debug, PartialEq)]
pub enum Value {
    Number(Num),
    Text(String),
    Bool(bool),
    Symbol(String),
    Function(Function),
    Block(Vec<Value>),
    Null,
}

/// A callable: either a native builtin operation or a user-defined body,
/// which is an ordered value sequence evaluated in the caller's own frame.
#[derive(Debug, PartialEq)]
pub enum Function {
    Builtin(Op),
    UserDefined(Vec<Value>),
}

/// Mathematical image of a `Num`.
#[verifier::ext_equal]
pub ghost struct NumV {
    pub bits: u64,
    pub text: Seq<char>,
    pub level: usize,
}

/// Mathematical image of a `Value`: strings become `Seq<char>`, vectors
/// become `Seq`, recursively.
#[verifier::ext_equal]
pub ghost enum ValueV {
    Number(NumV),
    Text(Seq<char>),
    Bool(bool),
    Symbol(Seq<char>),
    Builtin(Op),
    Defined(Seq<ValueV>),
    Block(Seq<ValueV>),
    Null,
}

pub open spec fn vv(v: Value) -> ValueV
    decreases v,
{
    match v {
        Value::Number(n) => ValueV::Number(NumV { bits: n.bits, text: n.text@, level: n.level }),
        Value::Text(s) => ValueV::Text(s@),
        Value::Bool(b) => ValueV::Bool(b),
        Value::Symbol(s) => ValueV::Symbol(s@),
        Value::Function(Function::Builtin(op)) => ValueV::Builtin(op),
        Value::Function(Function::UserDefined(body)) => ValueV::Defined(vv_seq(body@)),
        Value::Block(items) => ValueV::Block(vv_seq(items@)),
        Value::Null => ValueV::Null,
    }
}

pub open spec fn vv_seq(s: Seq<Value>) -> Seq<ValueV>
    decreases s,
{
    if s.len() == 0 {
        Seq::empty()
    } else {
        vv_seq(s.drop_last()).push(vv(s.last()))
    }
}

pub proof fn lemma_vv_seq_props(s: Seq<Value>)
    ensures
        vv_seq(s).len() == s.len(),
        forall|i: int| 0 <= i < s.len() ==> vv_seq(s)[i] == vv(s[i]),
    decreases s,
{
    if s.len() > 0 {
        lemma_vv_seq_props(s.drop_last());
    }
}

pub proof fn lemma_vv_seq_push(s: Seq<Value>, v: Value)
    ensures
        vv_seq(s.push(v)) == vv_seq(s).push(vv(v)),
{
    assert(s.push(v).drop_last() =~= s);
    assert(s.push(v).last() == v);
}

/// The number that every non-number coerces to: positive zero, which renders
/// as "0" and truncates to 0.
pub open spec fn num_zero() -> NumV {
    NumV { bits: 0u64, text: seq!['0'], level: 0usize }
}

/// Coercion of a value to a number: a number is itself, anything else is zero.
pub open spec fn as_num(v: ValueV) -> NumV {
    match v {
        ValueV::Number(n) => n,
        _ => num_zero(),
    }
}

/// Coercion of a value to text: strings and symbols give their own text,
/// numbers their decimal rendering, everything else the empty string.
pub open spec fn as_text(v: ValueV) -> Seq<char> {
    match v {
        ValueV::Text(s) => s,
        ValueV::Symbol(s) => s,
        ValueV::Number(n) => n.text,
        _ => Seq::empty(),
    }
}

/// Coercion of a value to a boolean: only a boolean is itself, all else false.
pub open spec fn as_bool(v: ValueV) -> bool {
    match v {
        ValueV::Bool(b) => b,
        _ => false,
    }
}

/// Coercion of a value to a block: a block gives its items, any other value
/// stands for the one-item block wrapping itself.
pub open spec fn as_block(v: ValueV) -> Seq<ValueV> {
    match v {
        ValueV::Block(items) => items,
        other => seq![other],
    }
}

pub fn clone_values(items: &Vec<Value>) -> (r: Vec<Value>)
    ensures
        vv_seq(r@) == vv_seq(items@),
    decreases *items,
{
    let mut r: Vec<Value> = Vec::new();
    let n = items.len();
    for i in 0..n
        invariant
            n == items.len(),
            vv_seq(r@) == vv_seq(items@.take(i as int)),
        decreases n - i,
    {
        let c = clone_value(&items[i]);
        proof {
            lemma_vv_seq_push(r@, c);
            lemma_vv_seq_push(items@.take(i as int), items[i as int]);
            assert(items@.take(i as int).push(items[i as int]) =~= items@.take(i + 1));
        }
        r.push(c);
    }
    proof {
        assert(items@.take(n as int) =~= items@);
    }
    r
}

fn clone_value(v: &Value) -> (r: Value)
    ensures
        vv(r) == vv(*v),
    decreases *v,
{
    match v {
        Value::Number(n) => Value::Number(Num { bits: n.bits, text: n.text.clone(), level: n.level }),
        Value::Text(s) => Value::Text(s.clone()),
        Value::Bool(b) => Value::Bool(*b),
        Value::Symbol(s) => Value::Symbol(s.clone()),
        Value::Function(Function::Builtin(op)) => Value::Function(Function::Builtin(*op)),
        Value::Function(Function::UserDefined(body)) => Value::Function(
            Function::UserDefined(clone_values(body)),
        ),
        Value::Block(items) => Value::Block(clone_values(items)),
        Value::Null => Value::Null,
    }
}

impl Clone for Value {
    /// Values have plain copy semantics: a clone has the same image.
    fn clone(&self) -> (r: Self)
        ensures
            vv(r) == vv(*self),
    {
        clone_value(self)
    }
}

impl Value {
    /// Reads this value as a number, defaulting to zero for non-numbers.
    pub fn get_number(&self) -> (r: Num)
        ensures
            r.bits == as_num(vv(*self)).bits,
            r.text@ == as_num(vv(*self)).text,
            r.level == as_num(vv(*self)).level,
    {
        match self {
            Value::Number(n) => Num { bits: n.bits, text: n.text.clone(), level: n.level },
            _ => {
                let z = zero_text();
                Num { bits: 0, text: z, level: 0 }
            },
        }
    }

    /// Reads this value as text, following the default coercion rules.
    pub fn get_string(&self) -> (r: String)
        ensures
            r@ == as_text(vv(*self)),
    {
        match self {
            Value::Text(s) => s.clone(),
            Value::Symbol(s) => s.clone(),
            Value::Number(n) => n.text.clone(),
            _ => String::new(),
        }
    }

    /// Reads this value as a boolean, false for non-booleans.
    pub fn get_bool(&self) -> (r: bool)
        ensures
            r == as_bool(vv(*self)),
    {
        match self {
            Value::Bool(b) => *b,
            _ => false,
        }
    }

    /// Reads this value as a block: a block yields its items, any other
    /// value the one-item sequence holding itself.
    pub fn get_block(&self) -> (r: Vec<Value>)
        ensures
            vv_seq(r@) == as_block(vv(*self)),
    {
        match self {
            Value::Block(items) => clone_values(items),
            _ => {
                let c = clone_value(self);
                let mut r: Vec<Value> = Vec::new();
                proof {
                    lemma_vv_seq_push(Seq::<Value>::empty(), c);
                    assert(seq![vv(*self)] =~= Seq::<ValueV>::empty().push(vv(*self)));
                }
                r.push(c);
                r
            },
        }
    }
}

/// The rendering of the default number zero.
fn zero_text() -> (r: String)
    ensures
        r@ == seq!['0'],
{
    let mut s = String::new();
    push_char(&mut s, '0');
    proof {
        assert(Seq::<char>::empty().push('0') =~= seq!['0']);
    }
    s
}

/// Relies on `String::push`: appends exactly the one character to the end.
#[verifier::external_body]
pub fn push_char(s: &mut String, c: char)
    ensures
        final(s)@ == old(s)@.push(c),
{
    s.push(c)
}

} // verus!
