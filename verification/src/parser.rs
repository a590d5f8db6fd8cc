use vstd::prelude::*;
use crate::value::{Num, NumV, Value, ValueV, vv, vv_seq, lemma_vv_seq_props, lemma_vv_seq_push,
    push_char};
use crate::lexer::{spec_tokenize, tokenize_expr, toks_view, lemma_token_lengths};

verus! {

/// What the driver reports about numeric tokens. The language classifies a
/// token as a number exactly when the platform's 64-bit float parser accepts
/// it; that parser cannot live here, so the driver hands in a table mapping
/// trimmed token text to the parsed number, or to nothing for text the
/// float parser rejects. A token absent from the table counts as rejected.
pub struct NumTable {
    pub entries: Vec<(String, Option<Num>)>,
}

pub open spec fn num_opt_view(o: Option<Num>) -> Option<NumV> {
    match o {
        Some(n) => Some(NumV { bits: n.bits, text: n.text@, level: n.level }),
        None => None,
    }
}

impl NumTable {
    pub open spec fn view_spec(&self) -> Seq<(Seq<char>, Option<NumV>)> {
        self.entries@.map_values(|p: (String, Option<Num>)| (p.0@, num_opt_view(p.1)))
    }
}

/// The table's answer for a token: the first entry with that text, or
/// "rejected" when the token is absent.
pub open spec fn table_num(t: Seq<(Seq<char>, Option<NumV>)>, tok: Seq<char>) -> Option<NumV>
    decreases t.len(),
{
    if t.len() == 0 {
        None
    } else if t[0].0 == tok {
        t[0].1
    } else {
        table_num(t.drop_first(), tok)
    }
}

/// The Unicode white-space characters: the set that trimming a token's
/// surroundings removes before classification.
pub open spec fn is_unicode_space(c: char) -> bool {
    c == '\u{9}' || c == '\u{A}' || c == '\u{B}' || c == '\u{C}' || c == '\u{D}' || c == ' '
        || c == '\u{85}' || c == '\u{A0}' || c == '\u{1680}' || c == '\u{2000}' || c == '\u{2001}'
        || c == '\u{2002}' || c == '\u{2003}' || c == '\u{2004}' || c == '\u{2005}'
        || c == '\u{2006}' || c == '\u{2007}' || c == '\u{2008}' || c == '\u{2009}'
        || c == '\u{200A}' || c == '\u{2028}' || c == '\u{2029}' || c == '\u{202F}'
        || c == '\u{205F}' || c == '\u{3000}'
}

pub open spec fn trim_front(t: Seq<char>) -> Seq<char>
    decreases t.len(),
{
    if t.len() > 0 && is_unicode_space(t[0]) {
        trim_front(t.drop_first())
    } else {
        t
    }
}

pub open spec fn trim_back(t: Seq<char>) -> Seq<char>
    decreases t.len(),
{
    if t.len() > 0 && is_unicode_space(t.last()) {
        trim_back(t.drop_last())
    } else {
        t
    }
}

/// A token with its surrounding Unicode white space stripped from both ends.
pub open spec fn trim_spaces(t: Seq<char>) -> Seq<char> {
    trim_back(trim_front(t))
}

pub proof fn lemma_trim_front_len(t: Seq<char>)
    ensures
        trim_front(t).len() <= t.len(),
    decreases t.len(),
{
    if t.len() > 0 && is_unicode_space(t[0]) {
        lemma_trim_front_len(t.drop_first());
    }
}

pub proof fn lemma_trim_back_len(t: Seq<char>)
    ensures
        trim_back(t).len() <= t.len(),
    decreases t.len(),
{
    if t.len() > 0 && is_unicode_space(t.last()) {
        lemma_trim_back_len(t.drop_last());
    }
}

/// Trimming never lengthens a token.
pub proof fn lemma_trim_len(t: Seq<char>)
    ensures
        trim_spaces(t).len() <= t.len(),
{
    lemma_trim_front_len(t);
    lemma_trim_back_len(trim_front(t));
}

/// Classification of a token sequence, in the language's strict order.
/// Each token is first trimmed of surrounding Unicode white space; then:
/// a token the float parser accepts is a number; else one wrapped in
/// quotes is a string with exactly the first and last quote stripped and
/// no escape processing; else one wrapped in braces is a block whose inner
/// text is tokenized and classified recursively; else a bare symbol.
/// `n` bounds the inner text of a block, which is always shorter than the
/// text the block token was scanned from.
pub open spec fn parse_toks(
    toks: Seq<Seq<char>>,
    t: Seq<(Seq<char>, Option<NumV>)>,
    n: nat,
) -> Seq<ValueV>
    decreases n, toks.len(),
{
    if toks.len() == 0 {
        Seq::empty()
    } else {
        let tok = trim_spaces(toks[0]);
        let v = if table_num(t, tok) is Some {
            ValueV::Number(table_num(t, tok)->0)
        } else if tok.len() >= 2 && tok[0] == '"' && tok[tok.len() - 1] == '"' {
            ValueV::Text(tok.subrange(1, tok.len() - 1))
        } else if tok.len() >= 2 && tok[0] == '{' && tok[tok.len() - 1] == '}' {
            let inner = tok.subrange(1, tok.len() - 1);
            ValueV::Block(
                if inner.len() < n {
                    parse_toks(spec_tokenize(inner), t, inner.len())
                } else {
                    Seq::empty()
                },
            )
        } else {
            ValueV::Symbol(tok)
        };
        seq![v] + parse_toks(toks.drop_first(), t, n)
    }
}

/// What parsing source text yields: its tokens, trimmed and classified.
pub open spec fn spec_parse(
    text: Seq<char>,
    t: Seq<(Seq<char>, Option<NumV>)>,
) -> Seq<ValueV> {
    parse_toks(spec_tokenize(text), t, text.len())
}

fn ws_char(c: char) -> (r: bool)
    ensures
        r == is_unicode_space(c),
{
    c == '\u{9}' || c == '\u{A}' || c == '\u{B}' || c == '\u{C}' || c == '\u{D}' || c == ' '
        || c == '\u{85}' || c == '\u{A0}' || c == '\u{1680}' || c == '\u{2000}' || c == '\u{2001}'
        || c == '\u{2002}' || c == '\u{2003}' || c == '\u{2004}' || c == '\u{2005}'
        || c == '\u{2006}' || c == '\u{2007}' || c == '\u{2008}' || c == '\u{2009}'
        || c == '\u{200A}' || c == '\u{2028}' || c == '\u{2029}' || c == '\u{202F}'
        || c == '\u{205F}' || c == '\u{3000}'
}

fn skip_front(cs: &Vec<char>, a: usize) -> (r: usize)
    requires
        a <= cs@.len(),
    ensures
        a <= r <= cs@.len(),
        trim_front(cs@.skip(a as int)) == cs@.skip(r as int),
    decreases cs@.len() - a,
{
    if a < cs.len() {
        if ws_char(cs[a]) {
            proof {
                assert(cs@.skip(a as int)[0] == cs@[a as int]);
                assert(cs@.skip(a as int).drop_first() =~= cs@.skip(a as int + 1));
            }
            return skip_front(cs, a + 1);
        }
    }
    proof {
        if a >= cs@.len() {
            assert(cs@.skip(a as int) =~= Seq::<char>::empty());
        }
    }
    a
}

fn skip_back(cs: &Vec<char>, a: usize, b: usize) -> (r: usize)
    requires
        a <= b <= cs@.len(),
    ensures
        a <= r <= b,
        trim_back(cs@.subrange(a as int, b as int)) == cs@.subrange(a as int, r as int),
    decreases b,
{
    if b > a {
        if ws_char(cs[b - 1]) {
            proof {
                assert(cs@.subrange(a as int, b as int).last() == cs@[b as int - 1]);
                assert(cs@.subrange(a as int, b as int).drop_last() =~= cs@.subrange(
                    a as int,
                    b as int - 1,
                ));
            }
            return skip_back(cs, a, b - 1);
        }
    }
    b
}

/// Strips the surrounding Unicode white space from a token.
fn trim_token(cs: &Vec<char>) -> (r: Vec<char>)
    ensures
        r@ == trim_spaces(cs@),
{
    let n = cs.len();
    let a = skip_front(cs, 0);
    proof {
        assert(cs@.skip(0) =~= cs@);
        assert(cs@.skip(a as int) =~= cs@.subrange(a as int, n as int));
    }
    let b = skip_back(cs, a, n);
    sub_vec(cs, a, b)
}

fn to_string_vec(cs: &Vec<char>, a: usize, b: usize) -> (s: String)
    requires
        a <= b <= cs@.len(),
    ensures
        s@ == cs@.subrange(a as int, b as int),
{
    let mut s = String::new();
    for j in a..b
        invariant
            a <= j <= b <= cs@.len(),
            s@ == cs@.subrange(a as int, j as int),
        decreases b - j,
    {
        push_char(&mut s, cs[j]);
        proof {
            assert(cs@.subrange(a as int, j as int).push(cs@[j as int]) =~= cs@.subrange(
                a as int,
                j as int + 1,
            ));
        }
    }
    s
}

fn sub_vec(cs: &Vec<char>, a: usize, b: usize) -> (r: Vec<char>)
    requires
        a <= b <= cs@.len(),
    ensures
        r@ == cs@.subrange(a as int, b as int),
{
    let mut r: Vec<char> = Vec::new();
    for j in a..b
        invariant
            a <= j <= b <= cs@.len(),
            r@ == cs@.subrange(a as int, j as int),
        decreases b - j,
    {
        r.push(cs[j]);
        proof {
            assert(cs@.subrange(a as int, j as int).push(cs@[j as int]) =~= cs@.subrange(
                a as int,
                j as int + 1,
            ));
        }
    }
    r
}

fn find_num(t: &NumTable, tok: &String) -> (r: Option<Num>)
    ensures
        num_opt_view(r) == table_num(t.view_spec(), tok@),
{
    let n = t.entries.len();
    proof {
        assert(t.view_spec().skip(0) =~= t.view_spec());
    }
    for i in 0..n
        invariant
            n == t.entries.len(),
            table_num(t.view_spec(), tok@) == table_num(t.view_spec().skip(i as int), tok@),
        decreases n - i,
    {
        proof {
            assert(t.view_spec().skip(i as int)[0] == t.view_spec()[i as int]);
            assert(t.view_spec().skip(i as int).drop_first() =~= t.view_spec().skip(i as int + 1));
        }
        if t.entries[i].0 == *tok {
            let r = match &t.entries[i].1 {
                Some(m) => Some(Num { bits: m.bits, text: m.text.clone(), level: m.level }),
                None => None,
            };
            return r;
        }
    }
    proof {
        assert(t.view_spec().skip(n as int) =~= Seq::<(Seq<char>, Option<NumV>)>::empty());
    }
    None
}

/// Parses source text into a program: the ordered value sequence its tokens
/// classify to after trimming, with block tokens parsed recursively.
pub fn parse(text: &Vec<char>, nums: &NumTable) -> (r: Vec<Value>)
    ensures
        vv_seq(r@) == spec_parse(text@, nums.view_spec()),
    decreases text@.len(),
{
    let toks = tokenize_expr(text);
    let ghost tv = nums.view_spec();
    let ghost n = text@.len();
    proof {
        lemma_token_lengths(text@);
    }
    let mut result: Vec<Value> = Vec::new();
    let m = toks.len();
    proof {
        assert(toks_view(toks@).skip(0) =~= toks_view(toks@));
        assert(vv_seq(result@) + parse_toks(toks_view(toks@), tv, n) =~= parse_toks(
            toks_view(toks@),
            tv,
            n,
        ));
        assert forall|k: int| 0 <= k < toks@.len() implies toks@[k]@.len() <= n by {
            assert(toks_view(toks@)[k] == toks@[k]@);
            assert(spec_tokenize(text@)[k].len() <= text@.len());
        }
    }
    for i in 0..m
        invariant
            m == toks.len(),
            toks_view(toks@) == spec_tokenize(text@),
            tv == nums.view_spec(),
            n == text@.len(),
            forall|k: int| 0 <= k < toks@.len() ==> toks@[k]@.len() <= n,
            parse_toks(toks_view(toks@), tv, n) == vv_seq(result@) + parse_toks(
                toks_view(toks@).skip(i as int),
                tv,
                n,
            ),
        decreases m - i,
    {
        let ghost toksv = toks_view(toks@);
        proof {
            assert(toksv.skip(i as int)[0] == toks@[i as int]@);
            assert(toksv.skip(i as int).drop_first() =~= toksv.skip(i as int + 1));
        }
        let tok = trim_token(&toks[i]);
        proof {
            lemma_trim_len(toks@[i as int]@);
        }
        let len = tok.len();
        let s = to_string_vec(&tok, 0, len);
        proof {
            assert(tok@.subrange(0, len as int) =~= tok@);
        }
        let looked = find_num(nums, &s);
        let v: Value;
        match looked {
            Some(num) => {
                v = Value::Number(num);
            },
            None => {
                if len >= 2 && tok[0] == '"' && tok[len - 1] == '"' {
                    let body = to_string_vec(&tok, 1, len - 1);
                    v = Value::Text(body);
                } else if len >= 2 && tok[0] == '{' && tok[len - 1] == '}' {
                    let inner = sub_vec(&tok, 1, len - 1);
                    proof {
                        assert(inner@.len() < n);
                    }
                    let sub = parse(&inner, nums);
                    v = Value::Block(sub);
                } else {
                    v = Value::Symbol(s);
                }
            },
        }
        proof {
            lemma_vv_seq_push(result@, v);
            assert(vv_seq(result@).push(vv(v)) + parse_toks(toksv.skip(i as int + 1), tv, n)
                =~= vv_seq(result@) + (seq![vv(v)] + parse_toks(toksv.skip(i as int + 1), tv, n)));
        }
        result.push(v);
    }
    proof {
        assert(toks_view(toks@).skip(m as int) =~= Seq::<Seq<char>>::empty());
        assert(vv_seq(result@) + Seq::<ValueV>::empty() =~= vv_seq(result@));
    }
    result
}

/// The symbol names a parsed program mentions, at any block depth, in
/// order. Function values carry no names a parse could have produced, so
/// only symbols and blocks are walked.
pub open spec fn sym_names(s: Seq<ValueV>) -> Seq<Seq<char>>
    decreases s,
{
    if s.len() == 0 {
        Seq::empty()
    } else {
        let head = match s[0] {
            ValueV::Symbol(name) => seq![name],
            ValueV::Block(items) => sym_names(items),
            _ => Seq::empty(),
        };
        head + sym_names(s.drop_first())
    }
}

pub open spec fn names_view(s: Seq<String>) -> Seq<Seq<char>> {
    s.map_values(|x: String| x@)
}

fn collect_sym_names(values: &Vec<Value>, out: &mut Vec<String>)
    ensures
        names_view(final(out)@) == names_view(old(out)@) + sym_names(vv_seq(values@)),
    decreases *values,
{
    let ghost g = vv_seq(values@);
    let n = values.len();
    proof {
        lemma_vv_seq_props(values@);
        assert(g.skip(0) =~= g);
        assert(names_view(old(out)@) + sym_names(g) =~= names_view(out@) + sym_names(g.skip(0)));
    }
    for i in 0..n
        invariant
            n == values.len(),
            g == vv_seq(values@),
            g.len() == n,
            forall|k: int| 0 <= k < n ==> g[k] == vv(values@[k]),
            names_view(old(out)@) + sym_names(g) == names_view(out@) + sym_names(
                g.skip(i as int),
            ),
        decreases n - i,
    {
        proof {
            assert(g.skip(i as int)[0] == g[i as int]);
            assert(g.skip(i as int).drop_first() =~= g.skip(i as int + 1));
        }
        match &values[i] {
            Value::Symbol(name) => {
                let c = name.clone();
                proof {
                    assert(names_view(out@.push(c)) =~= names_view(out@).push(c@));
                    assert(names_view(out@).push(c@) + sym_names(g.skip(i as int + 1))
                        =~= names_view(out@) + (seq![c@] + sym_names(g.skip(i as int + 1))));
                }
                out.push(c);
            },
            Value::Block(items) => {
                let ghost before = out@;
                collect_sym_names(items, out);
                proof {
                    assert((names_view(before) + sym_names(vv_seq(items@))) + sym_names(
                        g.skip(i as int + 1),
                    ) =~= names_view(before) + (sym_names(vv_seq(items@)) + sym_names(
                        g.skip(i as int + 1),
                    )));
                }
            },
            _ => {
                proof {
                    assert(Seq::<Seq<char>>::empty() + sym_names(g.skip(i as int + 1))
                        =~= sym_names(g.skip(i as int + 1)));
                }
            },
        }
    }
    proof {
        assert(g.skip(n as int) =~= Seq::<ValueV>::empty());
        assert(names_view(out@) + Seq::<Seq<char>>::empty() =~= names_view(out@));
    }
}

/// The candidate number tokens of a parsed program: every symbol it
/// mentions, at any depth. A driver parses once against an empty table —
/// every numeric token then surfaces as a bare symbol — asks the float
/// parser about each name this function returns, and parses again with the
/// answers.
pub fn number_candidates(program: &Vec<Value>) -> (r: Vec<String>)
    ensures
        names_view(r@) == sym_names(vv_seq(program@)),
{
    let mut out: Vec<String> = Vec::new();
    proof {
        assert(names_view(Seq::<String>::empty()) =~= Seq::<Seq<char>>::empty());
    }
    collect_sym_names(program, &mut out);
    proof {
        assert(Seq::<Seq<char>>::empty() + sym_names(vv_seq(program@)) =~= sym_names(
            vv_seq(program@),
        ));
    }
    out
}

} // verus!
