use vstd::prelude::*;

verus! {

/// The characters that separate tokens: space, full-width space, newline,
/// tab and carriage return.
pub open spec fn is_space(c: char) -> bool {
    c == ' ' || c == '\u{3000}' || c == '\n' || c == '\t' || c == '\r'
}

/// The scanner's state: the tokens flushed so far, the buffer of the token
/// being built, the brace nesting depth, and whether a quote is open.
#[verifier::ext_equal]
pub ghost struct TokSt {
    pub toks: Seq<Seq<char>>,
    pub buf: Seq<char>,
    pub depth: nat,
    pub quote: bool,
}

pub open spec fn tok_init() -> TokSt {
    TokSt { toks: Seq::empty(), buf: Seq::empty(), depth: 0, quote: false }
}

/// One character of scanning. A `{` outside a quote deepens the nesting and
/// is kept; a `}` outside a quote is kept only when nesting is open, and
/// closing the last brace flushes the token; a `"` at depth zero toggles
/// quote mode and closing it flushes; whitespace at depth zero outside a
/// quote flushes a non-empty buffer and is discarded, while inside braces or
/// quotes it is kept verbatim; every other character is appended.
pub open spec fn tok_step(st: TokSt, c: char) -> TokSt {
    if c == '{' && !st.quote {
        TokSt { buf: st.buf.push(c), depth: st.depth + 1, ..st }
    } else if c == '}' && !st.quote {
        if st.depth == 0 {
            st
        } else if st.depth == 1 {
            TokSt { toks: st.toks.push(st.buf.push(c)), buf: Seq::empty(), depth: 0, ..st }
        } else {
            TokSt { buf: st.buf.push(c), depth: (st.depth - 1) as nat, ..st }
        }
    } else if c == '"' {
        if st.depth == 0 {
            if st.quote {
                TokSt { toks: st.toks.push(st.buf.push(c)), buf: Seq::empty(), quote: false, ..st }
            } else {
                TokSt { buf: st.buf.push(c), quote: true, ..st }
            }
        } else {
            TokSt { buf: st.buf.push(c), ..st }
        }
    } else if is_space(c) {
        if st.depth != 0 || st.quote {
            TokSt { buf: st.buf.push(c), ..st }
        } else if st.buf.len() != 0 {
            TokSt { toks: st.toks.push(st.buf), buf: Seq::empty(), ..st }
        } else {
            st
        }
    } else {
        TokSt { buf: st.buf.push(c), ..st }
    }
}

pub open spec fn tok_run(st: TokSt, cs: Seq<char>) -> TokSt
    decreases cs.len(),
{
    if cs.len() == 0 {
        st
    } else {
        tok_run(tok_step(st, cs[0]), cs.drop_first())
    }
}

/// End of input: the trailing partial token is kept only when no quote and
/// no brace is left open.
pub open spec fn tok_finish(st: TokSt) -> Seq<Seq<char>> {
    if st.depth == 0 && !st.quote && st.buf.len() != 0 {
        st.toks.push(st.buf)
    } else {
        st.toks
    }
}

/// What tokenizing a character sequence yields.
pub open spec fn spec_tokenize(cs: Seq<char>) -> Seq<Seq<char>> {
    tok_finish(tok_run(tok_init(), cs))
}

pub open spec fn toks_view(s: Seq<Vec<char>>) -> Seq<Seq<char>> {
    s.map_values(|t: Vec<char>| t@)
}

/// Every token the scanner emits is built from scanned characters, so no
/// token is longer than what has been read.
pub proof fn lemma_tok_run_bounds(st: TokSt, cs: Seq<char>, b: nat)
    requires
        forall|i: int| 0 <= i < st.toks.len() ==> st.toks[i].len() <= b,
        st.buf.len() + cs.len() <= b,
    ensures
        tok_run(st, cs).buf.len() <= b,
        forall|i: int| 0 <= i < tok_run(st, cs).toks.len() ==> tok_run(st, cs).toks[i].len() <= b,
    decreases cs.len(),
{
    if cs.len() > 0 {
        let st2 = tok_step(st, cs[0]);
        lemma_tok_run_bounds(st2, cs.drop_first(), b);
    }
}

/// No token is longer than the input it was scanned from.
pub proof fn lemma_token_lengths(cs: Seq<char>)
    ensures
        forall|i: int| 0 <= i < spec_tokenize(cs).len() ==> spec_tokenize(cs)[i].len() <= cs.len(),
{
    lemma_tok_run_bounds(tok_init(), cs, cs.len());
}

/// An unterminated quote or an unmatched trailing brace at end of input
/// silently drops the partial token: only the tokens already flushed are
/// emitted, and nothing is emitted for the trailing part.
pub proof fn lemma_trailing_partial_token_dropped(cs: Seq<char>)
    requires
        tok_run(tok_init(), cs).quote || tok_run(tok_init(), cs).depth != 0,
    ensures
        spec_tokenize(cs) == tok_run(tok_init(), cs).toks,
{
}


/// The complement: when no quote and no brace is left open, the trailing
/// partial token, if non-empty, is flushed as the final token.
pub proof fn lemma_complete_trailing_token_kept(cs: Seq<char>)
    requires
        !tok_run(tok_init(), cs).quote,
        tok_run(tok_init(), cs).depth == 0,
        tok_run(tok_init(), cs).buf.len() != 0,
    ensures
        spec_tokenize(cs) == tok_run(tok_init(), cs).toks.push(tok_run(tok_init(), cs).buf),
{
}

/// Splits source text into raw tokens: quoted strings and brace-delimited
/// blocks are kept as single tokens, whitespace separates the rest.
pub fn tokenize_expr(input: &Vec<char>) -> (r: Vec<Vec<char>>)
    ensures
        toks_view(r@) == spec_tokenize(input@),
{
    let mut toks: Vec<Vec<char>> = Vec::new();
    let mut buf: Vec<char> = Vec::new();
    let mut depth: usize = 0;
    let mut quote: bool = false;
    let n = input.len();
    let ghost all = input@;
    proof {
        assert(TokSt { toks: toks_view(toks@), buf: buf@, depth: depth as nat, quote }
            =~= tok_init());
        assert(all.skip(0) =~= all);
    }
    for i in 0..n
        invariant
            n == input.len(),
            all == input@,
            depth <= i,
            tok_run(
                TokSt { toks: toks_view(toks@), buf: buf@, depth: depth as nat, quote },
                all.skip(i as int),
            ) == tok_run(tok_init(), all),
        decreases n - i,
    {
        let ghost st = TokSt { toks: toks_view(toks@), buf: buf@, depth: depth as nat, quote };
        let c = input[i];
        proof {
            assert(all.skip(i as int)[0] == all[i as int]);
            assert(all.skip(i as int).drop_first() =~= all.skip(i as int + 1));
            assert(tok_run(st, all.skip(i as int)) == tok_run(tok_step(st, c), all.skip(
                i as int + 1,
            )));
        }
        if c == '{' && !quote {
            depth = depth + 1;
            buf.push(c);
        } else if c == '}' && !quote {
            if depth != 0 {
                buf.push(c);
                depth = depth - 1;
                if depth == 0 {
                    proof {
                        assert(toks_view(toks@.push(buf)) =~= toks_view(toks@).push(buf@));
                    }
                    toks.push(buf);
                    buf = Vec::new();
                }
            }
        } else if c == '"' {
            if depth == 0 {
                if quote {
                    buf.push(c);
                    quote = false;
                    proof {
                        assert(toks_view(toks@.push(buf)) =~= toks_view(toks@).push(buf@));
                    }
                    toks.push(buf);
                    buf = Vec::new();
                } else {
                    quote = true;
                    buf.push(c);
                }
            } else {
                buf.push(c);
            }
        } else if c == ' ' || c == '\u{3000}' || c == '\n' || c == '\t' || c == '\r' {
            if depth != 0 || quote {
                buf.push(c);
            } else if buf.len() != 0 {
                proof {
                    assert(toks_view(toks@.push(buf)) =~= toks_view(toks@).push(buf@));
                }
                toks.push(buf);
                buf = Vec::new();
            }
        } else {
            buf.push(c);
        }
        proof {
            let st2 = TokSt { toks: toks_view(toks@), buf: buf@, depth: depth as nat, quote };
            assert(st2 =~= tok_step(st, c));
        }
    }
    proof {
        assert(all.skip(n as int) =~= Seq::<char>::empty());
    }
    if depth == 0 && !quote && buf.len() != 0 {
        proof {
            assert(toks_view(toks@.push(buf)) =~= toks_view(toks@).push(buf@));
        }
        toks.push(buf);
    }
    toks
}

} // verus!
