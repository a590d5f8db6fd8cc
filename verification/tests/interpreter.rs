use stacknt::interp::{Core, Mode, OutItem, StepOut};
use stacknt::lexer::tokenize_expr;
use stacknt::parser::{parse, NumTable};
use stacknt::value::{Num, Op, Value};

fn chars(s: &str) -> Vec<char> {
    s.chars().collect()
}

fn mk_num(x: f64) -> Num {
    Num { bits: x.to_bits(), text: x.to_string(), level: x as usize }
}

fn table(nums: &[&str]) -> NumTable {
    let mut entries: Vec<(String, Option<Num>)> = Vec::new();
    for t in nums {
        let parsed: Option<Num> = match t.parse::<f64>() {
            Ok(x) => Some(mk_num(x)),
            Err(_) => None,
        };
        entries.push((t.to_string(), parsed));
    }
    NumTable { entries }
}

fn run(core: &mut Core) -> Option<u64> {
    loop {
        match core.run_pending(u64::MAX) {
            StepOut::Ran => {}
            StepOut::Done => return None,
            StepOut::NeedNum(op, a, b) => {
                let x = f64::from_bits(a);
                let y = f64::from_bits(b);
                let r = match op {
                    Op::Add => x + y,
                    Op::Sub => x - y,
                    Op::Mul => x * y,
                    Op::Div => x / y,
                    Op::Rem => x % y,
                    Op::Pow => x.powf(y),
                    _ => unreachable!(),
                };
                core.supply_num(mk_num(r));
            }
            StepOut::Exited(bits) => return Some(bits),
        }
    }
}

fn eval_src(core: &mut Core, src: &str, nums: &[&str]) -> Option<u64> {
    let prog = parse(&chars(src), &table(nums));
    core.eval(prog);
    run(core)
}

#[test]
fn tokenize_keeps_blocks_atomic() {
    let toks = tokenize_expr(&chars("1 { 2 3 } add"));
    assert_eq!(toks, vec![chars("1"), chars("{ 2 3 }"), chars("add")]);
}

#[test]
fn tokenize_handles_nested_braces() {
    let toks = tokenize_expr(&chars("{ a { b } } c"));
    assert_eq!(toks, vec![chars("{ a { b } }"), chars("c")]);
}

#[test]
fn tokenize_treats_fullwidth_space_as_separator() {
    let toks = tokenize_expr(&chars("1\u{3000}2"));
    assert_eq!(toks, vec![chars("1"), chars("2")]);
}

#[test]
fn tokenize_drops_unmatched_trailing_brace() {
    let toks = tokenize_expr(&chars("ab {1 2"));
    assert_eq!(toks, vec![chars("ab")]);
}

#[test]
fn tokenize_drops_unterminated_quote() {
    let toks = tokenize_expr(&chars("x \"ab c"));
    assert_eq!(toks, vec![chars("x")]);
}

#[test]
fn tokenize_keeps_whitespace_inside_quotes() {
    let toks = tokenize_expr(&chars("\"a b\""));
    assert_eq!(toks, vec![chars("\"a b\"")]);
}

#[test]
fn parse_number() {
    let prog = parse(&chars("3.14"), &table(&["3.14"]));
    assert_eq!(prog, vec![Value::Number(mk_num(3.14))]);
}

#[test]
fn parse_string() {
    let prog = parse(&chars("\"ab\""), &table(&[]));
    assert_eq!(prog, vec![Value::Text("ab".to_string())]);
}

#[test]
fn parse_block() {
    let prog = parse(&chars("{ 1 2 }"), &table(&["1", "2"]));
    assert_eq!(
        prog,
        vec![Value::Block(vec![Value::Number(mk_num(1.0)), Value::Number(mk_num(2.0))])]
    );
}

#[test]
fn parse_symbol() {
    let prog = parse(&chars("add"), &table(&[]));
    assert_eq!(prog, vec![Value::Symbol("add".to_string())]);
}

#[test]
fn parse_string_keeps_inner_spaces() {
    let prog = parse(&chars("\"a b\""), &table(&[]));
    assert_eq!(prog, vec![Value::Text("a b".to_string())]);
}

#[test]
fn eval_addition() {
    let mut core = Core::new();
    eval_src(&mut core, "2 3 +", &["2", "3"]);
    assert_eq!(core.stack, vec![Value::Number(mk_num(5.0))]);
}

#[test]
fn eval_subtraction_and_multiplication() {
    let mut core = Core::new();
    eval_src(&mut core, "7 2 - 3 *", &["7", "2", "3"]);
    assert_eq!(core.stack, vec![Value::Number(mk_num(15.0))]);
}

#[test]
fn eval_division_by_zero_is_infinite() {
    let mut core = Core::new();
    eval_src(&mut core, "1 0 /", &["1", "0"]);
    assert_eq!(core.stack, vec![Value::Number(mk_num(f64::INFINITY))]);
}

#[test]
fn eval_modulo_and_power() {
    let mut core = Core::new();
    eval_src(&mut core, "7 4 % 2 10 ^", &["7", "4", "2", "10"]);
    assert_eq!(
        core.stack,
        vec![Value::Number(mk_num(3.0)), Value::Number(mk_num(1024.0))]
    );
}

#[test]
fn eval_concat() {
    let mut core = Core::new();
    eval_src(&mut core, "\"a\" \"b\" concat", &[]);
    assert_eq!(core.stack, vec![Value::Text("ab".to_string())]);
}

#[test]
fn eval_concat_renders_numbers() {
    let mut core = Core::new();
    eval_src(&mut core, "3.5 \"x\" concat", &["3.5"]);
    assert_eq!(core.stack, vec![Value::Text("3.5x".to_string())]);
}

#[test]
fn eval_equality_compares_renderings() {
    let mut core = Core::new();
    eval_src(&mut core, "5 \"5\" =", &["5"]);
    assert_eq!(core.stack, vec![Value::Bool(true)]);
}

#[test]
fn eval_inequality() {
    let mut core = Core::new();
    eval_src(&mut core, "\"a\" \"b\" !=", &[]);
    assert_eq!(core.stack, vec![Value::Bool(true)]);
}

#[test]
fn eval_boolean_and_or() {
    let mut core = Core::new();
    eval_src(&mut core, "true false & true false |", &[]);
    assert_eq!(core.stack, vec![Value::Bool(false), Value::Bool(true)]);
}

#[test]
fn eval_if_else_true() {
    let mut core = Core::new();
    eval_src(&mut core, "true {1} {2} if-else", &["1", "2"]);
    assert_eq!(core.stack, vec![Value::Number(mk_num(1.0))]);
}

#[test]
fn eval_if_else_false() {
    let mut core = Core::new();
    eval_src(&mut core, "false {1} {2} if-else", &["1", "2"]);
    assert_eq!(core.stack, vec![Value::Number(mk_num(2.0))]);
}

#[test]
fn eval_when_true_runs_block() {
    let mut core = Core::new();
    eval_src(&mut core, "true { 7 } when", &["7"]);
    assert_eq!(core.stack, vec![Value::Number(mk_num(7.0))]);
}

#[test]
fn eval_when_false_skips_block() {
    let mut core = Core::new();
    eval_src(&mut core, "false { 7 } when", &["7"]);
    assert_eq!(core.stack, Vec::<Value>::new());
}

#[test]
fn eval_while_loop_counts_to_five() {
    let mut core = Core::new();
    eval_src(
        &mut core,
        "0 \"i\" let { i 5 != } { i 1 + \"i\" let } while i",
        &["0", "5", "1"],
    );
    assert_eq!(core.stack, vec![Value::Number(mk_num(5.0))]);
}

#[test]
fn eval_pop_on_empty_stack_is_harmless() {
    let mut core = Core::new();
    eval_src(&mut core, "pop", &[]);
    assert_eq!(core.stack, Vec::<Value>::new());
    eval_src(&mut core, "1 2 pop", &["1", "2"]);
    assert_eq!(core.stack, vec![Value::Number(mk_num(1.0))]);
}

#[test]
fn eval_return_skips_exactly_one_frame() {
    let mut baseline = Core::new();
    eval_src(
        &mut baseline,
        "{ \"a\" println \"b\" println } eval \"c\" println",
        &[],
    );
    assert_eq!(baseline.out.len(), 3);

    let mut with_return = Core::new();
    eval_src(
        &mut with_return,
        "{ \"a\" println 1 return \"b\" println } eval \"c\" println",
        &["1"],
    );
    let texts: Vec<&str> = with_return.out.iter().map(|o| o.text.as_str()).collect();
    assert_eq!(texts, vec!["a", "c"]);
    assert_eq!(baseline.out.len() - with_return.out.len(), 1);
}

#[test]
fn eval_is_deterministic_on_fresh_sessions() {
    let src = "1 2 + \"x\" concat 3 4 *";
    let nums = ["1", "2", "3", "4"];
    let mut first = Core::new();
    eval_src(&mut first, src, &nums);
    let mut second = Core::new();
    eval_src(&mut second, src, &nums);
    assert_eq!(first.stack, second.stack);
}

#[test]
fn eval_let_overwrites_binding() {
    let mut core = Core::new();
    eval_src(&mut core, "1 \"x\" let 2 \"x\" let x", &["1", "2"]);
    assert_eq!(core.stack, vec![Value::Number(mk_num(2.0))]);
}

#[test]
fn eval_defun_defines_callable() {
    let mut core = Core::new();
    eval_src(&mut core, "{ 2 3 + } \"plus\" defun plus", &["2", "3"]);
    assert_eq!(core.stack, vec![Value::Number(mk_num(5.0))]);
}

#[test]
fn eval_unbound_symbol_is_pushed_as_literal() {
    let mut core = Core::new();
    eval_src(&mut core, "foo", &[]);
    assert_eq!(core.stack, vec![Value::Symbol("foo".to_string())]);
}

#[test]
fn eval_builtin_eval_runs_block() {
    let mut core = Core::new();
    eval_src(&mut core, "{ 7 } eval", &["7"]);
    assert_eq!(core.stack, vec![Value::Number(mk_num(7.0))]);
}

#[test]
fn eval_exit_halts_evaluation() {
    let mut core = Core::new();
    let exited = eval_src(&mut core, "5 exit 6", &["5", "6"]);
    assert_eq!(exited, Some(5.0f64.to_bits()));
    assert_eq!(core.mode, Mode::Ended);
    assert_eq!(core.stack, Vec::<Value>::new());
}

#[test]
fn eval_string_constants() {
    let mut core = Core::new();
    eval_src(&mut core, "new-line double-quote tab", &[]);
    assert_eq!(
        core.stack,
        vec![
            Value::Text("\n".to_string()),
            Value::Text("\"".to_string()),
            Value::Text("\t".to_string()),
        ]
    );
}

#[test]
fn eval_print_buffers_output() {
    let mut core = Core::new();
    eval_src(&mut core, "\"hi\" print \"there\" println", &[]);
    assert_eq!(
        core.out,
        vec![
            OutItem { text: "hi".to_string(), newline: false },
            OutItem { text: "there".to_string(), newline: true },
        ]
    );
}

#[test]
fn eval_single_steps_report_progress() {
    let mut core = Core::new();
    let prog = parse(&chars("\"a\" \"b\" concat"), &table(&[]));
    core.eval(prog);
    let mut steps = 0;
    loop {
        match core.step() {
            StepOut::Ran => steps += 1,
            StepOut::Done => break,
            _ => unreachable!(),
        }
    }
    assert!(steps > 0);
    assert_eq!(core.stack, vec![Value::Text("ab".to_string())]);
}

#[test]
fn eval_budget_exhaustion_is_reported() {
    let mut core = Core::new();
    let prog = parse(&chars("{ true } { } while"), &table(&[]));
    core.eval(prog);
    let out = core.run_pending(1000);
    assert_eq!(out, StepOut::Ran);
    assert!(!core.done());
}

#[test]
fn eval_return_two_skips_two_frames() {
    let mut core = Core::new();
    eval_src(
        &mut core,
        "{ { \"a\" println 2 return \"b\" println } eval \"c\" println } eval \"d\" println",
        &["2"],
    );
    let texts: Vec<&str> = core.out.iter().map(|o| o.text.as_str()).collect();
    assert_eq!(texts, vec!["a", "d"]);
}

#[test]
fn eval_return_in_while_body_skips_body_only() {
    let mut core = Core::new();
    eval_src(
        &mut core,
        "0 \"i\" let { i 2 != } { i 1 + \"i\" let 1 return \"x\" println } while i",
        &["0", "2", "1"],
    );
    assert_eq!(core.out.len(), 0);
    assert_eq!(core.stack, vec![Value::Number(mk_num(2.0))]);
}

#[test]
fn eval_unbound_symbol_doubles_as_quoted_name() {
    let mut core = Core::new();
    eval_src(&mut core, "5 count let count", &["5"]);
    assert_eq!(core.stack, vec![Value::Number(mk_num(5.0))]);
}

#[test]
fn eval_scalar_coerces_to_single_item_block() {
    let mut core = Core::new();
    eval_src(&mut core, "5 eval", &["5"]);
    assert_eq!(core.stack, vec![Value::Number(mk_num(5.0))]);
}

#[test]
fn parse_trims_whitespace_before_classification() {
    let prog = parse(&chars("\u{b}x"), &table(&[]));
    assert_eq!(prog, vec![Value::Symbol("x".to_string())]);
}

#[test]
fn parse_trimmed_token_can_be_a_number() {
    let prog = parse(&chars("\u{a0}5"), &table(&["5"]));
    assert_eq!(prog, vec![Value::Number(mk_num(5.0))]);
}

#[test]
fn number_candidates_walks_blocks() {
    let prog = parse(&chars("1 { 2 add } \"s\""), &table(&[]));
    let names = stacknt::parser::number_candidates(&prog);
    assert_eq!(names, vec!["1".to_string(), "2".to_string(), "add".to_string()]);
}
