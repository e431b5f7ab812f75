use illusio::acts::{Act, BinOpc, IntCond, TyCode};
use illusio::builder::Builder;
use illusio::compiler::{Compiler, Handler};
use illusio::ir::{BinOp, Expr, IrType, IrValue, Literal, Stmt};

fn int_lit(v: i64) -> Expr {
    Expr::Value(IrValue::Literal(Literal::Int(v)), IrType::Int)
}

fn translate(stmts: Vec<Stmt>) -> (Vec<Act>, Vec<Vec<u8>>) {
    let mut h = Handler::new();
    h.translate(&stmts);
    (h.acts, h.strs)
}

#[test]
fn straight_line_arithmetic_actions() {
    // x int = 2 + 3; print x as an integer: the generated actions
    // compute the sum, store it, and print through the word entry.
    let b = Builder::new();
    let sum = b.binary(int_lit(2), BinOp::Add, int_lit(3), IrType::Int);
    let decl = Stmt::Var("x".to_owned(), sum, IrType::Int);
    let use_x = Expr::PrintInt(Box::new(Expr::GetVar("x".to_owned())));
    let (acts, strs) = translate(vec![decl, Stmt::ExprStmt(use_x)]);
    let expected = vec![
        Act::CreateBlock(0),
        Act::FuncParams(0),
        Act::SwitchTo(0),
        Act::Seal(0),
        Act::IConst(TyCode::I64, 2, 0),
        Act::IConst(TyCode::I64, 3, 1),
        Act::Bin(BinOpc::IAdd, 0, 1, 2),
        Act::DeclareVar(TyCode::I64, 0),
        Act::DefVar(0, 2),
        Act::IConst(TyCode::I64, 0, 3),
        Act::StrData(0, 4),
        Act::UseVar(0, 5),
        Act::CallPrintfInt(4, 5, 6),
        Act::IConst(TyCode::I64, 0, 7),
        Act::IConst(TyCode::I64, 0, 8),
        Act::Ret(8),
    ];
    assert_eq!(acts, expected);
    assert_eq!(strs, vec![b"%d\n\0".to_vec()]);
}

#[test]
fn integer_division_is_unsigned() {
    // The integer path selects unsigned division; under it, (-4) / 2
    // does not give -2.
    let b = Builder::new();
    let div = b.binary(int_lit(-4), BinOp::Div, int_lit(2), IrType::Int);
    let (acts, _) = translate(vec![Stmt::ExprStmt(div)]);
    assert!(acts.contains(&Act::Bin(BinOpc::UDiv, 0, 1, 2)));
    let unsigned_result = (((-4i64) as u64) / 2) as i64;
    assert_ne!(unsigned_result, -2);
    assert_eq!(unsigned_result, 0x7fff_ffff_ffff_fffe);
}

#[test]
fn integer_comparisons_are_signed() {
    let b = Builder::new();
    let cmp = b.binary(int_lit(1), BinOp::Gt, int_lit(2), IrType::Int);
    let (acts, _) = translate(vec![Stmt::ExprStmt(cmp)]);
    assert!(acts.contains(&Act::Bin(BinOpc::ICmp(IntCond::Sgt), 0, 1, 2)));
}

#[test]
fn float_operands_select_float_instructions() {
    let b = Builder::new();
    let half = Expr::Value(
        IrValue::Literal(Literal::Float(0.5f64.to_bits())),
        IrType::Float,
    );
    let two = Expr::Value(IrValue::Literal(Literal::Float(2.0f64.to_bits())), IrType::Float);
    let div = b.binary(half, BinOp::Div, two, IrType::Float);
    let (acts, _) = translate(vec![Stmt::ExprStmt(div)]);
    assert!(acts.contains(&Act::Bin(BinOpc::FDiv, 0, 1, 2)));
    assert!(acts.contains(&Act::F64Const(0.5f64.to_bits(), 0)));
}

#[test]
fn conditional_block_choreography() {
    // if 1 then [2] else []: three fresh blocks, a word-sized merge
    // parameter, a branch on the condition, both arms sealed on entry
    // and jumping to the merge block with their values, the merge block
    // sealed last.
    let b = Builder::new();
    let cond = b.boolean(true);
    let body = vec![Stmt::ExprStmt(int_lit(2))];
    let iff = b.if_(cond, body, vec![]);
    let (acts, _) = translate(vec![iff]);
    let expected = vec![
        Act::CreateBlock(0),
        Act::FuncParams(0),
        Act::SwitchTo(0),
        Act::Seal(0),
        Act::IConst(TyCode::I8, 1, 0),
        Act::CreateBlock(1),
        Act::CreateBlock(2),
        Act::CreateBlock(3),
        Act::BlockParam(3, TyCode::I64, 1),
        Act::Brif(0, 1, 2),
        Act::SwitchTo(1),
        Act::Seal(1),
        Act::IConst(TyCode::I64, 0, 2),
        Act::IConst(TyCode::I64, 2, 3),
        Act::IConst(TyCode::I64, 0, 4),
        Act::Jump1(3, 4),
        Act::SwitchTo(2),
        Act::Seal(2),
        Act::IConst(TyCode::I64, 0, 5),
        Act::Jump1(3, 5),
        Act::SwitchTo(3),
        Act::Seal(3),
        Act::IConst(TyCode::I64, 0, 6),
        Act::Ret(6),
    ];
    assert_eq!(acts, expected);
}

#[test]
fn redeclaration_gets_fresh_slot() {
    // Declaring x twice binds two distinct slots; mutating the second
    // binding writes slot 1, never slot 0.
    let decl1 = Stmt::Var("x".to_owned(), int_lit(1), IrType::Int);
    let decl2 = Stmt::Var("x".to_owned(), int_lit(2), IrType::Int);
    let set = Stmt::SetVar("x".to_owned(), int_lit(3));
    let (acts, _) = translate(vec![decl1, decl2, set]);
    assert!(acts.contains(&Act::DeclareVar(TyCode::I64, 0)));
    assert!(acts.contains(&Act::DeclareVar(TyCode::I64, 1)));
    // The mutation's value is value index 4; it lands in slot 1.
    assert!(acts.contains(&Act::DefVar(1, 4)));
    let writes_to_slot0: Vec<&Act> = acts
        .iter()
        .filter(|a| matches!(a, Act::DefVar(0, _)))
        .collect();
    // Only the first declaration's own initialization touches slot 0.
    assert_eq!(writes_to_slot0, vec![&Act::DefVar(0, 0)]);
}

#[test]
fn string_literals_get_one_blob_each() {
    // Two occurrences of the same literal are placed as two blobs, each
    // holding the decoded bytes plus one NUL.
    let b = Builder::new();
    let p1 = b.str_print(b.string(&"a\nb".to_owned()));
    let p2 = b.str_print(b.string(&"a\nb".to_owned()));
    let (acts, strs) = translate(vec![Stmt::ExprStmt(p1), Stmt::ExprStmt(p2)]);
    assert_eq!(strs.len(), 2);
    assert_eq!(strs[0], b"a\nb\0".to_vec());
    assert_eq!(strs[1], b"a\nb\0".to_vec());
    assert!(acts.contains(&Act::StrData(0, 0)));
    assert!(acts.contains(&Act::StrData(1, 3)));
}

#[test]
fn print_paths_are_distinct() {
    let arg_i = int_lit(7);
    let arg_f = Expr::Value(IrValue::Literal(Literal::Float(1.5f64.to_bits())), IrType::Float);
    let (acts_i, strs_i) = translate(vec![Stmt::ExprStmt(Expr::PrintInt(Box::new(arg_i)))]);
    let (acts_f, strs_f) = translate(vec![Stmt::ExprStmt(Expr::PrintFloat(Box::new(arg_f)))]);
    assert_eq!(strs_i, vec![b"%d\n\0".to_vec()]);
    assert_eq!(strs_f, vec![b"%f\n\0".to_vec()]);
    assert!(acts_i.contains(&Act::CallPrintfInt(0, 1, 2)));
    assert!(acts_f.contains(&Act::CallPrintfFloat(0, 1, 2)));
}

fn big_conditional_program() -> Vec<Stmt> {
    // x int = 10; if x > 5 then print "big".
    let b = Builder::new();
    let cond = b.binary(
        Expr::GetVar("x".to_owned()),
        BinOp::Gt,
        int_lit(5),
        IrType::Int,
    );
    let body = vec![Stmt::ExprStmt(b.str_print(b.string(&"big".to_owned())))];
    vec![
        Stmt::Var("x".to_owned(), int_lit(10), IrType::Int),
        b.if_(cond, body, vec![]),
    ]
}

#[test]
fn end_to_end_conditional_prints_big_once() {
    // The action program holds exactly one output call, handing it the
    // "big\0" blob.
    let (acts, strs) = translate(big_conditional_program());
    let puts_calls: Vec<&Act> = acts
        .iter()
        .filter(|a| matches!(a, Act::CallPuts(_, _)))
        .collect();
    assert_eq!(puts_calls.len(), 1);
    assert_eq!(strs, vec![b"big\0".to_vec()]);
}

#[test]
fn unbound_names_fail_compilation() {
    // A write of a name no declaration covers translates to the
    // sentinel slot, which the emitter refuses: compilation fails with
    // an error instead of aborting.
    let set = Stmt::SetVar("ghostly".to_owned(), int_lit(1));
    let compiler = Compiler::new().expect("host unsupported");
    let r = compiler.compile(&vec![set]);
    assert_eq!(r.err(), Some("variable not found".to_owned()));

    // The same for a read.
    let use_unknown = Stmt::ExprStmt(Expr::PrintInt(Box::new(Expr::GetVar(
        "ghostly".to_owned(),
    ))));
    let compiler2 = Compiler::new().expect("host unsupported");
    let r2 = compiler2.compile(&vec![use_unknown]);
    assert_eq!(r2.err(), Some("variable not found".to_owned()));
}

#[test]
fn end_to_end_conditional_compiles_to_native_code() {
    let program = big_conditional_program();
    let compiler = Compiler::new().expect("host unsupported");
    let compiled = compiler.compile(&program);
    assert!(compiled.is_ok());
}
