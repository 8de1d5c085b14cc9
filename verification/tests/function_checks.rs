use sageguard::checks::cpi_check::{detect_cpi_in_fn, detect_invoke_signed_bump, is_known_cpi};
use sageguard::checks::mut_borrow_check::{
    check_mut_borrow, detect_field_mutation, extract_account_field, resolve_bound_struct,
};
use sageguard::checks::realloc_check::check_realloc_usage;
use sageguard::checks::remaining_accounts_check::{check_remaining_accounts_usage, warn};
use sageguard::diagnostic::{Diagnostic, Finding, Severity};
use sageguard::symbols::{StructSymbols, SymbolTable};
use sageguard::syntax::{
    BinOp, Expr, ExprKind, FnItem, GenericArg, Member, Param, Path, Stmt, Type, TypeSegment,
};
use sageguard::walker::{visit_expr, visit_stmts};

fn s(text: &str) -> String {
    text.to_string()
}

fn expr(line: usize, kind: ExprKind) -> Expr {
    Expr { line, kind }
}

fn name(names: &[&str], line: usize) -> Expr {
    expr(
        line,
        ExprKind::Path { path: Path { segments: names.iter().map(|n| n.to_string()).collect() }, name_line: line },
    )
}

fn member(base: Expr, field: &str, line: usize) -> Expr {
    expr(base.line, ExprKind::Field { base: Box::new(base), member: Member::Named(s(field)), member_line: line })
}

fn account(field: &str, line: usize) -> Expr {
    member(member(name(&["ctx"], line), "accounts", line), field, line)
}

fn call(func: Expr, args: Vec<Expr>) -> Expr {
    expr(func.line, ExprKind::Call { func: Box::new(func), args })
}

fn method(receiver: Expr, method_name: &str, line: usize, args: Vec<Expr>) -> Expr {
    expr(
        receiver.line,
        ExprKind::MethodCall { receiver: Box::new(receiver), method: s(method_name), method_line: line, args },
    )
}

fn reference(mutable: bool, target: Expr) -> Expr {
    expr(target.line, ExprKind::Reference { mutable, target: Box::new(target) })
}

fn array(line: usize, elems: Vec<Expr>) -> Expr {
    expr(line, ExprKind::Array { elems })
}

fn assign(left: Expr, right: Expr) -> Expr {
    expr(left.line, ExprKind::Assign { left: Box::new(left), right: Box::new(right) })
}

fn binary(left: Expr, op: BinOp, right: Expr) -> Expr {
    expr(left.line, ExprKind::Binary { left: Box::new(left), op, right: Box::new(right) })
}

fn other(line: usize) -> Expr {
    expr(line, ExprKind::Other)
}

fn context_of(struct_name: &str) -> Param {
    Param::Typed(Type::Path(vec![TypeSegment {
        ident: s("Context"),
        generics: vec![GenericArg::Type(Type::Path(vec![TypeSegment { ident: s(struct_name), generics: vec![] }]))],
    }]))
}

fn function(fn_name: &str, bound: &str, body: Vec<Stmt>) -> FnItem {
    FnItem { name: s(fn_name), line: 1, params: vec![context_of(bound)], body }
}

fn table(struct_name: &str, mutable: &[&str], initialized: &[&str]) -> SymbolTable {
    let mut t = SymbolTable::new();
    t.insert(StructSymbols {
        name: s(struct_name),
        mutable: mutable.iter().map(|m| m.to_string()).collect(),
        initialized: initialized.iter().map(|m| m.to_string()).collect(),
    });
    t
}

fn findings(out: &[Diagnostic]) -> Vec<Finding> {
    out.iter().map(|d| d.finding.clone()).collect()
}

fn signed_call(line: usize, seeds: Expr) -> Expr {
    call(name(&["solana_program", "program", "invoke_signed"], line), vec![other(line), other(line), seeds])
}

#[test]
fn names_of_calls_into_other_programs() {
    for known in ["invoke", "invoke_signed", "transfer", "mint_to", "burn"] {
        assert!(is_known_cpi(&s(known)));
    }
    for unknown in ["", "invoke_", "Transfer", "mint", "burn_from", "reload"] {
        assert!(!is_known_cpi(&s(unknown)));
    }
}

#[test]
fn call_into_another_program_is_warned_about() {
    let f = function(
        "deposit",
        "Deposit",
        vec![Stmt::Expr(expr(5, ExprKind::Try { inner: Box::new(call(name(&["token", "transfer"], 5), vec![other(5), other(5)])) }))],
    );
    let out = detect_cpi_in_fn(&f, "lib.rs");
    assert_eq!(out.len(), 1);
    assert_eq!(out[0].severity, Severity::Warning);
    assert_eq!(out[0].finding, Finding::CrossProgramCall { callee: s("transfer"), function: s("deposit") });
    assert_eq!(out[0].message, "CPI `transfer` in `deposit`. Consider `.reload()?` on affected accounts.");
    assert_eq!(out[0].file, "lib.rs");
    assert_eq!(out[0].line, 5);
}

#[test]
fn method_call_into_another_program_is_warned_about() {
    let f = function("f", "A", vec![Stmt::Local(Some(method(name(&["cpi"], 3), "invoke", 4, vec![])))]);
    let out = detect_cpi_in_fn(&f, "lib.rs");
    assert_eq!(findings(&out), vec![Finding::CrossProgramCall { callee: s("invoke"), function: s("f") }]);
    assert_eq!(out[0].line, 4);
}

#[test]
fn ordinary_calls_are_not_warned_about() {
    let f = function(
        "f",
        "A",
        vec![
            Stmt::Expr(call(name(&["helper"], 2), vec![name(&["transfer"], 2)])),
            Stmt::Expr(method(name(&["x"], 3), "len", 3, vec![])),
            Stmt::Item,
            Stmt::Macro,
            Stmt::Local(None),
        ],
    );
    assert!(detect_cpi_in_fn(&f, "lib.rs").is_empty());
}

#[test]
fn single_seed_slice_lacks_a_bump() {
    let seeds = reference(false, array(9, vec![reference(false, array(9, vec![other(9)]))]));
    let f = function("withdraw", "Withdraw", vec![Stmt::Expr(expr(9, ExprKind::Try { inner: Box::new(signed_call(9, seeds)) }))]);
    let out = detect_cpi_in_fn(&f, "lib.rs");
    assert_eq!(
        findings(&out),
        vec![
            Finding::CrossProgramCall { callee: s("invoke_signed"), function: s("withdraw") },
            Finding::MissingBump { function: s("withdraw") },
        ]
    );
    assert_eq!(out[1].severity, Severity::Error);
    assert_eq!(out[1].line, 9);
    assert_eq!(out[1].file, "lib.rs");
}

#[test]
fn seed_slice_with_bump_raises_no_error() {
    let seeds = reference(false, array(9, vec![reference(false, array(9, vec![other(9), other(9)]))]));
    let f = function("withdraw", "Withdraw", vec![Stmt::Expr(signed_call(9, seeds))]);
    assert_eq!(
        findings(&detect_cpi_in_fn(&f, "lib.rs")),
        vec![Finding::CrossProgramCall { callee: s("invoke_signed"), function: s("withdraw") }]
    );
}

#[test]
fn bump_check_ignores_the_reference_marker() {
    let func = name(&["invoke_signed"], 1);
    let one = || array(1, vec![other(1)]);
    let two = || array(1, vec![other(1), other(1)]);
    let args = |seeds: Expr| vec![other(1), other(1), seeds];
    assert_eq!(detect_invoke_signed_bump(&func, &args(array(1, vec![one()]))), 1);
    assert_eq!(detect_invoke_signed_bump(&func, &args(reference(false, array(1, vec![one()])))), 1);
    assert_eq!(detect_invoke_signed_bump(&func, &args(array(1, vec![reference(false, one())]))), 1);
    assert_eq!(
        detect_invoke_signed_bump(&func, &args(reference(false, array(1, vec![reference(false, one())])))),
        1
    );
    assert_eq!(detect_invoke_signed_bump(&func, &args(array(1, vec![two()]))), 0);
    assert_eq!(
        detect_invoke_signed_bump(&func, &args(reference(false, array(1, vec![reference(false, two())])))),
        0
    );
}

#[test]
fn bump_check_raises_one_error_for_each_short_slice() {
    let func = name(&["invoke_signed"], 1);
    let one = || array(1, vec![other(1)]);
    let two = || array(1, vec![other(1), other(1)]);
    let empty = || array(1, vec![]);
    assert_eq!(detect_invoke_signed_bump(&func, &vec![other(1), other(1), array(1, vec![two(), one()])]), 1);
    assert_eq!(detect_invoke_signed_bump(&func, &vec![other(1), other(1), array(1, vec![empty()])]), 1);
    assert_eq!(detect_invoke_signed_bump(&func, &vec![other(1), other(1), array(1, vec![])]), 0);
    assert_eq!(
        detect_invoke_signed_bump(&func, &vec![other(1), other(1), array(1, vec![name(&["SEEDS"], 1)])]),
        0
    );
    assert_eq!(
        detect_invoke_signed_bump(&func, &vec![other(1), other(1), array(1, vec![one(), two(), one()])]),
        2
    );
    let seeds = reference(
        false,
        array(4, vec![reference(false, one()), reference(false, two()), reference(false, one())]),
    );
    let f = function("f", "A", vec![Stmt::Expr(signed_call(4, seeds))]);
    let out = detect_cpi_in_fn(&f, "lib.rs");
    assert_eq!(
        findings(&out),
        vec![
            Finding::CrossProgramCall { callee: s("invoke_signed"), function: s("f") },
            Finding::MissingBump { function: s("f") },
            Finding::MissingBump { function: s("f") },
        ]
    );
    assert!(out[1..].iter().all(|d| d.severity == Severity::Error && d.line == 4 && d.file == "lib.rs"));
    let all_short = function("g", "A", vec![Stmt::Expr(signed_call(4, array(4, vec![one(), one(), empty()])))]);
    assert_eq!(detect_cpi_in_fn(&all_short, "lib.rs").len(), 4);
}

#[test]
fn bump_check_needs_a_signed_invocation_with_three_arguments() {
    let one = || array(1, vec![array(1, vec![other(1)])]);
    assert_eq!(detect_invoke_signed_bump(&name(&["invoke"], 1), &vec![other(1), other(1), one()]), 0);
    assert_eq!(detect_invoke_signed_bump(&name(&["invoke_signed"], 1), &vec![other(1), one()]), 0);
    assert_eq!(detect_invoke_signed_bump(&other(1), &vec![other(1), other(1), one()]), 0);
    assert_eq!(detect_invoke_signed_bump(&name(&["invoke_signed"], 1), &vec![one(), other(1), other(1)]), 0);
    assert_eq!(detect_invoke_signed_bump(&name(&[], 1), &vec![other(1), other(1), one()]), 0);
}

#[test]
fn calls_nested_in_control_flow_are_found_in_source_order() {
    let body = vec![
        Stmt::Expr(expr(
            2,
            ExprKind::If {
                cond: Box::new(call(name(&["invoke"], 2), vec![])),
                then_branch: vec![Stmt::Expr(expr(
                    3,
                    ExprKind::While {
                        cond: Box::new(other(3)),
                        body: vec![Stmt::Local(Some(call(name(&["burn"], 4), vec![])))],
                    },
                ))],
                otherwise: Some(Box::new(expr(
                    5,
                    ExprKind::Block {
                        stmts: vec![Stmt::Expr(expr(
                            6,
                            ExprKind::Match {
                                scrutinee: Box::new(other(6)),
                                arms: vec![other(7), call(name(&["mint_to"], 8), vec![])],
                            },
                        ))],
                    },
                ))),
            },
        )),
        Stmt::Expr(expr(
            9,
            ExprKind::ForLoop {
                iter: Box::new(other(9)),
                body: vec![Stmt::Expr(expr(10, ExprKind::Loop { body: vec![Stmt::Expr(expr(
                    11,
                    ExprKind::TryBlock { stmts: vec![Stmt::Expr(call(name(&["transfer"], 12), vec![call(name(&["invoke"], 13), vec![])]))] },
                ))] }))],
            },
        )),
    ];
    let out = detect_cpi_in_fn(&function("f", "A", body), "lib.rs");
    let lines: Vec<usize> = out.iter().map(|d| d.line).collect();
    assert_eq!(lines, vec![2, 4, 8, 12, 13]);
}

#[test]
fn bound_struct_is_the_argument_of_context() {
    assert_eq!(resolve_bound_struct(&vec![context_of("Deposit")]), "Deposit");
    assert_eq!(resolve_bound_struct(&vec![Param::Receiver, Param::Typed(Type::Other), context_of("A"), context_of("B")]), "A");
    assert_eq!(resolve_bound_struct(&vec![]), "");
    assert_eq!(resolve_bound_struct(&vec![Param::Typed(Type::Reference(Box::new(Type::Other)))]), "");
}

#[test]
fn bound_struct_is_the_type_argument_behind_the_lifetimes() {
    let with_lifetimes = Param::Typed(Type::Path(vec![TypeSegment {
        ident: s("Context"),
        generics: vec![
            GenericArg::Other,
            GenericArg::Other,
            GenericArg::Other,
            GenericArg::Other,
            GenericArg::Type(Type::Path(vec![TypeSegment { ident: s("Deposit"), generics: vec![GenericArg::Other] }])),
        ],
    }]));
    assert_eq!(resolve_bound_struct(&vec![with_lifetimes]), "Deposit");
    let two_types = Param::Typed(Type::Path(vec![TypeSegment {
        ident: s("Context"),
        generics: vec![
            GenericArg::Other,
            GenericArg::Type(Type::Path(vec![TypeSegment { ident: s("First"), generics: vec![] }])),
            GenericArg::Type(Type::Path(vec![TypeSegment { ident: s("Second"), generics: vec![] }])),
        ],
    }]));
    assert_eq!(resolve_bound_struct(&vec![two_types]), "First");
    let bare = Param::Typed(Type::Path(vec![TypeSegment { ident: s("Context"), generics: vec![] }]));
    assert_eq!(resolve_bound_struct(&vec![bare, context_of("Later")]), "Later");
    let only_lifetimes =
        Param::Typed(Type::Path(vec![TypeSegment { ident: s("Context"), generics: vec![GenericArg::Other] }]));
    assert_eq!(resolve_bound_struct(&vec![only_lifetimes]), "");
    let not_a_path = Param::Typed(Type::Path(vec![TypeSegment {
        ident: s("Context"),
        generics: vec![GenericArg::Type(Type::Other)],
    }]));
    assert_eq!(resolve_bound_struct(&vec![not_a_path]), "");
    let qualified = Param::Typed(Type::Path(vec![
        TypeSegment { ident: s("anchor_lang"), generics: vec![] },
        TypeSegment {
            ident: s("Context"),
            generics: vec![GenericArg::Type(Type::Path(vec![
                TypeSegment { ident: s("crate"), generics: vec![] },
                TypeSegment { ident: s("Deposit"), generics: vec![] },
            ]))],
        },
    ]));
    assert_eq!(resolve_bound_struct(&vec![qualified]), "Deposit");
}

#[test]
fn handler_with_lifetimes_in_its_context_is_checked_against_its_struct() {
    let f = FnItem {
        name: s("deposit"),
        line: 1,
        params: vec![Param::Typed(Type::Path(vec![TypeSegment {
            ident: s("Context"),
            generics: vec![
                GenericArg::Other,
                GenericArg::Other,
                GenericArg::Other,
                GenericArg::Other,
                GenericArg::Type(Type::Path(vec![TypeSegment { ident: s("Deposit"), generics: vec![GenericArg::Other] }])),
            ],
        }]))],
        body: vec![
            Stmt::Expr(assign(member(account("vault", 3), "x", 3), other(3))),
            Stmt::Expr(assign(member(account("pool", 4), "x", 4), other(4))),
        ],
    };
    let out = check_mut_borrow(&f, "lib.rs", &table("Deposit", &["vault"], &[]));
    assert_eq!(
        findings(&out),
        vec![Finding::UndeclaredMutation { field: s("pool"), function: s("deposit"), struct_name: s("Deposit") }]
    );
}

#[test]
fn account_paths_are_recognized() {
    assert_eq!(extract_account_field(&account("vault", 1)), Some(&s("vault")));
    assert_eq!(extract_account_field(&member(account("vault", 1), "balance", 1)), None);
    assert_eq!(extract_account_field(&member(name(&["ctx"], 1), "accounts", 1)), None);
    assert_eq!(extract_account_field(&member(member(name(&["other"], 1), "accounts", 1), "vault", 1)), None);
    assert_eq!(extract_account_field(&member(member(name(&["ctx"], 1), "bumps", 1), "vault", 1)), None);
    assert_eq!(detect_field_mutation(&account("vault", 1)), Some(&s("vault")));
    assert_eq!(detect_field_mutation(&member(member(account("vault", 1), "data", 1), "balance", 1)), Some(&s("vault")));
    assert_eq!(detect_field_mutation(&name(&["ctx"], 1)), None);
    assert_eq!(detect_field_mutation(&member(name(&["ctx"], 1), "accounts", 1)), None);
    assert_eq!(detect_field_mutation(&member(member(name(&["crate", "ctx"], 1), "accounts", 1), "vault", 1)), None);
    assert_eq!(detect_field_mutation(&tuple_of_vault()), Some(&s("vault")));
    assert_eq!(detect_field_mutation(&member(tuple_of_vault(), "x", 1)), Some(&s("vault")));
    assert_eq!(extract_account_field(&tuple_of_vault()), None);
    let tuple_of_accounts = expr(
        1,
        ExprKind::Field {
            base: Box::new(member(name(&["ctx"], 1), "accounts", 1)),
            member: Member::Unnamed,
            member_line: 1,
        },
    );
    assert_eq!(detect_field_mutation(&tuple_of_accounts), None);
    assert_eq!(detect_field_mutation(&member(tuple_of_accounts, "x", 1)), None);
    let tuple_of_ctx =
        expr(1, ExprKind::Field { base: Box::new(name(&["ctx"], 1)), member: Member::Unnamed, member_line: 1 });
    assert_eq!(detect_field_mutation(&member(member(tuple_of_ctx, "accounts", 1), "vault", 1)), None);
}

#[test]
fn assignment_through_a_tuple_member_of_an_account_is_checked() {
    let body = vec![
        Stmt::Expr(assign(tuple_of_vault(), other(1))),
        Stmt::Expr(binary(member(tuple_of_vault(), "x", 1), BinOp::AddAssign, other(1))),
    ];
    let out = check_mut_borrow(&function("f", "A", body), "lib.rs", &table("A", &[], &[]));
    assert_eq!(
        findings(&out),
        vec![
            Finding::UndeclaredMutation { field: s("vault"), function: s("f"), struct_name: s("A") },
            Finding::UndeclaredMutation { field: s("vault"), function: s("f"), struct_name: s("A") },
        ]
    );
    let body = vec![Stmt::Expr(assign(tuple_of_vault(), other(1)))];
    assert!(check_mut_borrow(&function("f", "A", body), "lib.rs", &table("A", &["vault"], &[])).is_empty());
}

fn tuple_of_vault() -> Expr {
    expr(1, ExprKind::Field { base: Box::new(account("vault", 1)), member: Member::Unnamed, member_line: 1 })
}

#[test]
fn mutable_field_may_be_borrowed_and_assigned() {
    let f = function(
        "deposit",
        "Deposit",
        vec![
            Stmt::Local(Some(reference(true, account("vault", 3)))),
            Stmt::Expr(assign(member(account("vault", 4), "balance", 4), other(4))),
            Stmt::Expr(binary(member(account("vault", 5), "balance", 5), BinOp::AddAssign, other(5))),
        ],
    );
    assert!(check_mut_borrow(&f, "lib.rs", &table("Deposit", &["vault"], &[])).is_empty());
}

#[test]
fn undeclared_field_raises_one_error_per_offence() {
    let f = function(
        "deposit",
        "Deposit",
        vec![
            Stmt::Local(Some(reference(true, account("vault", 3)))),
            Stmt::Expr(assign(member(account("vault", 4), "balance", 4), other(4))),
            Stmt::Expr(binary(member(account("vault", 5), "balance", 5), BinOp::SubAssign, other(5))),
            Stmt::Expr(binary(account("vault", 6), BinOp::Other, other(6))),
            Stmt::Local(Some(reference(false, account("vault", 7)))),
        ],
    );
    let out = check_mut_borrow(&f, "lib.rs", &table("Deposit", &["user"], &[]));
    assert_eq!(
        findings(&out),
        vec![
            Finding::UndeclaredMutBorrow { field: s("vault"), function: s("deposit"), struct_name: s("Deposit") },
            Finding::UndeclaredMutation { field: s("vault"), function: s("deposit"), struct_name: s("Deposit") },
            Finding::UndeclaredMutation { field: s("vault"), function: s("deposit"), struct_name: s("Deposit") },
        ]
    );
    let lines: Vec<usize> = out.iter().map(|d| d.line).collect();
    assert_eq!(lines, vec![3, 4, 5]);
    assert!(out.iter().all(|d| d.severity == Severity::Error && d.file == "lib.rs"));
}

#[test]
fn initialized_field_may_be_assigned_but_not_borrowed() {
    let f = function(
        "init",
        "Init",
        vec![
            Stmt::Expr(assign(member(account("vault", 4), "owner", 4), other(4))),
            Stmt::Local(Some(reference(true, account("vault", 5)))),
        ],
    );
    let out = check_mut_borrow(&f, "lib.rs", &table("Init", &[], &["vault"]));
    assert_eq!(
        findings(&out),
        vec![Finding::UndeclaredMutBorrow { field: s("vault"), function: s("init"), struct_name: s("Init") }]
    );
}

#[test]
fn every_compound_assignment_counts() {
    for op in [
        BinOp::AddAssign,
        BinOp::SubAssign,
        BinOp::MulAssign,
        BinOp::DivAssign,
        BinOp::RemAssign,
        BinOp::BitXorAssign,
        BinOp::BitAndAssign,
        BinOp::BitOrAssign,
        BinOp::ShlAssign,
        BinOp::ShrAssign,
    ] {
        assert!(op.is_assignment());
        let f = function("f", "A", vec![Stmt::Expr(binary(account("vault", 2), op, other(2)))]);
        assert_eq!(check_mut_borrow(&f, "lib.rs", &table("A", &[], &[])).len(), 1);
    }
    assert!(!BinOp::Other.is_assignment());
}

#[test]
fn unresolved_context_flags_every_access() {
    let body = || vec![Stmt::Expr(assign(member(account("vault", 4), "balance", 4), other(4)))];
    let unknown = function("f", "Missing", body());
    let out = check_mut_borrow(&unknown, "lib.rs", &table("Deposit", &["vault"], &[]));
    assert_eq!(
        findings(&out),
        vec![Finding::UndeclaredMutation { field: s("vault"), function: s("f"), struct_name: s("Missing") }]
    );
    let unbound = FnItem { name: s("g"), line: 1, params: vec![], body: body() };
    let out = check_mut_borrow(&unbound, "lib.rs", &table("Deposit", &["vault"], &[]));
    assert_eq!(
        findings(&out),
        vec![Finding::UndeclaredMutation { field: s("vault"), function: s("g"), struct_name: s("") }]
    );
}

#[test]
fn later_struct_of_the_same_name_stands_for_it() {
    let mut t = table("Deposit", &["vault"], &[]);
    t.insert(StructSymbols { name: s("Other"), mutable: vec![s("vault")], initialized: vec![] });
    t.insert(StructSymbols { name: s("Deposit"), mutable: vec![], initialized: vec![] });
    let f = function("f", "Deposit", vec![Stmt::Local(Some(reference(true, account("vault", 3))))]);
    assert_eq!(check_mut_borrow(&f, "lib.rs", &t).len(), 1);
    assert_eq!(t.lookup(&s("Other")).map(|e| e.mutable.clone()), Some(vec![s("vault")]));
    assert_eq!(t.lookup(&s("Deposit")).map(|e| e.mutable.clone()), Some(vec![]));
    assert!(t.lookup(&s("Nobody")).is_none());
}

#[test]
fn nested_mutations_are_found() {
    let body = vec![Stmt::Expr(expr(
        2,
        ExprKind::If {
            cond: Box::new(other(2)),
            then_branch: vec![Stmt::Expr(call(
                name(&["helper"], 3),
                vec![reference(true, account("vault", 3))],
            ))],
            otherwise: Some(Box::new(expr(
                4,
                ExprKind::Block { stmts: vec![Stmt::Expr(assign(account("pool", 5), other(5)))] },
            ))),
        },
    ))];
    let out = check_mut_borrow(&function("f", "A", body), "lib.rs", &table("A", &[], &[]));
    assert_eq!(
        findings(&out),
        vec![
            Finding::UndeclaredMutBorrow { field: s("vault"), function: s("f"), struct_name: s("A") },
            Finding::UndeclaredMutation { field: s("pool"), function: s("f"), struct_name: s("A") },
        ]
    );
}

#[test]
fn remaining_accounts_reads_are_warned_about() {
    let read = |line: usize| member(name(&["ctx"], line), "remaining_accounts", line);
    let body = vec![
        Stmt::Local(Some(expr(2, ExprKind::Index { base: Box::new(read(2)), index: Box::new(other(2)) }))),
        Stmt::Expr(method(read(3), "len", 3, vec![])),
        Stmt::Expr(member(read(4), "first", 4)),
        Stmt::Expr(member(name(&["other"], 5), "remaining_accounts", 5)),
        Stmt::Expr(account("remaining_accounts", 6)),
    ];
    let out = check_remaining_accounts_usage(&function("route", "Route", body), "lib.rs");
    assert_eq!(out.len(), 3);
    for (d, line) in out.iter().zip([2, 3, 4]) {
        assert_eq!(d.severity, Severity::Warning);
        assert_eq!(d.finding, Finding::RemainingAccounts { function: s("route") });
        assert_eq!(d.line, line);
        assert_eq!(d.file, "lib.rs");
    }
    assert_eq!(warn("lib.rs", &s("route"), 2), out[0]);
}

#[test]
fn realloc_calls_are_warned_about() {
    let body = vec![
        Stmt::Expr(method(account("data", 2), "realloc", 3, vec![other(3), other(3)])),
        Stmt::Expr(method(expr(4, ExprKind::Field { base: Box::new(name(&["pair"], 4)), member: Member::Unnamed, member_line: 4 }), "realloc", 4, vec![])),
        Stmt::Expr(method(name(&["info"], 5), "realloc", 5, vec![])),
        Stmt::Expr(call(name(&["solana", "realloc"], 6), vec![])),
        Stmt::Expr(call(name(&["reallocate"], 7), vec![])),
        Stmt::Expr(method(name(&["info"], 8), "resize", 8, vec![])),
    ];
    let out = check_realloc_usage(&function("grow", "Grow", body), "lib.rs");
    assert_eq!(
        findings(&out),
        vec![
            Finding::ReallocMethod { account: s("data"), function: s("grow") },
            Finding::ReallocMethod { account: s("<unknown>"), function: s("grow") },
            Finding::ReallocMethod { account: s("<expr>"), function: s("grow") },
            Finding::ReallocFunction { function: s("grow") },
        ]
    );
    let lines: Vec<usize> = out.iter().map(|d| d.line).collect();
    assert_eq!(lines, vec![3, 4, 5, 6]);
    assert!(out.iter().all(|d| d.severity == Severity::Warning));
}

#[test]
fn walk_visits_each_expression_before_those_inside_it() {
    let e = call(
        name(&["f"], 1),
        vec![
            assign(name(&["a"], 2), name(&["b"], 3)),
            array(4, vec![name(&["c"], 5), reference(false, name(&["d"], 6))]),
        ],
    );
    let mut out = Vec::new();
    visit_expr(&e, &mut out);
    let lines: Vec<usize> = out
        .iter()
        .map(|n| match &n.kind {
            ExprKind::Path { name_line, .. } => *name_line,
            ExprKind::Call { .. } => 100,
            ExprKind::Assign { .. } => 200,
            ExprKind::Array { .. } => 400,
            ExprKind::Reference { .. } => 600,
            _ => 0,
        })
        .collect();
    assert_eq!(lines, vec![100, 1, 200, 2, 3, 400, 5, 600, 6]);
}

#[test]
fn walk_of_statements_skips_items_and_macros() {
    let body = vec![
        Stmt::Item,
        Stmt::Local(None),
        Stmt::Local(Some(name(&["a"], 1))),
        Stmt::Macro,
        Stmt::Expr(name(&["b"], 2)),
    ];
    let mut out = Vec::new();
    visit_stmts(&body, &mut out);
    let lines: Vec<usize> = out.iter().map(|n| n.line).collect();
    assert_eq!(lines, vec![1, 2]);
}
