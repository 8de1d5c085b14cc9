use sageguard::checks::init_if_needed_check::check_init_if_needed;
use sageguard::checks::mut_borrow_check::attr_contains_mut;
use sageguard::checks::seeds_reuse_check::{check_cross_struct_seeds, collect_seeds, GlobalSeedUsage};
use sageguard::checks::signer_check::check_missing_signer;
use sageguard::checks::state_overwrite_check::check_duplicate_account_types;
use sageguard::classifier::{field_flags, parse_constraints, struct_symbols, ConstraintSet};
use sageguard::diagnostic::{Finding, Severity};
use sageguard::syntax::{Attribute, Field, Fields, GenericArg, Path, StructItem, Type, TypeSegment};
use sageguard::utils::{is_anchor_account_struct, is_handler_fn, is_program_mod};

fn s(text: &str) -> String {
    text.to_string()
}

fn path(names: &[&str]) -> Path {
    Path { segments: names.iter().map(|n| n.to_string()).collect() }
}

fn attr(name: &str, metas: &[&str], tokens: &str, line: usize) -> Attribute {
    Attribute {
        path: path(&[name]),
        metas: metas.iter().map(|m| path(&[m])).collect(),
        tokens: s(tokens),
        line,
    }
}

fn derive_accounts() -> Attribute {
    attr("derive", &["Accounts"], "Accounts", 1)
}

fn named(name: &str) -> Type {
    Type::Path(vec![TypeSegment { ident: s(name), generics: vec![] }])
}

fn generic(name: &str, args: Vec<GenericArg>) -> Type {
    Type::Path(vec![TypeSegment { ident: s(name), generics: args }])
}

fn account(of: &str) -> Type {
    generic("Account", vec![GenericArg::Other, GenericArg::Type(named(of))])
}

fn boxed(inner: Type) -> Type {
    generic("Box", vec![GenericArg::Type(inner)])
}

fn signer() -> Type {
    generic("Signer", vec![GenericArg::Other])
}

fn field(name: &str, line: usize, ty: Type, attrs: Vec<Attribute>) -> Field {
    Field { name: s(name), line, ty, attrs }
}

fn accounts_struct(name: &str, line: usize, fields: Vec<Field>) -> StructItem {
    StructItem { name: s(name), line, attrs: vec![derive_accounts()], fields: Fields::Named(fields) }
}

fn usage(st: &str, field: &str, prefix: &str, line: usize) -> GlobalSeedUsage {
    GlobalSeedUsage { struct_name: s(st), field_name: s(field), prefix: s(prefix), file: s("lib.rs"), line }
}

#[test]
fn accounts_marker_is_found_among_derives() {
    assert!(is_anchor_account_struct(&vec![attr("derive", &["Clone", "Accounts"], "Clone , Accounts", 1)]));
    assert!(is_anchor_account_struct(&vec![attr("doc", &[], "", 1), derive_accounts()]));
    assert!(!is_anchor_account_struct(&vec![attr("derive", &["Clone", "Debug"], "Clone , Debug", 1)]));
    assert!(!is_anchor_account_struct(&vec![attr("account", &["Accounts"], "Accounts", 1)]));
    assert!(!is_anchor_account_struct(&vec![]));
}

#[test]
fn accounts_marker_must_be_a_single_name() {
    let qualified = Attribute {
        path: path(&["derive"]),
        metas: vec![path(&["anchor_lang", "Accounts"])],
        tokens: s("anchor_lang :: Accounts"),
        line: 1,
    };
    assert!(!is_anchor_account_struct(&vec![qualified]));
    let qualified_derive = Attribute {
        path: path(&["core", "derive"]),
        metas: vec![path(&["Accounts"])],
        tokens: s("Accounts"),
        line: 1,
    };
    assert!(!is_anchor_account_struct(&vec![qualified_derive]));
}

#[test]
fn program_module_is_marked_by_its_attribute() {
    assert!(is_program_mod(&vec![attr("program", &[], "", 3)]));
    assert!(!is_program_mod(&vec![attr("cfg", &["test"], "test", 3)]));
    assert!(!is_program_mod(&vec![]));
}

#[test]
fn handler_names() {
    assert!(is_handler_fn("handler"));
    assert!(is_handler_fn("handle_deposit"));
    assert!(is_handler_fn("handle_"));
    assert!(!is_handler_fn("handle"));
    assert!(!is_handler_fn("handlers"));
    assert!(!is_handler_fn("my_handler"));
    assert!(!is_handler_fn(""));
}

#[test]
fn attribute_with_mut_is_recognized() {
    assert!(attr_contains_mut(&attr("account", &["mut"], "mut", 1)));
    assert!(attr_contains_mut(&attr("account", &["seeds", "bump", "mut"], "seeds = [b\"x\"] , bump , mut", 1)));
    assert!(!attr_contains_mut(&attr("account", &["init", "payer"], "init , payer = user", 1)));
    assert!(!attr_contains_mut(&attr("other", &["mut"], "mut", 1)));
    assert!(!attr_contains_mut(&attr("account", &[], "", 1)));
}

#[test]
fn constraints_of_an_account_attribute() {
    let a = attr(
        "account",
        &["init_if_needed", "payer", "seeds", "bump", "mut"],
        "init_if_needed , payer = user , seeds = [b\"vault\" , user . key () . as_ref ()] , bump , mut",
        4,
    );
    assert_eq!(
        parse_constraints(&a),
        Some(ConstraintSet {
            mutable: true,
            signer: false,
            initialized: true,
            reinitializable: true,
            seeds: Some(vec![s("b\"vault\""), s("user . key () . as_ref ()")]),
        })
    );
    let b = attr("account", &["init", "signer"], "init , signer", 5);
    assert_eq!(
        parse_constraints(&b),
        Some(ConstraintSet { mutable: false, signer: true, initialized: true, reinitializable: false, seeds: None })
    );
    let c = attr("account", &[], "", 6);
    assert_eq!(
        parse_constraints(&c),
        Some(ConstraintSet { mutable: false, signer: false, initialized: false, reinitializable: false, seeds: None })
    );
    assert_eq!(parse_constraints(&attr("doc", &["mut"], "mut", 7)), None);
}

#[test]
fn field_flags_join_all_account_attributes() {
    let f = field(
        "vault",
        3,
        account("Vault"),
        vec![attr("doc", &["mut", "init"], "mut , init", 1), attr("account", &["mut"], "mut", 2), attr("account", &["init"], "init", 3)],
    );
    assert_eq!(field_flags(&f), (true, true));
    let g = field("vault", 3, account("Vault"), vec![attr("doc", &["mut", "init"], "mut , init", 1)]);
    assert_eq!(field_flags(&g), (false, false));
    let h = field("vault", 3, account("Vault"), vec![attr("account", &["init_if_needed"], "init_if_needed", 1)]);
    assert_eq!(field_flags(&h), (false, true));
}

#[test]
fn struct_symbols_list_mutable_and_initialized_fields() {
    let item = accounts_struct(
        "Deposit",
        2,
        vec![
            field("user", 4, signer(), vec![attr("account", &["mut"], "mut", 3)]),
            field("vault", 6, account("Vault"), vec![attr("account", &["init", "payer"], "init , payer = user", 5)]),
            field("config", 8, account("Config"), vec![attr("account", &[], "", 7)]),
            field("pool", 10, account("Pool"), vec![attr("account", &["mut", "init_if_needed"], "mut , init_if_needed", 9)]),
        ],
    );
    let entry = struct_symbols(&item);
    assert_eq!(entry.name, "Deposit");
    assert_eq!(entry.mutable, vec![s("user"), s("pool")]);
    assert_eq!(entry.initialized, vec![s("vault"), s("pool")]);
}

#[test]
fn struct_without_signer_is_warned_about() {
    let item = accounts_struct(
        "Deposit",
        7,
        vec![field("vault", 9, account("Vault"), vec![attr("account", &["mut"], "mut", 8)])],
    );
    let out = check_missing_signer(&item, "lib.rs");
    assert_eq!(out.len(), 1);
    assert_eq!(out[0].severity, Severity::Warning);
    assert_eq!(out[0].finding, Finding::MissingSigner { struct_name: s("Deposit") });
    assert_eq!(out[0].message, "Struct `Deposit` is missing a `Signer` type on one or more accounts.");
    assert_eq!(out[0].file, "lib.rs");
    assert_eq!(out[0].line, 7);
}

#[test]
fn struct_with_a_signer_account_is_not_warned_about() {
    let item = accounts_struct(
        "Deposit",
        7,
        vec![
            field("vault", 9, account("Vault"), vec![attr("account", &["mut"], "mut", 8)]),
            field("user", 11, signer(), vec![attr("account", &[], "", 10)]),
        ],
    );
    assert!(check_missing_signer(&item, "lib.rs").is_empty());
}

#[test]
fn signer_type_without_account_attribute_does_not_count() {
    let item = accounts_struct("Deposit", 7, vec![field("user", 11, signer(), vec![])]);
    assert_eq!(check_missing_signer(&item, "lib.rs").len(), 1);
    let wrapped = accounts_struct(
        "Deposit",
        7,
        vec![field("user", 11, Type::Reference(Box::new(signer())), vec![attr("account", &[], "", 10)])],
    );
    assert_eq!(check_missing_signer(&wrapped, "lib.rs").len(), 1);
}

#[test]
fn signer_check_edge_cases() {
    let empty = accounts_struct("Empty", 1, vec![]);
    assert_eq!(check_missing_signer(&empty, "lib.rs").len(), 1);
    let unit = StructItem { name: s("Unit"), line: 1, attrs: vec![derive_accounts()], fields: Fields::Other };
    assert!(check_missing_signer(&unit, "lib.rs").is_empty());
}

#[test]
fn two_fields_of_one_account_type_raise_one_error() {
    let item = accounts_struct(
        "Transfer",
        1,
        vec![
            field("from", 3, account("Vault"), vec![]),
            field("to", 5, boxed(account("Vault")), vec![]),
            field("config", 7, account("Config"), vec![]),
        ],
    );
    let out = check_duplicate_account_types(&item, "lib.rs");
    assert_eq!(out.len(), 1);
    assert_eq!(out[0].severity, Severity::Error);
    assert_eq!(
        out[0].finding,
        Finding::DuplicateAccountType { account_type: s("Vault"), struct_name: s("Transfer"), lines: vec![3, 5] }
    );
    assert_eq!(out[0].line, 3);
    assert!(out[0].message.contains("`Account<Vault>`"));
}

#[test]
fn one_field_of_an_account_type_raises_nothing() {
    let item = accounts_struct(
        "Transfer",
        1,
        vec![field("from", 3, account("Vault"), vec![]), field("config", 7, account("Config"), vec![])],
    );
    assert!(check_duplicate_account_types(&item, "lib.rs").is_empty());
}

#[test]
fn wrappers_are_looked_through() {
    let item = accounts_struct(
        "Transfer",
        1,
        vec![
            field("a", 3, Type::Reference(Box::new(account("Vault"))), vec![]),
            field("b", 4, Type::Paren(Box::new(boxed(Type::Reference(Box::new(account("Vault")))))), vec![]),
            field("c", 5, Type::Slice(Box::new(Type::Array(Box::new(Type::Group(Box::new(account("Vault"))))))), vec![]),
        ],
    );
    let out = check_duplicate_account_types(&item, "lib.rs");
    assert_eq!(out.len(), 1);
    assert_eq!(
        out[0].finding,
        Finding::DuplicateAccountType { account_type: s("Vault"), struct_name: s("Transfer"), lines: vec![3, 4, 5] }
    );
}

#[test]
fn other_wrappers_are_not_looked_through() {
    let item = accounts_struct(
        "Transfer",
        1,
        vec![
            field("a", 3, account("Vault"), vec![]),
            field("b", 4, generic("Option", vec![GenericArg::Type(account("Vault"))]), vec![]),
            field("c", 5, Type::Other, vec![]),
            field("d", 6, generic("Box", vec![GenericArg::Other, GenericArg::Type(account("Vault"))]), vec![]),
        ],
    );
    assert!(check_duplicate_account_types(&item, "lib.rs").is_empty());
}

#[test]
fn duplicates_come_in_the_order_of_first_use() {
    let item = accounts_struct(
        "Swap",
        1,
        vec![
            field("a", 2, account("Pool"), vec![]),
            field("b", 3, account("Vault"), vec![]),
            field("c", 4, account("Vault"), vec![]),
            field("d", 5, account("Pool"), vec![]),
        ],
    );
    let out = check_duplicate_account_types(&item, "lib.rs");
    assert_eq!(out.len(), 2);
    assert_eq!(
        out[0].finding,
        Finding::DuplicateAccountType { account_type: s("Pool"), struct_name: s("Swap"), lines: vec![2, 5] }
    );
    assert_eq!(
        out[1].finding,
        Finding::DuplicateAccountType { account_type: s("Vault"), struct_name: s("Swap"), lines: vec![3, 4] }
    );
    assert_eq!(out[1].line, 3);
}

#[test]
fn init_if_needed_is_warned_about_per_attribute() {
    let item = accounts_struct(
        "Initialize",
        1,
        vec![
            field("vault", 4, account("Vault"), vec![attr("account", &["init_if_needed", "payer"], "init_if_needed , payer = user", 3)]),
            field("pool", 6, account("Pool"), vec![attr("account", &["init"], "init", 5)]),
            field("other", 8, account("Other"), vec![attr("doc", &["init_if_needed"], "init_if_needed", 7)]),
        ],
    );
    let out = check_init_if_needed(&item, "lib.rs");
    assert_eq!(out.len(), 1);
    assert_eq!(out[0].severity, Severity::Warning);
    assert_eq!(out[0].finding, Finding::RiskyReinit { field: s("vault"), struct_name: s("Initialize") });
    assert_eq!(out[0].line, 3);
}

#[test]
fn seeds_are_collected_per_attribute() {
    let item = accounts_struct(
        "Open",
        1,
        vec![
            field("pool", 4, account("Pool"), vec![attr("account", &["seeds", "bump"], "seeds = [b\"pool\" , user . key () . as_ref ()] , bump", 3)]),
            field("user", 6, signer(), vec![attr("account", &["mut"], "mut", 5)]),
            field("vault", 8, account("Vault"), vec![attr("other", &["seeds"], "seeds = [b\"x\"]", 7), attr("account", &["seeds"], "seeds = [ VAULT ]", 8)]),
        ],
    );
    let mut out = vec![usage("Earlier", "e", "b\"e\"", 1)];
    collect_seeds(&item, "lib.rs", &mut out);
    assert_eq!(
        out,
        vec![
            usage("Earlier", "e", "b\"e\"", 1),
            usage("Open", "pool", "b\"pool\"", 3),
            usage("Open", "vault", "VAULT", 8),
        ]
    );
}

#[test]
fn seed_prefix_is_the_whole_first_element() {
    let item = accounts_struct(
        "Open",
        1,
        vec![
            field("a", 3, account("A"), vec![attr("account", &["seeds", "bump"], "seeds = [foo (a , b) . as_ref () , c] , bump", 2)]),
            field("b", 5, account("B"), vec![attr("account", &["seeds", "bump"], "seeds = [arr [0] , c] , bump", 4)]),
            field("c", 7, account("C"), vec![attr("account", &["seeds"], "seeds = [b\"x,y\" , c]", 6)]),
        ],
    );
    let mut out = Vec::new();
    collect_seeds(&item, "lib.rs", &mut out);
    assert_eq!(
        out,
        vec![
            usage("Open", "a", "foo (a , b) . as_ref ()", 2),
            usage("Open", "b", "arr [0]", 4),
            usage("Open", "c", "b\"x,y\"", 6),
        ]
    );
}

#[test]
fn first_elements_that_differ_behind_a_comma_do_not_collide() {
    let seeded = |st: &str, f: &str, tokens: &str| {
        accounts_struct(st, 1, vec![field(f, 3, account(st), vec![attr("account", &["seeds"], tokens, 2)])])
    };
    let mut all = Vec::new();
    collect_seeds(&seeded("Open", "pool", "seeds = [key (a , b) , x]"), "lib.rs", &mut all);
    collect_seeds(&seeded("Close", "vault", "seeds = [key (a , c) , x]"), "lib.rs", &mut all);
    assert!(check_cross_struct_seeds(&all).is_empty());
    collect_seeds(&seeded("Drain", "sink", "seeds = [key (a , b)]"), "lib.rs", &mut all);
    let out = check_cross_struct_seeds(&all);
    assert_eq!(out.len(), 1);
    match &out[0].finding {
        Finding::SeedCollision { prefix, structs, .. } => {
            assert_eq!(prefix, "key (a , b)");
            assert_eq!(structs, &vec![s("Drain"), s("Open")]);
        }
        other => panic!("unexpected finding {:?}", other),
    }
}

#[test]
fn seeds_of_a_tuple_struct_are_none() {
    let item = StructItem { name: s("T"), line: 1, attrs: vec![derive_accounts()], fields: Fields::Other };
    let mut out = Vec::new();
    collect_seeds(&item, "lib.rs", &mut out);
    assert!(out.is_empty());
}

#[test]
fn prefix_shared_by_two_fields_in_two_structs_collides() {
    let all = vec![
        usage("Open", "pool", "b\"pool\"", 3),
        usage("Open", "user", "b\"user\"", 5),
        usage("Close", "vault", "b\"pool\"", 20),
    ];
    let out = check_cross_struct_seeds(&all);
    assert_eq!(out.len(), 1);
    assert_eq!(out[0].severity, Severity::Warning);
    assert_eq!(
        out[0].finding,
        Finding::SeedCollision {
            prefix: s("b\"pool\""),
            structs: vec![s("Close"), s("Open")],
            usages: vec![usage("Open", "pool", "b\"pool\"", 3), usage("Close", "vault", "b\"pool\"", 20)],
        }
    );
    assert_eq!(out[0].file, "lib.rs");
    assert_eq!(out[0].line, 3);
    assert_eq!(
        out[0].message,
        "Seed prefix `b\"pool\"` reused across structs [Close, Open]: Open::pool (lib.rs:3), Close::vault (lib.rs:20)"
    );
}

#[test]
fn prefix_shared_inside_one_struct_does_not_collide() {
    let all = vec![usage("Open", "pool", "b\"pool\"", 3), usage("Open", "vault", "b\"pool\"", 5)];
    assert!(check_cross_struct_seeds(&all).is_empty());
}

#[test]
fn prefix_shared_by_one_field_name_does_not_collide() {
    let all = vec![usage("Open", "pool", "b\"pool\"", 3), usage("Close", "pool", "b\"pool\"", 25)];
    assert!(check_cross_struct_seeds(&all).is_empty());
}

#[test]
fn different_prefixes_do_not_collide() {
    let all = vec![usage("Open", "pool", "b\"pool\"", 3), usage("Close", "vault", "b\"vault\"", 25)];
    assert!(check_cross_struct_seeds(&all).is_empty());
    assert!(check_cross_struct_seeds(&Vec::new()).is_empty());
}

#[test]
fn collisions_come_in_the_order_of_first_use_with_sorted_structs() {
    let all = vec![
        usage("Zeta", "a", "P", 1),
        usage("Beta", "b", "Q", 2),
        usage("Alpha", "c", "P", 3),
        usage("Zeta", "d", "Q", 4),
        usage("Mid", "e", "P", 5),
        usage("Alpha", "f", "P", 6),
    ];
    let out = check_cross_struct_seeds(&all);
    assert_eq!(out.len(), 2);
    match &out[0].finding {
        Finding::SeedCollision { prefix, structs, usages } => {
            assert_eq!(prefix, "P");
            assert_eq!(structs, &vec![s("Alpha"), s("Mid"), s("Zeta")]);
            let lines: Vec<usize> = usages.iter().map(|u| u.line).collect();
            assert_eq!(lines, vec![1, 3, 5, 6]);
        }
        other => panic!("unexpected finding {:?}", other),
    }
    match &out[1].finding {
        Finding::SeedCollision { prefix, structs, .. } => {
            assert_eq!(prefix, "Q");
            assert_eq!(structs, &vec![s("Beta"), s("Zeta")]);
        }
        other => panic!("unexpected finding {:?}", other),
    }
    assert_eq!(out[0].line, 1);
    assert_eq!(out[1].line, 2);
}
