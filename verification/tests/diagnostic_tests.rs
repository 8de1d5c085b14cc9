use sageguard::checks::seeds_reuse_check::GlobalSeedUsage;
use sageguard::diagnostic::{append_all, Diagnostic, Finding, Severity};

fn s(text: &str) -> String {
    text.to_string()
}

#[test]
fn severity_of_each_finding() {
    let cases = vec![
        (Finding::AccountsStruct { name: s("A") }, Severity::Info),
        (Finding::ProgramModule { name: s("m") }, Severity::Info),
        (Finding::ProgramFunction { name: s("f") }, Severity::Info),
        (Finding::MissingSigner { struct_name: s("A") }, Severity::Warning),
        (
            Finding::DuplicateAccountType { account_type: s("T"), struct_name: s("A"), lines: vec![1, 2] },
            Severity::Error,
        ),
        (Finding::RiskyReinit { field: s("x"), struct_name: s("A") }, Severity::Warning),
        (Finding::CrossProgramCall { callee: s("invoke"), function: s("f") }, Severity::Warning),
        (Finding::MissingBump { function: s("f") }, Severity::Error),
        (
            Finding::UndeclaredMutBorrow { field: s("x"), function: s("f"), struct_name: s("A") },
            Severity::Error,
        ),
        (
            Finding::UndeclaredMutation { field: s("x"), function: s("f"), struct_name: s("A") },
            Severity::Error,
        ),
        (Finding::RemainingAccounts { function: s("f") }, Severity::Warning),
        (Finding::ReallocMethod { account: s("x"), function: s("f") }, Severity::Warning),
        (Finding::ReallocFunction { function: s("f") }, Severity::Warning),
        (
            Finding::SeedCollision { prefix: s("p"), structs: vec![], usages: vec![] },
            Severity::Warning,
        ),
        (Finding::ParseFailure { file: s("a.rs"), reason: s("bad") }, Severity::Error),
    ];
    for (finding, severity) in cases {
        assert_eq!(finding.severity(), severity);
        let d = Diagnostic::new(finding.clone(), "a.rs", 3);
        assert_eq!(d.severity, severity);
        assert_eq!(d.message, finding.message());
        assert_eq!(d.finding, finding);
        assert_eq!(d.file, "a.rs");
        assert_eq!(d.line, 3);
    }
}

#[test]
fn messages_of_structural_findings() {
    assert_eq!(
        Finding::AccountsStruct { name: s("Initialize") }.message(),
        "Found #[derive(Accounts)] struct: Initialize"
    );
    assert_eq!(Finding::ProgramModule { name: s("vault") }.message(), "Found program : vault");
    assert_eq!(
        Finding::ProgramFunction { name: s("deposit") }.message(),
        "Function inside program: deposit"
    );
    assert_eq!(
        Finding::ParseFailure { file: s("src/lib.rs"), reason: s("expected `;`") }.message(),
        "Failed to parse src/lib.rs: expected `;`"
    );
}

#[test]
fn messages_of_struct_findings() {
    assert_eq!(
        Finding::MissingSigner { struct_name: s("Initialize") }.message(),
        "Struct `Initialize` is missing a `Signer` type on one or more accounts."
    );
    assert_eq!(
        Finding::DuplicateAccountType {
            account_type: s("Vault"),
            struct_name: s("Transfer"),
            lines: vec![12, 14, 103],
        }
        .message(),
        "Duplicate `Account<Vault>` fields in struct `Transfer` on lines 12, 14, 103. Consider using a separate `#[derive(Accounts)]` struct. For more details, see: https://hackmd.io/@S3v3ru5/Byia-fQHJe"
    );
    assert_eq!(
        Finding::RiskyReinit { field: s("vault"), struct_name: s("Initialize") }.message(),
        "`init_if_needed` on `vault` in struct `Initialize` may reinitialize an existing account. Use with caution!"
    );
}

#[test]
fn messages_of_function_findings() {
    assert_eq!(
        Finding::CrossProgramCall { callee: s("transfer"), function: s("deposit") }.message(),
        "CPI `transfer` in `deposit`. Consider `.reload()?` on affected accounts."
    );
    assert_eq!(
        Finding::MissingBump { function: s("withdraw") }.message(),
        "`invoke_signed` in `withdraw` is missing a bump in its signer seeds. Make sure each seed slice ends with the bump value."
    );
    assert_eq!(
        Finding::UndeclaredMutBorrow { field: s("vault"), function: s("deposit"), struct_name: s("Deposit") }
            .message(),
        "`vault` is mutably borrowed in `deposit` but not declared `mut` in `Deposit`. Please add `#[account(mut)]` to `vault`."
    );
    assert_eq!(
        Finding::UndeclaredMutation { field: s("vault"), function: s("deposit"), struct_name: s("Deposit") }
            .message(),
        "`vault` is mutated in `deposit` but not declared `mut` in `Deposit`. Please add `#[account(mut)]` to `vault`."
    );
    assert_eq!(
        Finding::RemainingAccounts { function: s("route") }.message(),
        "Usage of `ctx.remaining_accounts` in `route`. Ensure you check length/order before indexing."
    );
    assert_eq!(
        Finding::ReallocMethod { account: s("data"), function: s("grow") }.message(),
        "Call to `.realloc()` on `data` in `grow`. Make sure to handle rent-exemption and re-serialization"
    );
    assert_eq!(
        Finding::ReallocFunction { function: s("grow") }.message(),
        "Free-function `realloc()` called in `grow`. Make sure to handle rent-exemption and re-serialization"
    );
}

#[test]
fn message_of_a_seed_collision_lists_every_usage() {
    let usage = |st: &str, field: &str, line: usize| GlobalSeedUsage {
        struct_name: s(st),
        field_name: s(field),
        prefix: s("b\"pool\""),
        file: s("lib.rs"),
        line,
    };
    let finding = Finding::SeedCollision {
        prefix: s("b\"pool\""),
        structs: vec![s("Close"), s("Open")],
        usages: vec![usage("Open", "pool", 10), usage("Close", "vault", 27)],
    };
    assert_eq!(
        finding.message(),
        "Seed prefix `b\"pool\"` reused across structs [Close, Open]: Open::pool (lib.rs:10), Close::vault (lib.rs:27)"
    );
}

#[test]
fn rendering_a_diagnostic() {
    let d = Diagnostic::new(Finding::MissingBump { function: s("withdraw") }, "programs/vault/src/lib.rs", 42);
    assert_eq!(
        d.render(),
        "[ERROR] `invoke_signed` in `withdraw` is missing a bump in its signer seeds. Make sure each seed slice ends with the bump value. (programs/vault/src/lib.rs:42)"
    );
    assert_eq!(
        d.render_with("<<E>>"),
        "<<E>> `invoke_signed` in `withdraw` is missing a bump in its signer seeds. Make sure each seed slice ends with the bump value. (programs/vault/src/lib.rs:42)"
    );
    let info = Diagnostic::new(Finding::ProgramModule { name: s("vault") }, "lib.rs", 0);
    assert_eq!(info.render(), "[INFO] Found program : vault (lib.rs:0)");
    let warning = Diagnostic::new(Finding::RemainingAccounts { function: s("f") }, "lib.rs", 9);
    assert_eq!(
        warning.render(),
        "[WARNING] Usage of `ctx.remaining_accounts` in `f`. Ensure you check length/order before indexing. (lib.rs:9)"
    );
}

#[test]
fn severity_tags() {
    assert_eq!(Severity::Info.tag(), "INFO");
    assert_eq!(Severity::Warning.tag(), "WARNING");
    assert_eq!(Severity::Error.tag(), "ERROR");
}

#[test]
fn append_all_keeps_the_order() {
    let mut out = vec![Diagnostic::new(Finding::ProgramModule { name: s("a") }, "f", 1)];
    let more = vec![
        Diagnostic::new(Finding::ProgramFunction { name: s("b") }, "f", 2),
        Diagnostic::new(Finding::ProgramFunction { name: s("c") }, "f", 3),
    ];
    append_all(&mut out, more);
    let lines: Vec<usize> = out.iter().map(|d| d.line).collect();
    assert_eq!(lines, vec![1, 2, 3]);
}
