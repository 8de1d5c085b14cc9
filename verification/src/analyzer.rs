//! The analysis of one source file in two passes: the struct pass classifies
//! the accounts structs, runs the per-struct checks and fills the symbol
//! table; the function pass runs the detectors over the functions of the
//! program module; at the end the seed usages are checked for collisions.

use crate::checks::cpi_check::{cpi_at, cpi_findings, detect_cpi_in_fn};
use crate::checks::init_if_needed_check::{
    check_init_if_needed, reinit_at, reinit_findings, reinit_in_field,
};
use crate::checks::mut_borrow_check::{
    bound_struct, check_mut_borrow, mutation_at, mutation_findings,
};
use crate::checks::realloc_check::{check_realloc_usage, realloc_at, realloc_findings};
use crate::checks::remaining_accounts_check::{
    check_remaining_accounts_usage, remaining_accounts_at, remaining_accounts_findings,
};
use crate::checks::seeds_reuse_check::{
    check_cross_struct_seeds, collect_seeds, field_seed_usages, seed_collisions, seed_usage_at,
    struct_seed_usages, usages, SeedUsageView,
};
use crate::checks::signer_check::{check_missing_signer, has_signer, is_signer_field, missing_signer};
use crate::checks::state_overwrite_check::{
    check_duplicate_account_types, duplicate_findings, field_uses, type_uses, TypeUse,
};
use crate::classifier::{
    constraints, initialized_names, mutable_names, named_fields, struct_symbols,
};
use crate::collect::{
    flat_map, lemma_flat_map_add, lemma_flat_map_nothing, lemma_flat_map_one, lemma_flat_map_step,
};
use crate::diagnostic::{
    append_all, diagnostic, report, Diagnostic, DiagnosticView, Finding, FindingView, Severity,
};
use crate::symbols::{sets_of, FieldSets, SymbolTable};
use crate::syntax::{
    Attribute, Expr, ExprKind, Field, FnItem, Item, ModItem, SourceFile, StructItem,
};
use crate::walker::visited_stmts;
use crate::utils::{is_accounts_struct, is_anchor_account_struct, is_program_mod, is_program_module};
use vstd::prelude::*;

verus! {

/// What the struct pass reports for the struct `item`: nothing unless it is
/// an accounts struct; for an accounts struct the note that it was found,
/// then the findings of the signer check, of the duplicate-type check and of
/// the reinitialization check.
pub open spec fn struct_findings(item: StructItem, file: Seq<char>) -> Seq<DiagnosticView> {
    if is_accounts_struct(item.attrs@) {
        seq![diagnostic(FindingView::AccountsStruct { name: item.name@ }, file, item.line as nat)]
            + missing_signer(item, file) + duplicate_findings(item, file) + reinit_findings(
            item,
            file,
        )
    } else {
        Seq::empty()
    }
}

/// The sets of field names that the accounts struct `item` declares.
pub open spec fn declared_sets(item: StructItem) -> FieldSets {
    FieldSets {
        mutable: mutable_names(named_fields(item.fields)).to_set(),
        initialized: initialized_names(named_fields(item.fields)).to_set(),
    }
}

/// The symbols after the struct `item`, given those before it.
pub open spec fn symbols_after(symbols: Map<Seq<char>, FieldSets>, item: StructItem) -> Map<
    Seq<char>,
    FieldSets,
> {
    if is_accounts_struct(item.attrs@) {
        symbols.insert(item.name@, declared_sets(item))
    } else {
        symbols
    }
}

/// The seed usages that the struct pass records for the struct `item`.
pub open spec fn recorded_seeds(item: StructItem, file: Seq<char>) -> Seq<SeedUsageView> {
    if is_accounts_struct(item.attrs@) {
        struct_seed_usages(item, file)
    } else {
        Seq::empty()
    }
}

/// What the struct pass reports for one item.
pub open spec fn struct_pass_at(item: Item, file: Seq<char>) -> Seq<DiagnosticView> {
    match item {
        Item::Struct(s) => struct_findings(s, file),
        _ => Seq::empty(),
    }
}

/// What the struct pass reports for the items of a file, in order.
pub open spec fn struct_pass(items: Seq<Item>, file: Seq<char>) -> Seq<DiagnosticView> {
    flat_map(items, |item: Item| struct_pass_at(item, file))
}

/// The symbols that the struct pass records for the items of a file. Where
/// two accounts structs share a name, the later one stands for the name.
pub open spec fn symbols_of(items: Seq<Item>) -> Map<Seq<char>, FieldSets>
    decreases items.len(),
{
    if items.len() == 0 {
        Map::empty()
    } else {
        match items.last() {
            Item::Struct(s) => symbols_after(symbols_of(items.drop_last()), s),
            _ => symbols_of(items.drop_last()),
        }
    }
}

/// The seed usages that the struct pass records for one item.
pub open spec fn seeds_at(item: Item, file: Seq<char>) -> Seq<SeedUsageView> {
    match item {
        Item::Struct(s) => recorded_seeds(s, file),
        _ => Seq::empty(),
    }
}

/// The seed usages that the struct pass records for the items of a file.
pub open spec fn seeds_of(items: Seq<Item>, file: Seq<char>) -> Seq<SeedUsageView> {
    flat_map(items, |item: Item| seeds_at(item, file))
}

/// What the function pass reports for one function of the program module:
/// the note that it was found, then the findings of the detector of calls
/// into other programs, of the remaining-accounts detector, of the
/// reallocation detector and of the mutation detector.
pub open spec fn function_findings(
    func: FnItem,
    file: Seq<char>,
    symbols: Map<Seq<char>, FieldSets>,
) -> Seq<DiagnosticView> {
    seq![diagnostic(FindingView::ProgramFunction { name: func.name@ }, file, func.line as nat)]
        + cpi_findings(func, file) + remaining_accounts_findings(func, file) + realloc_findings(
        func,
        file,
    ) + mutation_findings(func, file, symbols)
}

/// What the function pass reports for the module `m`: nothing unless it is
/// the program module; for the program module the note that it was found,
/// then the findings for each of its functions.
pub open spec fn module_findings(
    m: ModItem,
    file: Seq<char>,
    symbols: Map<Seq<char>, FieldSets>,
) -> Seq<DiagnosticView> {
    if is_program_module(m.attrs@) {
        seq![diagnostic(FindingView::ProgramModule { name: m.name@ }, file, m.line as nat)]
            + flat_map(m.functions@, |func: FnItem| function_findings(func, file, symbols))
    } else {
        Seq::empty()
    }
}

/// What the function pass reports for one item.
pub open spec fn function_pass_at(
    item: Item,
    file: Seq<char>,
    symbols: Map<Seq<char>, FieldSets>,
) -> Seq<DiagnosticView> {
    match item {
        Item::Mod(m) => module_findings(m, file, symbols),
        _ => Seq::empty(),
    }
}

/// What the function pass reports for the items of a file, in order.
pub open spec fn function_pass(
    items: Seq<Item>,
    file: Seq<char>,
    symbols: Map<Seq<char>, FieldSets>,
) -> Seq<DiagnosticView> {
    flat_map(items, |item: Item| function_pass_at(item, file, symbols))
}

/// Everything that the analysis reports for a parsed file: the findings of
/// the struct pass, those of the function pass against the symbols of the
/// whole file, and the seed collisions.
pub open spec fn file_findings(file: SourceFile, name: Seq<char>) -> Seq<DiagnosticView> {
    struct_pass(file.items@, name) + function_pass(file.items@, name, symbols_of(file.items@))
        + seed_collisions(seeds_of(file.items@, name))
}

/// The struct pass for one struct. A struct that is no accounts struct is
/// passed over: nothing is reported and nothing is recorded.
pub fn analyze_struct(item: &StructItem, filename: &str, table: &mut SymbolTable) -> (out: Vec<
    Diagnostic,
>)
    ensures
        report(out@) == struct_findings(*item, filename@),
        final(table)@ == symbols_after(old(table)@, *item),
        usages(final(table).seeds@) == usages(old(table).seeds@) + recorded_seeds(
            *item,
            filename@,
        ),
{
    let mut out: Vec<Diagnostic> = Vec::new();
    if !is_anchor_account_struct(&item.attrs) {
        assert(report(out@) =~= Seq::<DiagnosticView>::empty());
        assert(usages(table.seeds@) =~= usages(table.seeds@) + Seq::<SeedUsageView>::empty());
        return out;
    }
    out.push(
        Diagnostic::new(Finding::AccountsStruct { name: item.name.clone() }, filename, item.line),
    );
    assert(report(out@) =~= seq![
        diagnostic(
            FindingView::AccountsStruct { name: item.name@ },
            filename@,
            item.line as nat,
        ),
    ]);
    append_all(&mut out, check_missing_signer(item, filename));
    append_all(&mut out, check_duplicate_account_types(item, filename));
    append_all(&mut out, check_init_if_needed(item, filename));
    collect_seeds(item, filename, &mut table.seeds);
    table.insert(struct_symbols(item));
    out
}

/// The function pass for one function of the program module.
pub fn analyze_function(func: &FnItem, filename: &str, table: &SymbolTable) -> (out: Vec<
    Diagnostic,
>)
    ensures
        report(out@) == function_findings(*func, filename@, table@),
{
    let mut out: Vec<Diagnostic> = Vec::new();
    out.push(
        Diagnostic::new(Finding::ProgramFunction { name: func.name.clone() }, filename, func.line),
    );
    assert(report(out@) =~= seq![
        diagnostic(
            FindingView::ProgramFunction { name: func.name@ },
            filename@,
            func.line as nat,
        ),
    ]);
    append_all(&mut out, detect_cpi_in_fn(func, filename));
    append_all(&mut out, check_remaining_accounts_usage(func, filename));
    append_all(&mut out, check_realloc_usage(func, filename));
    append_all(&mut out, check_mut_borrow(func, filename, table));
    out
}

/// The function pass for one module. A module that is not the program
/// module is passed over.
#[verifier::loop_isolation(false)]
pub fn analyze_module(m: &ModItem, filename: &str, table: &SymbolTable) -> (out: Vec<Diagnostic>)
    ensures
        report(out@) == module_findings(*m, filename@, table@),
{
    let mut out: Vec<Diagnostic> = Vec::new();
    if !is_program_mod(&m.attrs) {
        assert(report(out@) =~= Seq::<DiagnosticView>::empty());
        return out;
    }
    out.push(Diagnostic::new(Finding::ProgramModule { name: m.name.clone() }, filename, m.line));
    let ghost head = seq![
        diagnostic(FindingView::ProgramModule { name: m.name@ }, filename@, m.line as nat),
    ];
    let ghost hook = |func: FnItem| function_findings(func, filename@, table@);
    assert(report(out@) =~= head + flat_map(m.functions@.take(0), hook));
    let mut i: usize = 0;
    while i < m.functions.len()
        invariant
            i <= m.functions.len(),
            report(out@) == head + flat_map(m.functions@.take(i as int), hook),
        decreases m.functions.len() - i,
    {
        proof {
            lemma_flat_map_step(m.functions@, hook, i as int);
        }
        append_all(&mut out, analyze_function(&m.functions[i], filename, table));
        assert(report(out@) =~= head + (flat_map(m.functions@.take(i as int), hook) + hook(
            m.functions@[i as int],
        )));
        i += 1;
    }
    assert(m.functions@.take(i as int) == m.functions@);
    out
}

/// Analyzes a parsed file and returns its diagnostics in the order in which
/// they are found: struct pass, function pass, seed collisions.
#[verifier::loop_isolation(false)]
pub fn analyze_file(file: &SourceFile, filename: &str) -> (out: Vec<Diagnostic>)
    ensures
        report(out@) == file_findings(*file, filename@),
{
    let items = &file.items;
    let mut out: Vec<Diagnostic> = Vec::new();
    let mut table = SymbolTable::new();
    let ghost at_struct = |item: Item| struct_pass_at(item, filename@);
    let ghost at_seeds = |item: Item| seeds_at(item, filename@);
    assert(report(out@) =~= flat_map(items@.take(0), at_struct));
    assert(usages(table.seeds@) =~= flat_map(items@.take(0), at_seeds));
    let mut i: usize = 0;
    while i < items.len()
        invariant
            i <= items.len(),
            report(out@) == flat_map(items@.take(i as int), at_struct),
            table@ == symbols_of(items@.take(i as int)),
            usages(table.seeds@) == flat_map(items@.take(i as int), at_seeds),
        decreases items.len() - i,
    {
        proof {
            lemma_flat_map_step(items@, at_struct, i as int);
            lemma_flat_map_step(items@, at_seeds, i as int);
            assert(items@.take(i as int + 1).drop_last() == items@.take(i as int));
            assert(items@.take(i as int + 1).last() == items@[i as int]);
        }
        match &items[i] {
            Item::Struct(s) => {
                let more = analyze_struct(s, filename, &mut table);
                append_all(&mut out, more);
            },
            _ => {
                assert(report(out@) + Seq::<DiagnosticView>::empty() =~= report(out@));
                assert(usages(table.seeds@) + Seq::<SeedUsageView>::empty() =~= usages(
                    table.seeds@,
                ));
            },
        }
        i += 1;
    }
    assert(items@.take(i as int) == items@);
    let ghost first = report(out@);
    let ghost at_module = |item: Item| function_pass_at(item, filename@, table@);
    assert(first =~= first + flat_map(items@.take(0), at_module));
    let mut j: usize = 0;
    while j < items.len()
        invariant
            j <= items.len(),
            report(out@) == first + flat_map(items@.take(j as int), at_module),
        decreases items.len() - j,
    {
        proof {
            lemma_flat_map_step(items@, at_module, j as int);
        }
        match &items[j] {
            Item::Mod(m) => {
                let more = analyze_module(m, filename, &table);
                append_all(&mut out, more);
            },
            _ => {},
        }
        assert(report(out@) =~= first + (flat_map(items@.take(j as int), at_module) + at_module(
            items@[j as int],
        )));
        j += 1;
    }
    assert(items@.take(j as int) == items@);
    append_all(&mut out, check_cross_struct_seeds(&table.seeds));
    out
}

/// Why a source file could not be parsed.
#[derive(Debug, Clone, PartialEq, Eq)]
pub struct ParseError {
    /// The parser's message.
    pub message: String,
    /// The line at which the parser gave up.
    pub line: usize,
}

/// One source file of a run: its path, and its syntax tree or the reason why
/// it has none.
#[derive(Debug, PartialEq, Eq)]
pub struct SourceUnit {
    pub path: String,
    pub parsed: Result<SourceFile, ParseError>,
}

/// The single diagnostic for a file that could not be parsed.
pub open spec fn parse_failure(path: Seq<char>, error: ParseError) -> DiagnosticView {
    diagnostic(
        FindingView::ParseFailure { file: path, reason: error.message@ },
        path,
        error.line as nat,
    )
}

/// What is reported for one source file: the findings of its analysis, or
/// the one diagnostic that says that it could not be parsed.
pub open spec fn unit_findings(unit: SourceUnit) -> Seq<DiagnosticView> {
    match unit.parsed {
        Ok(file) => file_findings(file, unit.path@),
        Err(error) => seq![parse_failure(unit.path@, error)],
    }
}

/// What is reported for a run over several source files: what is reported
/// for each of them, in order.
pub open spec fn run_findings(units: Seq<SourceUnit>) -> Seq<DiagnosticView> {
    flat_map(units, |unit: SourceUnit| unit_findings(unit))
}

/// Reports on one source file. A file that could not be parsed yields one
/// diagnostic that names the file and gives the parser's message; no
/// detector runs on it.
pub fn analyze_unit(unit: &SourceUnit) -> (out: Vec<Diagnostic>)
    ensures
        report(out@) == unit_findings(*unit),
{
    match &unit.parsed {
        Ok(file) => analyze_file(file, unit.path.as_str()),
        Err(error) => {
            let mut out: Vec<Diagnostic> = Vec::new();
            out.push(
                Diagnostic::new(
                    Finding::ParseFailure {
                        file: unit.path.clone(),
                        reason: error.message.clone(),
                    },
                    unit.path.as_str(),
                    error.line,
                ),
            );
            assert(report(out@) =~= unit_findings(*unit));
            out
        },
    }
}

/// Reports on the source files of a run, one after the other. Nothing is
/// carried over from one file to the next.
#[verifier::loop_isolation(false)]
pub fn analyze_units(units: &Vec<SourceUnit>) -> (out: Vec<Diagnostic>)
    ensures
        report(out@) == run_findings(units@),
{
    let mut out: Vec<Diagnostic> = Vec::new();
    let ghost hook = |unit: SourceUnit| unit_findings(unit);
    assert(report(out@) =~= flat_map(units@.take(0), hook));
    let mut i: usize = 0;
    while i < units.len()
        invariant
            i <= units.len(),
            report(out@) == flat_map(units@.take(i as int), hook),
        decreases units.len() - i,
    {
        proof {
            lemma_flat_map_step(units@, hook, i as int);
        }
        append_all(&mut out, analyze_unit(&units[i]));
        i += 1;
    }
    assert(units@.take(i as int) == units@);
    out
}

/// A struct that does not derive `Accounts` is passed over by the struct
/// pass: it raises no diagnostic, leaves the symbols as they are and records
/// no seed usage.
pub proof fn lemma_unmarked_struct_is_passed_over(
    item: StructItem,
    file: Seq<char>,
    symbols: Map<Seq<char>, FieldSets>,
)
    requires
        !is_accounts_struct(item.attrs@),
    ensures
        struct_findings(item, file) == Seq::<DiagnosticView>::empty(),
        symbols_after(symbols, item) == symbols,
        recorded_seeds(item, file) == Seq::<SeedUsageView>::empty(),
{
}

/// A file that fails to parse contributes its one diagnostic and nothing
/// else, and what is reported for the files before and after it is what
/// would be reported without it.
pub proof fn lemma_parse_failure_is_local(units: Seq<SourceUnit>, i: int)
    requires
        0 <= i < units.len(),
        units[i].parsed is Err,
    ensures
        run_findings(units) == run_findings(units.take(i)) + seq![
            parse_failure(units[i].path@, units[i].parsed->Err_0),
        ] + run_findings(units.skip(i + 1)),
{
    let hook = |unit: SourceUnit| unit_findings(unit);
    let before = units.take(i);
    let after = units.skip(i + 1);
    assert(units == before + seq![units[i]] + after);
    lemma_flat_map_add(before + seq![units[i]], after, hook);
    lemma_flat_map_add(before, seq![units[i]], hook);
    lemma_flat_map_one(units[i], hook);
}

/// The reports of a run over two lists of files, one after the other, are
/// the reports of the two runs, one after the other.
pub proof fn lemma_runs_are_independent(first: Seq<SourceUnit>, second: Seq<SourceUnit>)
    ensures
        run_findings(first + second) == run_findings(first) + run_findings(second),
{
    lemma_flat_map_add(first, second, |unit: SourceUnit| unit_findings(unit));
}

/// No detector looks at the expression `e` itself: it is neither a field
/// access, a call, a method call, a reference, an assignment nor a binary
/// operation.
pub open spec fn is_inert(e: Expr) -> bool {
    match e.kind {
        ExprKind::Field { .. } => false,
        ExprKind::Call { .. } => false,
        ExprKind::MethodCall { .. } => false,
        ExprKind::Reference { .. } => false,
        ExprKind::Assign { .. } => false,
        ExprKind::Binary { .. } => false,
        _ => true,
    }
}

/// The field carries no constraint that makes it mutable, lets it be
/// initialized twice, or gives it seeds.
pub open spec fn is_plain_field(f: Field) -> bool {
    forall|i: int|
        0 <= i < f.attrs@.len() ==> match constraints(#[trigger] f.attrs@[i]) {
            Some(c) => !c.mutable && !c.reinitializable && c.seeds is None,
            None => true,
        }
}

/// A file that holds one accounts struct whose single field is a plain
/// signer account, and a program module with one handler that accesses no
/// account and calls nothing, raises nothing above the three notes on what
/// was found: no warning and no error.
pub proof fn lemma_signer_struct_and_idle_handler_raise_no_warning(
    file: SourceFile,
    item: StructItem,
    m: ModItem,
    name: Seq<char>,
)
    requires
        file.items@ == seq![Item::Struct(item), Item::Mod(m)],
        is_accounts_struct(item.attrs@),
        item.fields is Named,
        named_fields(item.fields).len() == 1,
        is_signer_field(named_fields(item.fields)[0]),
        is_plain_field(named_fields(item.fields)[0]),
        is_program_module(m.attrs@),
        m.functions@.len() == 1,
        forall|i: int|
            0 <= i < visited_stmts(m.functions@[0].body@).len() ==> is_inert(
                #[trigger] visited_stmts(m.functions@[0].body@)[i],
            ),
    ensures
        file_findings(file, name) == seq![
            diagnostic(FindingView::AccountsStruct { name: item.name@ }, name, item.line as nat),
            diagnostic(FindingView::ProgramModule { name: m.name@ }, name, m.line as nat),
            diagnostic(
                FindingView::ProgramFunction { name: m.functions@[0].name@ },
                name,
                m.functions@[0].line as nat,
            ),
        ],
        forall|k: int|
            0 <= k < file_findings(file, name).len() ==> (#[trigger] file_findings(
                file,
                name,
            )[k]).severity == Severity::Info,
{
    let items = file.items@;
    let first = seq![Item::Struct(item)];
    let second = seq![Item::Mod(m)];
    assert(items == first + second);
    let fields = named_fields(item.fields);
    let field = fields[0];
    let func = m.functions@[0];
    let nodes = visited_stmts(func.body@);
    assert(fields == seq![field]);
    assert(m.functions@ == seq![func]);

    // The struct pass: the note, and nothing from the three checks.
    assert(has_signer(fields));
    assert(missing_signer(item, name) == Seq::<DiagnosticView>::empty());
    assert(field_uses(fields) == Seq::<TypeUse>::empty()) by {
        reveal_strlit("Signer");
        reveal_strlit("Account");
        reveal_strlit("Box");
        assert("Signer"@.len() != "Account"@.len());
        assert("Signer"@.len() != "Box"@.len());
        let per_field = |f: Field| type_uses(f.ty, f.line as nat);
        lemma_flat_map_one(field, per_field);
    }
    assert(duplicate_findings(item, name) == Seq::<DiagnosticView>::empty());
    assert(reinit_findings(item, name) == Seq::<DiagnosticView>::empty()) by {
        let per_attr = |attr: Attribute| reinit_at(attr, field.name@, item.name@, name);
        assert forall|i: int| 0 <= i < field.attrs@.len() implies (#[trigger] per_attr(
            field.attrs@[i],
        )).len() == 0 by {
            assert(constraints(field.attrs@[i]) is Some ==> !constraints(
                field.attrs@[i],
            ).unwrap().reinitializable);
        }
        lemma_flat_map_nothing(field.attrs@, per_attr);
        lemma_flat_map_one(field, |f: Field| reinit_in_field(f, item.name@, name));
    }
    let note = seq![
        diagnostic(FindingView::AccountsStruct { name: item.name@ }, name, item.line as nat),
    ];
    assert(struct_findings(item, name) =~= note);
    let at_struct = |it: Item| struct_pass_at(it, name);
    lemma_flat_map_add(first, second, at_struct);
    lemma_flat_map_one(Item::Struct(item), at_struct);
    lemma_flat_map_one(Item::Mod(m), at_struct);
    assert(struct_pass(items, name) =~= note);

    // The seed usages: none, so no collision.
    assert(recorded_seeds(item, name) == Seq::<SeedUsageView>::empty()) by {
        let per_attr = |attr: Attribute| seed_usage_at(attr, field.name@, item.name@, name);
        assert forall|i: int| 0 <= i < field.attrs@.len() implies (#[trigger] per_attr(
            field.attrs@[i],
        )).len() == 0 by {
            assert(constraints(field.attrs@[i]) is Some ==> constraints(
                field.attrs@[i],
            ).unwrap().seeds is None);
        }
        lemma_flat_map_nothing(field.attrs@, per_attr);
        lemma_flat_map_one(field, |f: Field| field_seed_usages(f, item.name@, name));
    }
    let at_seeds = |it: Item| seeds_at(it, name);
    lemma_flat_map_add(first, second, at_seeds);
    lemma_flat_map_one(Item::Struct(item), at_seeds);
    lemma_flat_map_one(Item::Mod(m), at_seeds);
    assert(seeds_of(items, name) =~= Seq::<SeedUsageView>::empty());
    assert(seed_collisions(seeds_of(items, name)) == Seq::<DiagnosticView>::empty());

    // The function pass: the two notes, and nothing from the four detectors.
    let symbols = symbols_of(items);
    let bound = bound_struct(func.params@);
    let sets = sets_of(symbols, bound);
    lemma_flat_map_nothing(nodes, |e: Expr| cpi_at(e, func.name@, name));
    lemma_flat_map_nothing(nodes, |e: Expr| remaining_accounts_at(e, func.name@, name));
    lemma_flat_map_nothing(nodes, |e: Expr| realloc_at(e, func.name@, name));
    lemma_flat_map_nothing(
        nodes,
        |e: Expr| mutation_at(e, func.name@, name, bound, sets.mutable, sets.initialized),
    );
    let found = seq![
        diagnostic(FindingView::ProgramFunction { name: func.name@ }, name, func.line as nat),
    ];
    assert(function_findings(func, name, symbols) =~= found);
    lemma_flat_map_one(func, |f: FnItem| function_findings(f, name, symbols));
    let module = seq![
        diagnostic(FindingView::ProgramModule { name: m.name@ }, name, m.line as nat),
    ];
    assert(module_findings(m, name, symbols) =~= module + found);
    let at_module = |it: Item| function_pass_at(it, name, symbols);
    lemma_flat_map_add(first, second, at_module);
    lemma_flat_map_one(Item::Struct(item), at_module);
    lemma_flat_map_one(Item::Mod(m), at_module);
    assert(function_pass(items, name, symbols) =~= module + found);
    assert(file_findings(file, name) =~= note + module + found);
}

} // verus!
