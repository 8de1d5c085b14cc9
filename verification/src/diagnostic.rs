//! Findings and the diagnostics that carry them.

use crate::checks::seeds_reuse_check::{usages, GlobalSeedUsage, SeedUsageView};
use crate::text::texts;
use vstd::prelude::*;

verus! {

/// How serious a diagnostic is.
#[derive(Debug, Clone, Copy, PartialEq, Eq, Structural)]
pub enum Severity {
    /// A structural observation.
    Info,
    /// A heuristic risk.
    Warning,
    /// A pattern that is very likely a vulnerability.
    Error,
}

/// What a detector found, with the names it is about.
#[derive(Debug, Clone, PartialEq, Eq)]
pub enum Finding {
    /// A struct that declares the accounts of a handler.
    AccountsStruct { name: String },
    /// The module that holds the program's handlers.
    ProgramModule { name: String },
    /// A function inside the program module.
    ProgramFunction { name: String },
    /// An accounts struct none of whose account fields is a signer.
    MissingSigner { struct_name: String },
    /// Several fields of one struct hold accounts of the same logical type.
    DuplicateAccountType { account_type: String, struct_name: String, lines: Vec<usize> },
    /// A field that may be initialized a second time.
    RiskyReinit { field: String, struct_name: String },
    /// A call into another program.
    CrossProgramCall { callee: String, function: String },
    /// A signed call into another program whose signer seeds lack a bump.
    MissingBump { function: String },
    /// A mutable borrow of an account that is not declared mutable.
    UndeclaredMutBorrow { field: String, function: String, struct_name: String },
    /// An assignment through an account that is not declared mutable.
    UndeclaredMutation { field: String, function: String, struct_name: String },
    /// A read of the unchecked list of remaining accounts.
    RemainingAccounts { function: String },
    /// A call of the method `realloc` on an account.
    ReallocMethod { account: String, function: String },
    /// A call of a free function `realloc`.
    ReallocFunction { function: String },
    /// A seed prefix that fields of several structs share.
    SeedCollision { prefix: String, structs: Vec<String>, usages: Vec<GlobalSeedUsage> },
    /// A source file that could not be parsed.
    ParseFailure { file: String, reason: String },
}

/// The mathematical value of a [`Finding`].
pub enum FindingView {
    AccountsStruct { name: Seq<char> },
    ProgramModule { name: Seq<char> },
    ProgramFunction { name: Seq<char> },
    MissingSigner { struct_name: Seq<char> },
    DuplicateAccountType { account_type: Seq<char>, struct_name: Seq<char>, lines: Seq<nat> },
    RiskyReinit { field: Seq<char>, struct_name: Seq<char> },
    CrossProgramCall { callee: Seq<char>, function: Seq<char> },
    MissingBump { function: Seq<char> },
    UndeclaredMutBorrow { field: Seq<char>, function: Seq<char>, struct_name: Seq<char> },
    UndeclaredMutation { field: Seq<char>, function: Seq<char>, struct_name: Seq<char> },
    RemainingAccounts { function: Seq<char> },
    ReallocMethod { account: Seq<char>, function: Seq<char> },
    ReallocFunction { function: Seq<char> },
    SeedCollision { prefix: Seq<char>, structs: Seq<Seq<char>>, usages: Seq<SeedUsageView> },
    ParseFailure { file: Seq<char>, reason: Seq<char> },
}

/// Line numbers as natural numbers.
pub open spec fn line_numbers(lines: Seq<usize>) -> Seq<nat> {
    lines.map_values(|l: usize| l as nat)
}

impl View for Finding {
    type V = FindingView;

    open spec fn view(&self) -> FindingView {
        match self {
            Finding::AccountsStruct { name } => FindingView::AccountsStruct { name: name@ },
            Finding::ProgramModule { name } => FindingView::ProgramModule { name: name@ },
            Finding::ProgramFunction { name } => FindingView::ProgramFunction { name: name@ },
            Finding::MissingSigner { struct_name } => FindingView::MissingSigner {
                struct_name: struct_name@,
            },
            Finding::DuplicateAccountType {
                account_type,
                struct_name,
                lines,
            } => FindingView::DuplicateAccountType {
                account_type: account_type@,
                struct_name: struct_name@,
                lines: line_numbers(lines@),
            },
            Finding::RiskyReinit { field, struct_name } => FindingView::RiskyReinit {
                field: field@,
                struct_name: struct_name@,
            },
            Finding::CrossProgramCall { callee, function } => FindingView::CrossProgramCall {
                callee: callee@,
                function: function@,
            },
            Finding::MissingBump { function } => FindingView::MissingBump { function: function@ },
            Finding::UndeclaredMutBorrow {
                field,
                function,
                struct_name,
            } => FindingView::UndeclaredMutBorrow {
                field: field@,
                function: function@,
                struct_name: struct_name@,
            },
            Finding::UndeclaredMutation {
                field,
                function,
                struct_name,
            } => FindingView::UndeclaredMutation {
                field: field@,
                function: function@,
                struct_name: struct_name@,
            },
            Finding::RemainingAccounts { function } => FindingView::RemainingAccounts {
                function: function@,
            },
            Finding::ReallocMethod { account, function } => FindingView::ReallocMethod {
                account: account@,
                function: function@,
            },
            Finding::ReallocFunction { function } => FindingView::ReallocFunction {
                function: function@,
            },
            Finding::SeedCollision { prefix, structs, usages: sites } => FindingView::SeedCollision {
                prefix: prefix@,
                structs: texts(structs@),
                usages: usages(sites@),
            },
            Finding::ParseFailure { file, reason } => FindingView::ParseFailure {
                file: file@,
                reason: reason@,
            },
        }
    }
}

/// The severity that each kind of finding is reported with.
pub open spec fn severity_of(f: FindingView) -> Severity {
    match f {
        FindingView::AccountsStruct { .. } => Severity::Info,
        FindingView::ProgramModule { .. } => Severity::Info,
        FindingView::ProgramFunction { .. } => Severity::Info,
        FindingView::MissingSigner { .. } => Severity::Warning,
        FindingView::DuplicateAccountType { .. } => Severity::Error,
        FindingView::RiskyReinit { .. } => Severity::Warning,
        FindingView::CrossProgramCall { .. } => Severity::Warning,
        FindingView::MissingBump { .. } => Severity::Error,
        FindingView::UndeclaredMutBorrow { .. } => Severity::Error,
        FindingView::UndeclaredMutation { .. } => Severity::Error,
        FindingView::RemainingAccounts { .. } => Severity::Warning,
        FindingView::ReallocMethod { .. } => Severity::Warning,
        FindingView::ReallocFunction { .. } => Severity::Warning,
        FindingView::SeedCollision { .. } => Severity::Warning,
        FindingView::ParseFailure { .. } => Severity::Error,
    }
}

/// The decimal digit for a number below ten.
pub open spec fn digit(d: nat) -> char {
    if d == 0 {
        '0'
    } else if d == 1 {
        '1'
    } else if d == 2 {
        '2'
    } else if d == 3 {
        '3'
    } else if d == 4 {
        '4'
    } else if d == 5 {
        '5'
    } else if d == 6 {
        '6'
    } else if d == 7 {
        '7'
    } else if d == 8 {
        '8'
    } else {
        '9'
    }
}

/// The decimal numeral of `n`, without leading zeros.
pub open spec fn decimal(n: nat) -> Seq<char>
    decreases n,
{
    if n < 10 {
        seq![digit(n)]
    } else {
        decimal(n / 10).push(digit(n % 10))
    }
}

/// The texts of `parts` in order, with `sep` between neighbours.
pub open spec fn join(parts: Seq<Seq<char>>, sep: Seq<char>) -> Seq<char>
    decreases parts.len(),
{
    if parts.len() == 0 {
        Seq::empty()
    } else if parts.len() == 1 {
        parts[0]
    } else {
        join(parts.drop_last(), sep) + sep + parts.last()
    }
}

/// How one seed usage reads inside a collision message.
pub open spec fn usage_text(u: SeedUsageView) -> Seq<char> {
    u.struct_name + "::"@ + u.field_name + " ("@ + u.file + ":"@ + decimal(u.line) + ")"@
}

/// The sentence that states a finding.
pub open spec fn message_of(f: FindingView) -> Seq<char> {
    match f {
        FindingView::AccountsStruct { name } => "Found #[derive(Accounts)] struct: "@ + name,
        FindingView::ProgramModule { name } => "Found program : "@ + name,
        FindingView::ProgramFunction { name } => "Function inside program: "@ + name,
        FindingView::MissingSigner { struct_name } => "Struct `"@ + struct_name
            + "` is missing a `Signer` type on one or more accounts."@,
        FindingView::DuplicateAccountType { account_type, struct_name, lines } =>
            "Duplicate `Account<"@ + account_type + ">` fields in struct `"@ + struct_name
            + "` on lines "@ + join(lines.map_values(|l: nat| decimal(l)), ", "@)
            + ". Consider using a separate `#[derive(Accounts)]` struct. For more details, see: https://hackmd.io/@S3v3ru5/Byia-fQHJe"@,
        FindingView::RiskyReinit { field, struct_name } => "`init_if_needed` on `"@ + field
            + "` in struct `"@ + struct_name
            + "` may reinitialize an existing account. Use with caution!"@,
        FindingView::CrossProgramCall { callee, function } => "CPI `"@ + callee + "` in `"@
            + function + "`. Consider `.reload()?` on affected accounts."@,
        FindingView::MissingBump { function } => "`invoke_signed` in `"@ + function
            + "` is missing a bump in its signer seeds. Make sure each seed slice ends with the bump value."@,
        FindingView::UndeclaredMutBorrow { field, function, struct_name } => "`"@ + field
            + "` is mutably borrowed in `"@ + function + "` but not declared `mut` in `"@
            + struct_name + "`. Please add `#[account(mut)]` to `"@ + field + "`."@,
        FindingView::UndeclaredMutation { field, function, struct_name } => "`"@ + field
            + "` is mutated in `"@ + function + "` but not declared `mut` in `"@ + struct_name
            + "`. Please add `#[account(mut)]` to `"@ + field + "`."@,
        FindingView::RemainingAccounts { function } => "Usage of `ctx.remaining_accounts` in `"@
            + function + "`. Ensure you check length/order before indexing."@,
        FindingView::ReallocMethod { account, function } => "Call to `.realloc()` on `"@ + account
            + "` in `"@ + function
            + "`. Make sure to handle rent-exemption and re-serialization"@,
        FindingView::ReallocFunction { function } => "Free-function `realloc()` called in `"@
            + function + "`. Make sure to handle rent-exemption and re-serialization"@,
        FindingView::SeedCollision { prefix, structs, usages } => "Seed prefix `"@ + prefix
            + "` reused across structs ["@ + join(structs, ", "@) + "]: "@ + join(
            usages.map_values(|u: SeedUsageView| usage_text(u)),
            ", "@,
        ),
        FindingView::ParseFailure { file, reason } => "Failed to parse "@ + file + ": "@ + reason,
    }
}

/// The word that stands for a severity in a rendered diagnostic.
pub open spec fn severity_tag(s: Severity) -> Seq<char> {
    match s {
        Severity::Info => "INFO"@,
        Severity::Warning => "WARNING"@,
        Severity::Error => "ERROR"@,
    }
}

/// A finding, where it was made, and how it is reported.
#[derive(Debug, Clone, PartialEq, Eq)]
pub struct Diagnostic {
    pub severity: Severity,
    pub message: String,
    pub finding: Finding,
    pub file: String,
    pub line: usize,
}

/// The mathematical value of a [`Diagnostic`].
pub struct DiagnosticView {
    pub severity: Severity,
    pub message: Seq<char>,
    pub finding: FindingView,
    pub file: Seq<char>,
    pub line: nat,
}

impl View for Diagnostic {
    type V = DiagnosticView;

    open spec fn view(&self) -> DiagnosticView {
        DiagnosticView {
            severity: self.severity,
            message: self.message@,
            finding: self.finding@,
            file: self.file@,
            line: self.line as nat,
        }
    }
}

/// The diagnostic that reports `finding` at `file:line`.
pub open spec fn diagnostic(finding: FindingView, file: Seq<char>, line: nat) -> DiagnosticView {
    DiagnosticView {
        severity: severity_of(finding),
        message: message_of(finding),
        finding,
        file,
        line,
    }
}

/// The views of a sequence of diagnostics.
pub open spec fn report(ds: Seq<Diagnostic>) -> Seq<DiagnosticView> {
    ds.map_values(|d: Diagnostic| d@)
}

/// A diagnostic as one line of text behind the tag `tag`:
/// `tag message (file:line)`.
pub open spec fn rendered_with(d: DiagnosticView, tag: Seq<char>) -> Seq<char> {
    tag + " "@ + d.message + " ("@ + d.file + ":"@ + decimal(d.line) + ")"@
}

/// A diagnostic as one line of text: `[SEVERITY] message (file:line)`.
pub open spec fn rendered(d: DiagnosticView) -> Seq<char> {
    rendered_with(d, "["@ + severity_tag(d.severity) + "]"@)
}

fn digit_text(d: usize) -> (s: &'static str)
    requires
        d < 10,
    ensures
        s@ == seq![digit(d as nat)],
{
    proof {
        reveal_strlit("0");
        reveal_strlit("1");
        reveal_strlit("2");
        reveal_strlit("3");
        reveal_strlit("4");
        reveal_strlit("5");
        reveal_strlit("6");
        reveal_strlit("7");
        reveal_strlit("8");
        reveal_strlit("9");
    }
    let s = if d == 0 {
        "0"
    } else if d == 1 {
        "1"
    } else if d == 2 {
        "2"
    } else if d == 3 {
        "3"
    } else if d == 4 {
        "4"
    } else if d == 5 {
        "5"
    } else if d == 6 {
        "6"
    } else if d == 7 {
        "7"
    } else if d == 8 {
        "8"
    } else {
        "9"
    };
    assert(s@ =~= seq![digit(d as nat)]);
    s
}

/// The decimal numeral of `n`.
pub fn decimal_text(n: usize) -> (s: String)
    ensures
        s@ == decimal(n as nat),
    decreases n,
{
    if n < 10 {
        String::from_str(digit_text(n))
    } else {
        let mut s = decimal_text(n / 10);
        s.append(digit_text(n % 10));
        assert(s@ =~= decimal(n as nat / 10).push(digit(n as nat % 10)));
        s
    }
}

/// Joins `parts` with `sep` between neighbours.
pub fn join_texts(parts: &Vec<String>, sep: &str) -> (s: String)
    ensures
        s@ == join(texts(parts@), sep@),
{
    let mut s = String::new();
    let mut i: usize = 0;
    while i < parts.len()
        invariant
            i <= parts.len(),
            s@ == join(texts(parts@).take(i as int), sep@),
        decreases parts.len() - i,
    {
        let ghost next = texts(parts@).take(i as int + 1);
        assert(next.drop_last() == texts(parts@).take(i as int));
        assert(next.last() == parts@[i as int]@);
        if i > 0 {
            s.append(sep);
        }
        s.append(parts[i].as_str());
        assert(s@ =~= join(next, sep@));
        i += 1;
    }
    assert(texts(parts@).take(i as int) == texts(parts@));
    s
}

fn line_texts(lines: &Vec<usize>) -> (parts: Vec<String>)
    ensures
        texts(parts@) == line_numbers(lines@).map_values(|l: nat| decimal(l)),
{
    let mut parts: Vec<String> = Vec::new();
    let mut i: usize = 0;
    while i < lines.len()
        invariant
            i <= lines.len(),
            parts.len() == i,
            forall|k: int| 0 <= k < i ==> parts@[k]@ == decimal(lines@[k] as nat),
        decreases lines.len() - i,
    {
        parts.push(decimal_text(lines[i]));
        i += 1;
    }
    assert(texts(parts@) =~= line_numbers(lines@).map_values(|l: nat| decimal(l)));
    parts
}

fn usage_line(u: &GlobalSeedUsage) -> (s: String)
    ensures
        s@ == usage_text(u@),
{
    let mut s = String::new();
    s.append(u.struct_name.as_str());
    s.append("::");
    s.append(u.field_name.as_str());
    s.append(" (");
    s.append(u.file.as_str());
    s.append(":");
    s.append(decimal_text(u.line).as_str());
    s.append(")");
    assert(s@ =~= usage_text(u@));
    s
}

fn usage_lines(sites: &Vec<GlobalSeedUsage>) -> (parts: Vec<String>)
    ensures
        texts(parts@) == usages(sites@).map_values(|u: SeedUsageView| usage_text(u)),
{
    let mut parts: Vec<String> = Vec::new();
    let mut i: usize = 0;
    while i < sites.len()
        invariant
            i <= sites.len(),
            parts.len() == i,
            forall|k: int| 0 <= k < i ==> parts@[k]@ == usage_text(sites@[k]@),
        decreases sites.len() - i,
    {
        parts.push(usage_line(&sites[i]));
        i += 1;
    }
    assert(texts(parts@) =~= usages(sites@).map_values(|u: SeedUsageView| usage_text(u)));
    parts
}

fn phrase2(a: &str, x: &str) -> (s: String)
    ensures
        s@ == a@ + x@,
{
    let mut s = String::from_str(a);
    s.append(x);
    s
}

fn phrase3(a: &str, x: &str, b: &str) -> (s: String)
    ensures
        s@ == a@ + x@ + b@,
{
    let mut s = phrase2(a, x);
    s.append(b);
    s
}

fn phrase5(a: &str, x: &str, b: &str, y: &str, c: &str) -> (s: String)
    ensures
        s@ == a@ + x@ + b@ + y@ + c@,
{
    let mut s = phrase3(a, x, b);
    s.append(y);
    s.append(c);
    s
}

fn phrase7(a: &str, x: &str, b: &str, y: &str, c: &str, z: &str, d: &str) -> (s: String)
    ensures
        s@ == a@ + x@ + b@ + y@ + c@ + z@ + d@,
{
    let mut s = phrase5(a, x, b, y, c);
    s.append(z);
    s.append(d);
    s
}

impl Severity {
    /// The word that stands for this severity in a rendered diagnostic.
    pub fn tag(&self) -> (s: &'static str)
        ensures
            s@ == severity_tag(*self),
    {
        match self {
            Severity::Info => "INFO",
            Severity::Warning => "WARNING",
            Severity::Error => "ERROR",
        }
    }
}

impl Finding {
    /// The severity that this finding is reported with.
    pub fn severity(&self) -> (s: Severity)
        ensures
            s == severity_of(self@),
    {
        match self {
            Finding::AccountsStruct { .. } => Severity::Info,
            Finding::ProgramModule { .. } => Severity::Info,
            Finding::ProgramFunction { .. } => Severity::Info,
            Finding::MissingSigner { .. } => Severity::Warning,
            Finding::DuplicateAccountType { .. } => Severity::Error,
            Finding::RiskyReinit { .. } => Severity::Warning,
            Finding::CrossProgramCall { .. } => Severity::Warning,
            Finding::MissingBump { .. } => Severity::Error,
            Finding::UndeclaredMutBorrow { .. } => Severity::Error,
            Finding::UndeclaredMutation { .. } => Severity::Error,
            Finding::RemainingAccounts { .. } => Severity::Warning,
            Finding::ReallocMethod { .. } => Severity::Warning,
            Finding::ReallocFunction { .. } => Severity::Warning,
            Finding::SeedCollision { .. } => Severity::Warning,
            Finding::ParseFailure { .. } => Severity::Error,
        }
    }

    /// The sentence that states this finding.
    pub fn message(&self) -> (s: String)
        ensures
            s@ == message_of(self@),
    {
        match self {
            Finding::AccountsStruct { name } => phrase2(
                "Found #[derive(Accounts)] struct: ",
                name.as_str(),
            ),
            Finding::ProgramModule { name } => phrase2("Found program : ", name.as_str()),
            Finding::ProgramFunction { name } => phrase2("Function inside program: ", name.as_str()),
            Finding::MissingSigner { struct_name } => phrase3(
                "Struct `",
                struct_name.as_str(),
                "` is missing a `Signer` type on one or more accounts.",
            ),
            Finding::DuplicateAccountType { account_type, struct_name, lines } => {
                let parts = line_texts(lines);
                let listed = join_texts(&parts, ", ");
                phrase7(
                    "Duplicate `Account<",
                    account_type.as_str(),
                    ">` fields in struct `",
                    struct_name.as_str(),
                    "` on lines ",
                    listed.as_str(),
                    ". Consider using a separate `#[derive(Accounts)]` struct. For more details, see: https://hackmd.io/@S3v3ru5/Byia-fQHJe",
                )
            },
            Finding::RiskyReinit { field, struct_name } => phrase5(
                "`init_if_needed` on `",
                field.as_str(),
                "` in struct `",
                struct_name.as_str(),
                "` may reinitialize an existing account. Use with caution!",
            ),
            Finding::CrossProgramCall { callee, function } => phrase5(
                "CPI `",
                callee.as_str(),
                "` in `",
                function.as_str(),
                "`. Consider `.reload()?` on affected accounts.",
            ),
            Finding::MissingBump { function } => phrase3(
                "`invoke_signed` in `",
                function.as_str(),
                "` is missing a bump in its signer seeds. Make sure each seed slice ends with the bump value.",
            ),
            Finding::UndeclaredMutBorrow { field, function, struct_name } => {
                let mut s = phrase7(
                    "`",
                    field.as_str(),
                    "` is mutably borrowed in `",
                    function.as_str(),
                    "` but not declared `mut` in `",
                    struct_name.as_str(),
                    "`. Please add `#[account(mut)]` to `",
                );
                s.append(field.as_str());
                s.append("`.");
                s
            },
            Finding::UndeclaredMutation { field, function, struct_name } => {
                let mut s = phrase7(
                    "`",
                    field.as_str(),
                    "` is mutated in `",
                    function.as_str(),
                    "` but not declared `mut` in `",
                    struct_name.as_str(),
                    "`. Please add `#[account(mut)]` to `",
                );
                s.append(field.as_str());
                s.append("`.");
                s
            },
            Finding::RemainingAccounts { function } => phrase3(
                "Usage of `ctx.remaining_accounts` in `",
                function.as_str(),
                "`. Ensure you check length/order before indexing.",
            ),
            Finding::ReallocMethod { account, function } => phrase5(
                "Call to `.realloc()` on `",
                account.as_str(),
                "` in `",
                function.as_str(),
                "`. Make sure to handle rent-exemption and re-serialization",
            ),
            Finding::ReallocFunction { function } => phrase3(
                "Free-function `realloc()` called in `",
                function.as_str(),
                "`. Make sure to handle rent-exemption and re-serialization",
            ),
            Finding::SeedCollision { prefix, structs, usages: sites } => {
                let names = join_texts(structs, ", ");
                let parts = usage_lines(sites);
                let details = join_texts(&parts, ", ");
                let mut s = phrase5(
                    "Seed prefix `",
                    prefix.as_str(),
                    "` reused across structs [",
                    names.as_str(),
                    "]: ",
                );
                s.append(details.as_str());
                s
            },
            Finding::ParseFailure { file, reason } => {
                let mut s = phrase3("Failed to parse ", file.as_str(), ": ");
                s.append(reason.as_str());
                s
            },
        }
    }
}

impl Diagnostic {
    /// The diagnostic that reports `finding` at `file:line`.
    pub fn new(finding: Finding, file: &str, line: usize) -> (d: Diagnostic)
        ensures
            d@ == diagnostic(finding@, file@, line as nat),
            d.wf(),
    {
        let severity = finding.severity();
        let message = finding.message();
        Diagnostic { severity, message, finding, file: String::from_str(file), line }
    }

    /// Severity and message are those that the finding calls for.
    pub open spec fn wf(&self) -> bool {
        self.severity == severity_of(self.finding@) && self.message@ == message_of(self.finding@)
    }

    /// This diagnostic as one line of text behind a tag of the caller's
    /// choice, such as the severity in colour.
    pub fn render_with(&self, tag: &str) -> (s: String)
        ensures
            s@ == rendered_with(self@, tag@),
    {
        let mut s = phrase7(
            tag,
            " ",
            self.message.as_str(),
            " (",
            self.file.as_str(),
            ":",
            decimal_text(self.line).as_str(),
        );
        s.append(")");
        s
    }

    /// This diagnostic as one line of text.
    pub fn render(&self) -> (s: String)
        ensures
            s@ == rendered(self@),
    {
        let tag = phrase3("[", self.severity.tag(), "]");
        self.render_with(tag.as_str())
    }
}

/// The views of two lists of diagnostics, one after the other, are the views
/// of the joined list.
pub proof fn lemma_report_add(a: Seq<Diagnostic>, b: Seq<Diagnostic>)
    ensures
        report(a + b) == report(a) + report(b),
{
    assert(report(a + b) =~= report(a) + report(b));
}

/// Moves the diagnostics of `more` to the end of `out`.
pub fn append_all(out: &mut Vec<Diagnostic>, more: Vec<Diagnostic>)
    ensures
        report(final(out)@) == report(old(out)@) + report(more@),
{
    let ghost added = more@;
    let mut more = more;
    out.append(&mut more);
    proof {
        lemma_report_add(old(out)@, added);
    }
}

} // verus!
