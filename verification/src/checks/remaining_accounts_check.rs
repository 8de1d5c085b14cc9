//! Reads of the context's unchecked list of remaining accounts.

use crate::diagnostic::{diagnostic, report, Diagnostic, DiagnosticView, Finding, FindingView};
use crate::syntax::{Expr, ExprKind, FnItem, Member};
use crate::text::text_is;
use crate::collect::lemma_flat_map_same;
use crate::walker::{gathered, run, visited_stmts, Detector};
use vstd::prelude::*;

verus! {

/// The line of the member, if `e` is `ctx.remaining_accounts`.
pub open spec fn remaining_accounts_read(e: Expr) -> Option<nat> {
    match e.kind {
        ExprKind::Field { base, member: Member::Named(name), member_line } => match base.kind {
            ExprKind::Path { path, .. } => if name@ == "remaining_accounts"@ && path.names("ctx"@) {
                Some(member_line as nat)
            } else {
                None
            },
            _ => None,
        },
        _ => None,
    }
}

/// What the detector raises at the expression `e` inside the function
/// `function` of the file `file`.
pub open spec fn remaining_accounts_at(e: Expr, function: Seq<char>, file: Seq<char>) -> Seq<
    DiagnosticView,
> {
    match remaining_accounts_read(e) {
        Some(line) => seq![diagnostic(FindingView::RemainingAccounts { function }, file, line)],
        None => Seq::empty(),
    }
}

/// What the detector raises in the function `func` of the file `file`.
pub open spec fn remaining_accounts_findings(func: FnItem, file: Seq<char>) -> Seq<DiagnosticView> {
    gathered(visited_stmts(func.body@), |e: Expr| remaining_accounts_at(e, func.name@, file))
}

/// The warning about a read of the remaining accounts in `fn_name`.
pub fn warn(file: &str, fn_name: &String, line: usize) -> (d: Diagnostic)
    ensures
        d@ == diagnostic(
            FindingView::RemainingAccounts { function: fn_name@ },
            file@,
            line as nat,
        ),
{
    Diagnostic::new(Finding::RemainingAccounts { function: fn_name.clone() }, file, line)
}

/// Looks for reads of the remaining accounts at single expressions.
pub struct RemainingAccountsDetector {
    /// The function that is being walked.
    pub function: String,
    /// The file that holds it.
    pub file: String,
}

impl Detector for RemainingAccountsDetector {
    open spec fn raised_at(&self, e: Expr) -> Seq<DiagnosticView> {
        remaining_accounts_at(e, self.function@, self.file@)
    }

    fn inspect(&self, e: &Expr, out: &mut Vec<Diagnostic>) {
        let ghost start = report(out@);
        proof {
            assert(start + Seq::<DiagnosticView>::empty() =~= start);
        }
        match &e.kind {
            ExprKind::Field { base, member, member_line } => {
                match member {
                    Member::Named(name) => {
                        match &base.kind {
                            ExprKind::Path { path, .. } => {
                                if text_is(name, "remaining_accounts") && path.is_ident("ctx") {
                                    out.push(warn(self.file.as_str(), &self.function, *member_line));
                                    assert(report(out@) =~= start + self.raised_at(*e));
                                }
                            },
                            _ => {},
                        }
                    },
                    Member::Unnamed => {},
                }
            },
            _ => {},
        }
    }
}

/// Reports every read of `ctx.remaining_accounts` in the body of `func`, in
/// the order of the source.
pub fn check_remaining_accounts_usage(func: &FnItem, file: &str) -> (out: Vec<Diagnostic>)
    ensures
        report(out@) == remaining_accounts_findings(*func, file@),
{
    let d = RemainingAccountsDetector {
        function: func.name.clone(),
        file: String::from_str(file),
    };
    let out = run(&d, &func.body);
    proof {
        lemma_flat_map_same(
            visited_stmts(func.body@),
            |e: Expr| d.raised_at(e),
            |e: Expr| remaining_accounts_at(e, func.name@, file@),
        );
    }
    out
}

} // verus!
