//! Calls that change the size of an account's buffer.

use crate::diagnostic::{diagnostic, report, Diagnostic, DiagnosticView, Finding, FindingView};
use crate::syntax::{Expr, ExprKind, FnItem, Member};
use crate::text::text_is;
use crate::collect::lemma_flat_map_same;
use crate::walker::{gathered, run, visited_stmts, Detector};
use vstd::prelude::*;

verus! {

/// How the receiver of a `realloc` call is named in the warning: by its
/// member name if it is a field access, by a placeholder otherwise.
pub open spec fn receiver_name(receiver: Expr) -> Seq<char> {
    match receiver.kind {
        ExprKind::Field { member: Member::Named(name), .. } => name@,
        ExprKind::Field { member: Member::Unnamed, .. } => "<unknown>"@,
        _ => "<expr>"@,
    }
}

/// What the detector raises at the expression `e` inside the function
/// `function` of the file `file`.
pub open spec fn realloc_at(e: Expr, function: Seq<char>, file: Seq<char>) -> Seq<DiagnosticView> {
    match e.kind {
        ExprKind::MethodCall { receiver, method, method_line, .. } => if method@ == "realloc"@ {
            seq![
                diagnostic(
                    FindingView::ReallocMethod { account: receiver_name(*receiver), function },
                    file,
                    method_line as nat,
                ),
            ]
        } else {
            Seq::empty()
        },
        ExprKind::Call { func, .. } => match func.kind {
            ExprKind::Path { path, name_line } => if path.last_name() == Some("realloc"@) {
                seq![diagnostic(FindingView::ReallocFunction { function }, file, name_line as nat)]
            } else {
                Seq::empty()
            },
            _ => Seq::empty(),
        },
        _ => Seq::empty(),
    }
}

/// What the detector raises in the function `func` of the file `file`.
pub open spec fn realloc_findings(func: FnItem, file: Seq<char>) -> Seq<DiagnosticView> {
    gathered(visited_stmts(func.body@), |e: Expr| realloc_at(e, func.name@, file))
}

fn name_receiver(receiver: &Expr) -> (name: String)
    ensures
        name@ == receiver_name(*receiver),
{
    match &receiver.kind {
        ExprKind::Field { member, .. } => match member {
            Member::Named(name) => name.clone(),
            Member::Unnamed => String::from_str("<unknown>"),
        },
        _ => String::from_str("<expr>"),
    }
}

/// Looks for calls of `realloc` at single expressions.
pub struct ReallocDetector {
    /// The function that is being walked.
    pub function: String,
    /// The file that holds it.
    pub file: String,
}

impl Detector for ReallocDetector {
    open spec fn raised_at(&self, e: Expr) -> Seq<DiagnosticView> {
        realloc_at(e, self.function@, self.file@)
    }

    fn inspect(&self, e: &Expr, out: &mut Vec<Diagnostic>) {
        let ghost start = report(out@);
        proof {
            assert(start + Seq::<DiagnosticView>::empty() =~= start);
        }
        match &e.kind {
            ExprKind::MethodCall { receiver, method, method_line, .. } => {
                if text_is(method, "realloc") {
                    out.push(
                        Diagnostic::new(
                            Finding::ReallocMethod {
                                account: name_receiver(receiver),
                                function: self.function.clone(),
                            },
                            self.file.as_str(),
                            *method_line,
                        ),
                    );
                    assert(report(out@) =~= start + self.raised_at(*e));
                }
            },
            ExprKind::Call { func, .. } => {
                match &func.kind {
                    ExprKind::Path { path, name_line } => {
                        match path.last_ident() {
                            Some(name) => {
                                if text_is(name, "realloc") {
                                    out.push(
                                        Diagnostic::new(
                                            Finding::ReallocFunction {
                                                function: self.function.clone(),
                                            },
                                            self.file.as_str(),
                                            *name_line,
                                        ),
                                    );
                                    assert(report(out@) =~= start + self.raised_at(*e));
                                }
                            },
                            None => {},
                        }
                    },
                    _ => {},
                }
            },
            _ => {},
        }
    }
}

/// Reports every call of a method or free function `realloc` in the body of
/// `func`, in the order of the source.
pub fn check_realloc_usage(func: &FnItem, file: &str) -> (out: Vec<Diagnostic>)
    ensures
        report(out@) == realloc_findings(*func, file@),
{
    let d = ReallocDetector { function: func.name.clone(), file: String::from_str(file) };
    let out = run(&d, &func.body);
    proof {
        lemma_flat_map_same(
            visited_stmts(func.body@),
            |e: Expr| d.raised_at(e),
            |e: Expr| realloc_at(e, func.name@, file@),
        );
    }
    out
}

} // verus!
