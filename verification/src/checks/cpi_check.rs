//! Calls into other programs, and signed calls whose signer seeds lack a
//! bump.

use crate::diagnostic::{diagnostic, report, Diagnostic, DiagnosticView, Finding, FindingView};
use crate::syntax::{Expr, ExprKind, FnItem};
use crate::text::text_is;
use crate::collect::{
    count_where, lemma_count_where_none, lemma_count_where_some, lemma_flat_map_same,
};
use crate::walker::{gathered, run, visited_stmts, Detector};
use vstd::prelude::*;

verus! {

/// The names under which a program calls into another program: direct and
/// signed invocation, and the token program's transfer, mint and burn.
pub open spec fn is_cpi_name(name: Seq<char>) -> bool {
    ||| name == "invoke"@
    ||| name == "invoke_signed"@
    ||| name == "transfer"@
    ||| name == "mint_to"@
    ||| name == "burn"@
}

/// The elements of the array that `e` writes, with or without a leading `&`.
pub open spec fn array_elems(e: Expr) -> Option<Seq<Expr>> {
    match e.kind {
        ExprKind::Array { elems } => Some(elems@),
        ExprKind::Reference { target, .. } => match target.kind {
            ExprKind::Array { elems } => Some(elems@),
            _ => None,
        },
        _ => None,
    }
}

/// `slice` is an array of fewer than two elements, so it cannot end in a
/// bump after a seed.
pub open spec fn lacks_bump(slice: Expr) -> bool {
    match array_elems(slice) {
        Some(elems) => elems.len() < 2,
        None => false,
    }
}

/// How many of the seed slices in `outer` lack a bump.
pub open spec fn short_slices(outer: Seq<Expr>) -> nat {
    count_where(outer, |slice: Expr| lacks_bump(slice))
}

/// How many seed slices without a bump the call `func(args)` holds: those of
/// its third argument if it is a signed invocation and that argument is an
/// array, none otherwise.
pub open spec fn missing_bumps(func: Expr, args: Seq<Expr>) -> nat {
    match func.kind {
        ExprKind::Path { path, .. } => {
            if path.last_name() == Some("invoke_signed"@) && args.len() >= 3 {
                match array_elems(args[2]) {
                    Some(outer) => short_slices(outer),
                    None => 0,
                }
            } else {
                0
            }
        },
        _ => 0,
    }
}

/// The warning for a call of the function `func`, if its name is that of a
/// call into another program.
pub open spec fn call_warning(func: Expr, function: Seq<char>, file: Seq<char>) -> Seq<
    DiagnosticView,
> {
    match func.kind {
        ExprKind::Path { path, name_line } => match path.last_name() {
            Some(name) => if is_cpi_name(name) {
                seq![
                    diagnostic(
                        FindingView::CrossProgramCall { callee: name, function },
                        file,
                        name_line as nat,
                    ),
                ]
            } else {
                Seq::empty()
            },
            None => Seq::empty(),
        },
        _ => Seq::empty(),
    }
}

/// The errors for the call `func(args)`: one for each of its seed slices
/// that lacks a bump, each on the line on which the call starts.
pub open spec fn bump_errors(func: Expr, args: Seq<Expr>, function: Seq<char>, file: Seq<char>) -> Seq<
    DiagnosticView,
> {
    Seq::new(
        missing_bumps(func, args),
        |i: int| diagnostic(FindingView::MissingBump { function }, file, func.line as nat),
    )
}

/// What the detector raises at the expression `e` inside the function
/// `function` of the file `file`.
pub open spec fn cpi_at(e: Expr, function: Seq<char>, file: Seq<char>) -> Seq<DiagnosticView> {
    match e.kind {
        ExprKind::Call { func, args } => call_warning(*func, function, file) + bump_errors(
            *func,
            args@,
            function,
            file,
        ),
        ExprKind::MethodCall { method, method_line, .. } => if is_cpi_name(method@) {
            seq![
                diagnostic(
                    FindingView::CrossProgramCall { callee: method@, function },
                    file,
                    method_line as nat,
                ),
            ]
        } else {
            Seq::empty()
        },
        _ => Seq::empty(),
    }
}

/// What the detector raises in the function `func` of the file `file`: what
/// it raises at each expression that the walk of the body reaches.
pub open spec fn cpi_findings(func: FnItem, file: Seq<char>) -> Seq<DiagnosticView> {
    gathered(visited_stmts(func.body@), |e: Expr| cpi_at(e, func.name@, file))
}

/// Whether `name` is the name of a call into another program.
pub fn is_known_cpi(name: &String) -> (b: bool)
    ensures
        b == is_cpi_name(name@),
{
    text_is(name, "invoke") || text_is(name, "invoke_signed") || text_is(name, "transfer")
        || text_is(name, "mint_to") || text_is(name, "burn")
}

fn array_of(e: &Expr) -> (r: Option<&Vec<Expr>>)
    ensures
        match r {
            Some(v) => array_elems(*e) == Some(v@),
            None => array_elems(*e) is None,
        },
{
    match &e.kind {
        ExprKind::Array { elems } => Some(elems),
        ExprKind::Reference { target, .. } => match &target.kind {
            ExprKind::Array { elems } => Some(elems),
            _ => None,
        },
        _ => None,
    }
}

/// Counts the seed slices without a bump in the call `func(args)`: the
/// elements of its third argument that are arrays of fewer than two
/// elements, if the call is a signed invocation.
#[verifier::loop_isolation(false)]
pub fn detect_invoke_signed_bump(func: &Expr, args: &Vec<Expr>) -> (n: usize)
    ensures
        n == missing_bumps(*func, args@),
{
    match &func.kind {
        ExprKind::Path { path, .. } => {
            match path.last_ident() {
                Some(name) => {
                    if !text_is(name, "invoke_signed") {
                        return 0;
                    }
                },
                None => {
                    return 0;
                },
            }
        },
        _ => {
            return 0;
        },
    }
    if args.len() < 3 {
        return 0;
    }
    match array_of(&args[2]) {
        Some(outer) => {
            let ghost short = |slice: Expr| lacks_bump(slice);
            let mut n: usize = 0;
            let mut i: usize = 0;
            while i < outer.len()
                invariant
                    i <= outer.len(),
                    n <= i,
                    n == count_where(outer@.take(i as int), short),
                decreases outer.len() - i,
            {
                assert(outer@.take(i as int + 1).drop_last() == outer@.take(i as int));
                assert(outer@.take(i as int + 1).last() == outer@[i as int]);
                match array_of(&outer[i]) {
                    Some(inner) => {
                        if inner.len() < 2 {
                            n += 1;
                        }
                    },
                    None => {},
                }
                i += 1;
            }
            assert(outer@.take(i as int) == outer@);
            n
        },
        None => 0,
    }
}

/// Looks for calls into other programs at single expressions.
pub struct CpiDetector {
    /// The function that is being walked.
    pub function: String,
    /// The file that holds it.
    pub file: String,
}

impl Detector for CpiDetector {
    open spec fn raised_at(&self, e: Expr) -> Seq<DiagnosticView> {
        cpi_at(e, self.function@, self.file@)
    }

    #[verifier::loop_isolation(false)]
    fn inspect(&self, e: &Expr, out: &mut Vec<Diagnostic>) {
        proof {
            assert(report(out@) + Seq::<DiagnosticView>::empty() =~= report(out@));
        }
        match &e.kind {
            ExprKind::Call { func, args } => {
                let ghost start = report(out@);
                match &func.kind {
                    ExprKind::Path { path, name_line } => {
                        match path.last_ident() {
                            Some(name) => {
                                if is_known_cpi(name) {
                                    out.push(
                                        Diagnostic::new(
                                            Finding::CrossProgramCall {
                                                callee: name.clone(),
                                                function: self.function.clone(),
                                            },
                                            self.file.as_str(),
                                            *name_line,
                                        ),
                                    );
                                }
                            },
                            None => {},
                        }
                    },
                    _ => {},
                }
                assert(report(out@) =~= start + call_warning(**func, self.function@, self.file@));
                let ghost warned = report(out@);
                let ghost error = diagnostic(
                    FindingView::MissingBump { function: self.function@ },
                    self.file@,
                    func.line as nat,
                );
                let short = detect_invoke_signed_bump(func, args);
                let mut k: usize = 0;
                assert(report(out@) =~= warned + Seq::new(0, |i: int| error));
                while k < short
                    invariant
                        k <= short,
                        report(out@) == warned + Seq::new(k as nat, |i: int| error),
                    decreases short - k,
                {
                    let ghost before = report(out@);
                    out.push(
                        Diagnostic::new(
                            Finding::MissingBump { function: self.function.clone() },
                            self.file.as_str(),
                            func.line,
                        ),
                    );
                    assert(report(out@) =~= before.push(error));
                    assert(before.push(error) =~= warned + Seq::new((k + 1) as nat, |i: int| error));
                    k += 1;
                }
                assert(report(out@) =~= start + cpi_at(*e, self.function@, self.file@));
            },
            ExprKind::MethodCall { method, method_line, .. } => {
                if is_known_cpi(method) {
                    let ghost start = report(out@);
                    out.push(
                        Diagnostic::new(
                            Finding::CrossProgramCall {
                                callee: method.clone(),
                                function: self.function.clone(),
                            },
                            self.file.as_str(),
                            *method_line,
                        ),
                    );
                    assert(report(out@) =~= start + cpi_at(*e, self.function@, self.file@));
                }
            },
            _ => {},
        }
    }
}

/// Reports every call into another program in the body of `func`, and every
/// signed invocation there whose signer seeds lack a bump, in the order of the
/// source.
pub fn detect_cpi_in_fn(func: &FnItem, filename: &str) -> (out: Vec<Diagnostic>)
    ensures
        report(out@) == cpi_findings(*func, filename@),
{
    let d = CpiDetector { function: func.name.clone(), file: String::from_str(filename) };
    let out = run(&d, &func.body);
    proof {
        lemma_flat_map_same(
            visited_stmts(func.body@),
            |e: Expr| d.raised_at(e),
            |e: Expr| cpi_at(e, func.name@, filename@),
        );
    }
    out
}

/// The call `func(args)` is a signed invocation whose third argument is the
/// array `outer`, written with or without a leading `&`.
pub open spec fn signs_with(func: Expr, args: Seq<Expr>, outer: Seq<Expr>) -> bool {
    &&& func.kind is Path
    &&& func.kind->Path_path.last_name() == Some("invoke_signed"@)
    &&& args.len() >= 3
    &&& array_elems(args[2]) == Some(outer)
}

/// A signed invocation raises one missing-bump error for each of its seed
/// slices that is an array of fewer than two elements, and no other. Each
/// stands on the line on which the call starts.
pub proof fn lemma_one_error_per_short_slice(
    func: Expr,
    args: Seq<Expr>,
    outer: Seq<Expr>,
    function: Seq<char>,
    file: Seq<char>,
)
    requires
        signs_with(func, args, outer),
    ensures
        bump_errors(func, args, function, file).len() == count_where(
            outer,
            |slice: Expr| lacks_bump(slice),
        ),
        forall|k: int|
            0 <= k < bump_errors(func, args, function, file).len() ==> #[trigger] bump_errors(
                func,
                args,
                function,
                file,
            )[k] == diagnostic(FindingView::MissingBump { function }, file, func.line as nat),
{
}

/// A signed invocation with a seed slice of fewer than two elements raises
/// at least one missing-bump error.
pub proof fn lemma_short_slice_raises_error(
    func: Expr,
    args: Seq<Expr>,
    outer: Seq<Expr>,
    i: int,
    function: Seq<char>,
    file: Seq<char>,
)
    requires
        signs_with(func, args, outer),
        0 <= i < outer.len(),
        array_elems(outer[i]) is Some,
        array_elems(outer[i]).unwrap().len() < 2,
    ensures
        bump_errors(func, args, function, file).len() >= 1,
{
    assert(lacks_bump(outer[i]));
    lemma_count_where_some(outer, |slice: Expr| lacks_bump(slice), i);
}

/// A signed invocation all of whose seed slices have two elements or more
/// raises no missing-bump error.
pub proof fn lemma_long_slices_raise_nothing(
    func: Expr,
    args: Seq<Expr>,
    outer: Seq<Expr>,
    function: Seq<char>,
    file: Seq<char>,
)
    requires
        signs_with(func, args, outer),
        forall|i: int|
            0 <= i < outer.len() && array_elems(#[trigger] outer[i]) is Some ==> array_elems(
                outer[i],
            ).unwrap().len() >= 2,
    ensures
        bump_errors(func, args, function, file) == Seq::<DiagnosticView>::empty(),
{
    let short = |slice: Expr| lacks_bump(slice);
    assert forall|i: int| 0 <= i < outer.len() implies !short(#[trigger] outer[i]) by {
        assert(array_elems(outer[i]) is Some ==> array_elems(outer[i]).unwrap().len() >= 2);
    }
    lemma_count_where_none(outer, short);
    assert(bump_errors(func, args, function, file) =~= Seq::<DiagnosticView>::empty());
}

/// A leading `&` changes nothing: a reference to an array is read as the
/// array itself, as a seed slice and as the list of seed slices.
pub proof fn lemma_reference_marker_is_ignored(array: Expr, reference: Expr)
    requires
        array.kind is Array,
        reference.kind is Reference,
        *reference.kind->Reference_target == array,
    ensures
        array_elems(reference) == array_elems(array),
        lacks_bump(reference) == lacks_bump(array),
{
}

} // verus!
