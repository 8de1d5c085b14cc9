//! Mutable borrows of, and assignments through, accounts that the bound
//! struct does not declare mutable.

use crate::diagnostic::{diagnostic, report, Diagnostic, DiagnosticView, Finding, FindingView};
use crate::symbols::{name_set, sets_of, FieldSets, SymbolTable};
use crate::syntax::{Attribute, Expr, ExprKind, FnItem, GenericArg, Member, Param, Type};
use crate::text::{contains_text, text_is};
use crate::classifier::constraints;
use crate::collect::{
    count_where, lemma_flat_map_counts, lemma_flat_map_origin, lemma_flat_map_same,
};
use crate::walker::{gathered, run, visited_stmts, Detector};
use vstd::prelude::*;

verus! {

/// The constraints of the attribute declare the field mutable: the
/// attribute is `#[account(..)]` and lists `mut`.
pub open spec fn declares_mut(attr: Attribute) -> bool {
    match constraints(attr) {
        Some(c) => c.mutable,
        None => false,
    }
}

/// Whether the attribute is `#[account(..)]` and lists `mut`.
pub fn attr_contains_mut(attr: &Attribute) -> (b: bool)
    ensures
        b == declares_mut(*attr),
        b == (attr.path.names("account"@) && attr.lists("mut"@)),
{
    attr.path.is_ident("account") && attr.has_meta("mut")
}

/// The first of the arguments that is a type; lifetimes and other arguments
/// before it are passed over.
pub open spec fn first_type(args: Seq<GenericArg>) -> Option<Type>
    decreases args.len(),
{
    if args.len() == 0 {
        None
    } else {
        match args[0] {
            GenericArg::Type(ty) => Some(ty),
            GenericArg::Other => first_type(args.drop_first()),
        }
    }
}

/// The struct that a parameter of type `Context<.., T>` binds: the last name
/// of `T`, where `T` is the type argument of `Context`, that is the first
/// argument between the angle brackets that is a type, and is a type path.
pub open spec fn context_struct(ty: Type) -> Option<Seq<char>> {
    match ty {
        Type::Path(segments) => {
            if segments@.len() > 0 && segments@.last().ident@ == "Context"@ {
                match first_type(segments@.last().generics@) {
                    Some(Type::Path(inner)) => if inner@.len() > 0 {
                        Some(inner@.last().ident@)
                    } else {
                        None
                    },
                    _ => None,
                }
            } else {
                None
            }
        },
        _ => None,
    }
}

/// The struct that the first parameter of the shape `Context<T>` binds; the
/// empty name if no parameter has that shape.
pub open spec fn bound_struct(params: Seq<Param>) -> Seq<char>
    decreases params.len(),
{
    if params.len() == 0 {
        Seq::empty()
    } else {
        match params[0] {
            Param::Typed(ty) => match context_struct(ty) {
                Some(name) => name,
                None => bound_struct(params.drop_first()),
            },
            Param::Receiver => bound_struct(params.drop_first()),
        }
    }
}

/// The account `f`, if `e` is exactly `ctx.accounts.f`.
pub open spec fn account_field(e: Expr) -> Option<Seq<char>> {
    match e.kind {
        ExprKind::Field { base, member: Member::Named(field), .. } => match base.kind {
            ExprKind::Field { base: root, member: Member::Named(accounts), .. } => match root.kind {
                ExprKind::Path { path, .. } => if accounts@ == "accounts"@ && path.names("ctx"@) {
                    Some(field@)
                } else {
                    None
                },
                _ => None,
            },
            _ => None,
        },
        _ => None,
    }
}

/// The account `f`, if `e` is `ctx.accounts.f` or a member inside it at any
/// depth, whether the members after `f` are named or are positions in a
/// tuple.
pub open spec fn written_account(e: Expr) -> Option<Seq<char>>
    decreases e,
{
    match account_field(e) {
        Some(field) => Some(field),
        None => match e.kind {
            ExprKind::Field { base, .. } => written_account(*base),
            _ => None,
        },
    }
}

/// The error for a mutable borrow of `target`.
pub open spec fn borrow_error(
    target: Expr,
    function: Seq<char>,
    file: Seq<char>,
    bound: Seq<char>,
    mutable: Set<Seq<char>>,
) -> Seq<DiagnosticView> {
    match account_field(target) {
        Some(field) => if mutable.contains(field) {
            Seq::empty()
        } else {
            seq![
                diagnostic(
                    FindingView::UndeclaredMutBorrow { field, function, struct_name: bound },
                    file,
                    target.line as nat,
                ),
            ]
        },
        None => Seq::empty(),
    }
}

/// The error for an assignment to `left`.
pub open spec fn mutation_error(
    left: Expr,
    function: Seq<char>,
    file: Seq<char>,
    bound: Seq<char>,
    mutable: Set<Seq<char>>,
    initialized: Set<Seq<char>>,
) -> Seq<DiagnosticView> {
    match written_account(left) {
        Some(field) => if mutable.contains(field) || initialized.contains(field) {
            Seq::empty()
        } else {
            seq![
                diagnostic(
                    FindingView::UndeclaredMutation { field, function, struct_name: bound },
                    file,
                    left.line as nat,
                ),
            ]
        },
        None => Seq::empty(),
    }
}

/// What the detector raises at the expression `e`, inside the function
/// `function` of the file `file`, whose context binds the struct `bound` with
/// the given sets of mutable and initialized fields.
pub open spec fn mutation_at(
    e: Expr,
    function: Seq<char>,
    file: Seq<char>,
    bound: Seq<char>,
    mutable: Set<Seq<char>>,
    initialized: Set<Seq<char>>,
) -> Seq<DiagnosticView> {
    match e.kind {
        ExprKind::Reference { mutable: true, target } => borrow_error(
            *target,
            function,
            file,
            bound,
            mutable,
        ),
        ExprKind::Assign { left, .. } => mutation_error(
            *left,
            function,
            file,
            bound,
            mutable,
            initialized,
        ),
        ExprKind::Binary { left, op, .. } => if op.assigns() {
            mutation_error(*left, function, file, bound, mutable, initialized)
        } else {
            Seq::empty()
        },
        _ => Seq::empty(),
    }
}

/// What the detector raises in the function `func` of the file `file`, given
/// the sets of field names recorded for the accounts structs of that file.
/// The function is checked against the sets of the struct that its context
/// binds; where nothing is recorded for that struct, against empty sets.
pub open spec fn mutation_findings(
    func: FnItem,
    file: Seq<char>,
    symbols: Map<Seq<char>, FieldSets>,
) -> Seq<DiagnosticView> {
    let bound = bound_struct(func.params@);
    let sets = sets_of(symbols, bound);
    gathered(
        visited_stmts(func.body@),
        |e: Expr| mutation_at(e, func.name@, file, bound, sets.mutable, sets.initialized),
    )
}

fn first_type_of(args: &Vec<GenericArg>) -> (r: Option<&Type>)
    ensures
        match r {
            Some(ty) => first_type(args@) == Some(*ty),
            None => first_type(args@) is None,
        },
{
    let mut i: usize = 0;
    assert(args@.subrange(0, args.len() as int) == args@);
    while i < args.len()
        invariant
            i <= args.len(),
            first_type(args@) == first_type(args@.subrange(i as int, args.len() as int)),
        decreases args.len() - i,
    {
        let ghost rest = args@.subrange(i as int, args.len() as int);
        assert(rest.drop_first() == args@.subrange(i as int + 1, args.len() as int));
        assert(rest[0] == args@[i as int]);
        match &args[i] {
            GenericArg::Type(ty) => {
                return Some(ty);
            },
            GenericArg::Other => {},
        }
        i += 1;
    }
    None
}

fn context_struct_of(ty: &Type) -> (r: Option<&String>)
    ensures
        match r {
            Some(name) => context_struct(*ty) == Some(name@),
            None => context_struct(*ty) is None,
        },
{
    match ty {
        Type::Path(segments) => {
            if segments.len() == 0 {
                return None;
            }
            let last = &segments[segments.len() - 1];
            if !text_is(&last.ident, "Context") {
                return None;
            }
            match first_type_of(&last.generics) {
                Some(Type::Path(inner)) => {
                    if inner.len() > 0 {
                        Some(&inner[inner.len() - 1].ident)
                    } else {
                        None
                    }
                },
                _ => None,
            }
        },
        _ => None,
    }
}

/// The name of the struct that the function's context binds; empty if the
/// function has no parameter of the shape `Context<T>`.
pub fn resolve_bound_struct(params: &Vec<Param>) -> (name: String)
    ensures
        name@ == bound_struct(params@),
{
    let mut i: usize = 0;
    assert(params@.subrange(0, params.len() as int) == params@);
    while i < params.len()
        invariant
            i <= params.len(),
            bound_struct(params@) == bound_struct(params@.subrange(i as int, params.len() as int)),
        decreases params.len() - i,
    {
        let ghost rest = params@.subrange(i as int, params.len() as int);
        assert(rest.drop_first() == params@.subrange(i as int + 1, params.len() as int));
        assert(rest[0] == params@[i as int]);
        match &params[i] {
            Param::Typed(ty) => {
                match context_struct_of(ty) {
                    Some(name) => {
                        return name.clone();
                    },
                    None => {},
                }
            },
            Param::Receiver => {},
        }
        i += 1;
    }
    String::new()
}

/// The account `f`, if `e` is exactly `ctx.accounts.f`.
pub fn extract_account_field(e: &Expr) -> (r: Option<&String>)
    ensures
        match r {
            Some(field) => account_field(*e) == Some(field@),
            None => account_field(*e) is None,
        },
{
    match &e.kind {
        ExprKind::Field { base, member: Member::Named(field), .. } => match &base.kind {
            ExprKind::Field { base: root, member: Member::Named(accounts), .. } => match &root.kind {
                ExprKind::Path { path, .. } => {
                    if text_is(accounts, "accounts") && path.is_ident("ctx") {
                        Some(field)
                    } else {
                        None
                    }
                },
                _ => None,
            },
            _ => None,
        },
        _ => None,
    }
}

/// The account `f`, if `e` is `ctx.accounts.f` or a member inside it at any
/// depth.
pub fn detect_field_mutation(e: &Expr) -> (r: Option<&String>)
    ensures
        match r {
            Some(field) => written_account(*e) == Some(field@),
            None => written_account(*e) is None,
        },
    decreases e,
{
    match extract_account_field(e) {
        Some(field) => Some(field),
        None => match &e.kind {
            ExprKind::Field { base, .. } => detect_field_mutation(base),
            _ => None,
        },
    }
}

/// Looks for undeclared mutation at single expressions.
pub struct MutationDetector<'a> {
    /// The function that is being walked.
    pub function: String,
    /// The file that holds it.
    pub file: String,
    /// The struct that the function's context binds.
    pub bound: String,
    /// The fields of that struct that are declared mutable.
    pub mutable: &'a Vec<String>,
    /// The fields of that struct that are initialized.
    pub initialized: &'a Vec<String>,
}

impl<'a> MutationDetector<'a> {
    fn report_mutation(&self, left: &Expr, out: &mut Vec<Diagnostic>)
        ensures
            report(final(out)@) == report(old(out)@) + mutation_error(
                *left,
                self.function@,
                self.file@,
                self.bound@,
                name_set(self.mutable@),
                name_set(self.initialized@),
            ),
    {
        let ghost start = report(out@);
        match detect_field_mutation(left) {
            Some(field) => {
                if !contains_text(self.mutable, field) && !contains_text(self.initialized, field) {
                    out.push(
                        Diagnostic::new(
                            Finding::UndeclaredMutation {
                                field: field.clone(),
                                function: self.function.clone(),
                                struct_name: self.bound.clone(),
                            },
                            self.file.as_str(),
                            left.line,
                        ),
                    );
                }
            },
            None => {},
        }
        assert(report(out@) =~= start + mutation_error(
            *left,
            self.function@,
            self.file@,
            self.bound@,
            name_set(self.mutable@),
            name_set(self.initialized@),
        ));
    }
}

impl<'a> Detector for MutationDetector<'a> {
    open spec fn raised_at(&self, e: Expr) -> Seq<DiagnosticView> {
        mutation_at(
            e,
            self.function@,
            self.file@,
            self.bound@,
            name_set(self.mutable@),
            name_set(self.initialized@),
        )
    }

    fn inspect(&self, e: &Expr, out: &mut Vec<Diagnostic>) {
        let ghost start = report(out@);
        proof {
            assert(start + Seq::<DiagnosticView>::empty() =~= start);
        }
        match &e.kind {
            ExprKind::Reference { mutable, target } => {
                if *mutable {
                    match extract_account_field(target) {
                        Some(field) => {
                            if !contains_text(self.mutable, field) {
                                out.push(
                                    Diagnostic::new(
                                        Finding::UndeclaredMutBorrow {
                                            field: field.clone(),
                                            function: self.function.clone(),
                                            struct_name: self.bound.clone(),
                                        },
                                        self.file.as_str(),
                                        target.line,
                                    ),
                                );
                            }
                        },
                        None => {},
                    }
                    assert(report(out@) =~= start + self.raised_at(*e));
                }
            },
            ExprKind::Assign { left, .. } => {
                self.report_mutation(left, out);
            },
            ExprKind::Binary { left, op, .. } => {
                if op.is_assignment() {
                    self.report_mutation(left, out);
                }
            },
            _ => {},
        }
    }
}

/// Reports, in the order of the source, every mutable borrow of an account
/// that the bound struct does not declare mutable, and every assignment
/// through an account that it neither declares mutable nor initializes.
pub fn check_mut_borrow(func: &FnItem, file: &str, table: &SymbolTable) -> (out: Vec<Diagnostic>)
    ensures
        report(out@) == mutation_findings(*func, file@, table@),
{
    let bound = resolve_bound_struct(&func.params);
    let nothing: Vec<String> = Vec::new();
    assert(name_set(nothing@) =~= Set::<Seq<char>>::empty());
    let (mutable, initialized) = match table.lookup(&bound) {
        Some(entry) => (&entry.mutable, &entry.initialized),
        None => (&nothing, &nothing),
    };
    let d = MutationDetector {
        function: func.name.clone(),
        file: String::from_str(file),
        bound,
        mutable,
        initialized,
    };
    let out = run(&d, &func.body);
    proof {
        let name = bound_struct(func.params@);
        let sets = sets_of(table@, name);
        lemma_flat_map_same(
            visited_stmts(func.body@),
            |e: Expr| d.raised_at(e),
            |e: Expr| mutation_at(e, func.name@, file@, name, sets.mutable, sets.initialized),
        );
    }
    out
}

/// The expression `e` mutably borrows an account that is not in `mutable`,
/// or assigns through an account that is neither in `mutable` nor in
/// `initialized`.
pub open spec fn offends(e: Expr, mutable: Set<Seq<char>>, initialized: Set<Seq<char>>) -> bool {
    match e.kind {
        ExprKind::Reference { mutable: true, target } => match account_field(*target) {
            Some(field) => !mutable.contains(field),
            None => false,
        },
        ExprKind::Assign { left, .. } => match written_account(*left) {
            Some(field) => !mutable.contains(field) && !initialized.contains(field),
            None => false,
        },
        ExprKind::Binary { left, op, .. } => op.assigns() && match written_account(*left) {
            Some(field) => !mutable.contains(field) && !initialized.contains(field),
            None => false,
        },
        _ => false,
    }
}

/// Every diagnostic of the mutation detector is an error about a field that
/// the bound struct does not declare mutable; an error about an assignment
/// names a field that it does not initialize either. So a borrow of, or an
/// assignment through, a field that is declared mutable raises nothing.
pub proof fn lemma_declared_fields_raise_nothing(
    func: FnItem,
    file: Seq<char>,
    symbols: Map<Seq<char>, FieldSets>,
    d: DiagnosticView,
)
    requires
        mutation_findings(func, file, symbols).contains(d),
    ensures
        match d.finding {
            FindingView::UndeclaredMutBorrow { field, .. } => !sets_of(
                symbols,
                bound_struct(func.params@),
            ).mutable.contains(field),
            FindingView::UndeclaredMutation { field, .. } => {
                &&& !sets_of(symbols, bound_struct(func.params@)).mutable.contains(field)
                &&& !sets_of(symbols, bound_struct(func.params@)).initialized.contains(field)
            },
            _ => false,
        },
{
    let bound = bound_struct(func.params@);
    let sets = sets_of(symbols, bound);
    let hook = |e: Expr| mutation_at(e, func.name@, file, bound, sets.mutable, sets.initialized);
    let nodes = visited_stmts(func.body@);
    lemma_flat_map_origin(nodes, hook, d);
    let i = choose|i: int| 0 <= i < nodes.len() && #[trigger] hook(nodes[i]).contains(d);
    let e = nodes[i];
    let raised = mutation_at(e, func.name@, file, bound, sets.mutable, sets.initialized);
    assert(raised.contains(d));
    assert(raised.len() <= 1);
    assert(raised[0] == d);
}

/// The mutation detector raises exactly one error at each expression that
/// offends, and none anywhere else.
pub proof fn lemma_one_error_per_offence(
    func: FnItem,
    file: Seq<char>,
    symbols: Map<Seq<char>, FieldSets>,
)
    ensures
        mutation_findings(func, file, symbols).len() == count_where(
            visited_stmts(func.body@),
            |e: Expr|
                offends(
                    e,
                    sets_of(symbols, bound_struct(func.params@)).mutable,
                    sets_of(symbols, bound_struct(func.params@)).initialized,
                ),
        ),
{
    let bound = bound_struct(func.params@);
    let sets = sets_of(symbols, bound);
    let hook = |e: Expr| mutation_at(e, func.name@, file, bound, sets.mutable, sets.initialized);
    let offence = |e: Expr|
        offends(
            e,
            sets_of(symbols, bound_struct(func.params@)).mutable,
            sets_of(symbols, bound_struct(func.params@)).initialized,
        );
    assert forall|e: Expr| (#[trigger] hook(e)).len() == if offence(e) {
        1nat
    } else {
        0nat
    } by {}
    lemma_flat_map_counts(visited_stmts(func.body@), hook, offence);
}

/// The place that `e` assigns to, if `e` is an assignment, plain or
/// compound.
pub open spec fn assigned_place(e: Expr) -> Option<Expr> {
    match e.kind {
        ExprKind::Assign { left, .. } => Some(*left),
        ExprKind::Binary { left, op, .. } => if op.assigns() {
            Some(*left)
        } else {
            None
        },
        _ => None,
    }
}

/// An assignment through `ctx.accounts.f`, plain or compound, where `f` is
/// neither declared mutable nor initialized, raises exactly one error: it
/// names `f` and stands on the line of the assigned place.
pub proof fn lemma_undeclared_assignment_raises_one(
    e: Expr,
    function: Seq<char>,
    file: Seq<char>,
    bound: Seq<char>,
    mutable: Set<Seq<char>>,
    initialized: Set<Seq<char>>,
)
    requires
        assigned_place(e) is Some,
        written_account(assigned_place(e).unwrap()) is Some,
        !mutable.contains(written_account(assigned_place(e).unwrap()).unwrap()),
        !initialized.contains(written_account(assigned_place(e).unwrap()).unwrap()),
    ensures
        mutation_at(e, function, file, bound, mutable, initialized) == seq![
            diagnostic(
                FindingView::UndeclaredMutation {
                    field: written_account(assigned_place(e).unwrap()).unwrap(),
                    function,
                    struct_name: bound,
                },
                file,
                assigned_place(e).unwrap().line as nat,
            ),
        ],
{
}

/// Lifetimes before the type argument are passed over: the type argument
/// is the first argument that is a type, wherever it stands.
pub proof fn lemma_lifetimes_are_passed_over(args: Seq<GenericArg>, k: int)
    requires
        0 <= k < args.len(),
        args[k] is Type,
        forall|j: int| 0 <= j < k ==> (#[trigger] args[j]) is Other,
    ensures
        first_type(args) == Some(args[k]->Type_0),
    decreases k,
{
    if k > 0 {
        let rest = args.drop_first();
        assert(rest[k - 1] == args[k]);
        assert forall|j: int| 0 <= j < k - 1 implies (#[trigger] rest[j]) is Other by {
            assert(rest[j] == args[j + 1]);
        }
        assert(args[0] is Other);
        lemma_lifetimes_are_passed_over(rest, k - 1);
    }
}

/// A member of something inside an account is inside that account, whether
/// the member is named or is a position in a tuple.
pub proof fn lemma_members_stay_inside_the_account(outer: Expr, inner: Expr)
    requires
        outer.kind is Field,
        *outer.kind->Field_base == inner,
        written_account(inner) is Some,
    ensures
        written_account(outer) == written_account(inner),
{
    if account_field(outer) is Some {
        let root = *inner.kind->Field_base;
        assert(root.kind is Path);
        assert(account_field(inner) is None);
        assert(account_field(root) is None);
        assert(written_account(root) is None);
        assert(written_account(inner) is None);
    }
}

} // verus!
