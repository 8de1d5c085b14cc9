//! Several fields of one struct that hold accounts of the same logical type.

use crate::collect::{
    count_where, flat_map, lemma_count_where_add, lemma_flat_map_origin, lemma_flat_map_step,
};
use crate::diagnostic::{diagnostic, report, Diagnostic, DiagnosticView, Finding, FindingView};
use crate::syntax::{Field, Fields, GenericArg, StructItem, Type};
use crate::text::{same_text, text_is};
use vstd::prelude::*;

verus! {

/// One use of a logical account type: its name and the line of the field
/// that uses it.
pub struct TypeUse {
    pub name: Seq<char>,
    pub line: nat,
}

/// The use that one argument of `Account<..>` stands for: the last name of
/// the argument, if it is a type path.
pub open spec fn argument_use(arg: GenericArg, line: nat) -> Seq<TypeUse> {
    match arg {
        GenericArg::Type(Type::Path(inner)) => if inner@.len() > 0 {
            seq![TypeUse { name: inner@.last().ident@, line }]
        } else {
            Seq::empty()
        },
        _ => Seq::empty(),
    }
}

/// The logical account types that a field of type `ty` on line `line` uses.
/// References, parentheses, groups, slices and arrays are looked through. So
/// is `Box<..>`, into its first argument. Under them, `Account<..>` uses
/// each of its arguments that is a type path.
pub open spec fn type_uses(ty: Type, line: nat) -> Seq<TypeUse>
    decreases ty,
{
    match ty {
        Type::Path(segments) => if segments@.len() == 0 {
            Seq::empty()
        } else {
            let last = segments@.last();
            if last.ident@ == "Account"@ {
                flat_map(last.generics@, |arg: GenericArg| argument_use(arg, line))
            } else if last.ident@ == "Box"@ && last.generics@.len() > 0 {
                match last.generics@[0] {
                    GenericArg::Type(inner) => type_uses(inner, line),
                    GenericArg::Other => Seq::empty(),
                }
            } else {
                Seq::empty()
            }
        },
        Type::Reference(inner) => type_uses(*inner, line),
        Type::Paren(inner) => type_uses(*inner, line),
        Type::Group(inner) => type_uses(*inner, line),
        Type::Slice(inner) => type_uses(*inner, line),
        Type::Array(inner) => type_uses(*inner, line),
        Type::Other => Seq::empty(),
    }
}

/// The uses of logical account types by the fields, in order.
pub open spec fn field_uses(fields: Seq<Field>) -> Seq<TypeUse> {
    flat_map(fields, |f: Field| type_uses(f.ty, f.line as nat))
}

/// The lines of the uses of the type `name`, in order.
pub open spec fn lines_of(uses: Seq<TypeUse>, name: Seq<char>) -> Seq<nat> {
    flat_map(
        uses,
        |u: TypeUse|
            if u.name == name {
                seq![u.line]
            } else {
                Seq::empty()
            },
    )
}

/// Use `i` is the first use of its type.
pub open spec fn is_first_use(uses: Seq<TypeUse>, i: int) -> bool {
    forall|j: int| 0 <= j < i ==> (#[trigger] uses[j]).name != uses[i].name
}

/// The error raised at use `i`: one if it is the first use of a type that is
/// used more than once.
pub open spec fn duplicate_at(uses: Seq<TypeUse>, i: int, struct_name: Seq<char>, file: Seq<char>) -> Seq<
    DiagnosticView,
> {
    if is_first_use(uses, i) && lines_of(uses, uses[i].name).len() > 1 {
        seq![
            diagnostic(
                FindingView::DuplicateAccountType {
                    account_type: uses[i].name,
                    struct_name,
                    lines: lines_of(uses, uses[i].name),
                },
                file,
                uses[i].line,
            ),
        ]
    } else {
        Seq::empty()
    }
}

/// The errors raised at the first `k` uses.
pub open spec fn duplicates_upto(
    uses: Seq<TypeUse>,
    k: int,
    struct_name: Seq<char>,
    file: Seq<char>,
) -> Seq<DiagnosticView>
    decreases k,
{
    if k <= 0 {
        Seq::empty()
    } else {
        duplicates_upto(uses, k - 1, struct_name, file) + duplicate_at(
            uses,
            k - 1,
            struct_name,
            file,
        )
    }
}

/// The errors for the struct `item`: one for each logical account type that
/// its named fields use more than once, in the order in which the types are
/// first used.
pub open spec fn duplicate_findings(item: StructItem, file: Seq<char>) -> Seq<DiagnosticView> {
    match item.fields {
        Fields::Named(fields) => {
            let uses = field_uses(fields@);
            duplicates_upto(uses, uses.len() as int, item.name@, file)
        },
        Fields::Other => Seq::empty(),
    }
}

/// A use of a logical account type, as the check holds it.
struct Occurrence<'a> {
    name: &'a String,
    line: usize,
}

impl<'a> Occurrence<'a> {
    spec fn as_use(&self) -> TypeUse {
        TypeUse { name: self.name@, line: self.line as nat }
    }
}

spec fn as_uses(list: Seq<Occurrence<'_>>) -> Seq<TypeUse> {
    list.map_values(|o: Occurrence<'_>| o.as_use())
}

#[verifier::loop_isolation(false)]
fn collect_uses<'a>(ty: &'a Type, line: usize, out: &mut Vec<Occurrence<'a>>)
    ensures
        as_uses(final(out)@) == as_uses(old(out)@) + type_uses(*ty, line as nat),
    decreases ty,
{
    let ghost start = as_uses(out@);
    proof {
        assert(start + Seq::<TypeUse>::empty() =~= start);
    }
    match ty {
        Type::Path(segments) => {
            if segments.len() == 0 {
                return ;
            }
            let last = &segments[segments.len() - 1];
            if text_is(&last.ident, "Account") {
                let ghost hook = |arg: GenericArg| argument_use(arg, line as nat);
                let mut i: usize = 0;
                assert(as_uses(out@) =~= start + flat_map(last.generics@.take(0), hook));
                while i < last.generics.len()
                    invariant
                        i <= last.generics.len(),
                        as_uses(out@) == start + flat_map(last.generics@.take(i as int), hook),
                    decreases last.generics.len() - i,
                {
                    proof {
                        lemma_flat_map_step(last.generics@, hook, i as int);
                    }
                    let ghost before = as_uses(out@);
                    match &last.generics[i] {
                        GenericArg::Type(Type::Path(inner)) => {
                            if inner.len() > 0 {
                                out.push(Occurrence { name: &inner[inner.len() - 1].ident, line });
                            }
                        },
                        _ => {},
                    }
                    assert(as_uses(out@) =~= before + hook(last.generics@[i as int]));
                    i += 1;
                }
                assert(last.generics@.take(i as int) == last.generics@);
            } else if text_is(&last.ident, "Box") && last.generics.len() > 0 {
                match &last.generics[0] {
                    GenericArg::Type(inner) => {
                        collect_uses(inner, line, out);
                    },
                    GenericArg::Other => {},
                }
            }
        },
        Type::Reference(inner) => collect_uses(inner, line, out),
        Type::Paren(inner) => collect_uses(inner, line, out),
        Type::Group(inner) => collect_uses(inner, line, out),
        Type::Slice(inner) => collect_uses(inner, line, out),
        Type::Array(inner) => collect_uses(inner, line, out),
        Type::Other => {},
    }
}

#[verifier::loop_isolation(false)]
fn first_use(uses: &Vec<Occurrence<'_>>, i: usize) -> (b: bool)
    requires
        i < uses.len(),
    ensures
        b == is_first_use(as_uses(uses@), i as int),
{
    let mut j: usize = 0;
    while j < i
        invariant
            j <= i,
            forall|k: int| 0 <= k < j ==> (#[trigger] as_uses(uses@)[k]).name != as_uses(
                uses@,
            )[i as int].name,
        decreases i - j,
    {
        if same_text(uses[j].name, uses[i].name) {
            assert(as_uses(uses@)[j as int].name == as_uses(uses@)[i as int].name);
            return false;
        }
        j += 1;
    }
    true
}

#[verifier::loop_isolation(false)]
fn lines_named(uses: &Vec<Occurrence<'_>>, name: &String) -> (lines: Vec<usize>)
    ensures
        lines@.map_values(|l: usize| l as nat) == lines_of(as_uses(uses@), name@),
{
    let ghost hook = |u: TypeUse|
        if u.name == name@ {
            seq![u.line]
        } else {
            Seq::empty()
        };
    let mut lines: Vec<usize> = Vec::new();
    let mut j: usize = 0;
    assert(lines@.map_values(|l: usize| l as nat) =~= flat_map(as_uses(uses@).take(0), hook));
    while j < uses.len()
        invariant
            j <= uses.len(),
            lines@.map_values(|l: usize| l as nat) == flat_map(
                as_uses(uses@).take(j as int),
                hook,
            ),
        decreases uses.len() - j,
    {
        proof {
            lemma_flat_map_step(as_uses(uses@), hook, j as int);
        }
        let ghost before = lines@.map_values(|l: usize| l as nat);
        if same_text(uses[j].name, name) {
            lines.push(uses[j].line);
        }
        assert(lines@.map_values(|l: usize| l as nat) =~= before + hook(
            as_uses(uses@)[j as int],
        ));
        j += 1;
    }
    assert(as_uses(uses@).take(j as int) == as_uses(uses@));
    lines
}

/// Raises an error for each logical account type that several named fields
/// of the struct hold, whatever references and boxes wrap it. The errors
/// come in the order in which the types are first used.
#[verifier::loop_isolation(false)]
pub fn check_duplicate_account_types(item_struct: &StructItem, file: &str) -> (out: Vec<Diagnostic>)
    ensures
        report(out@) == duplicate_findings(*item_struct, file@),
{
    let mut out: Vec<Diagnostic> = Vec::new();
    assert(report(out@) =~= Seq::<DiagnosticView>::empty());
    let fields = match &item_struct.fields {
        Fields::Named(fields) => fields,
        Fields::Other => {
            return out;
        },
    };
    let ghost per_field = |f: Field| type_uses(f.ty, f.line as nat);
    let mut uses: Vec<Occurrence<'_>> = Vec::new();
    let mut i: usize = 0;
    assert(as_uses(uses@) =~= flat_map(fields@.take(0), per_field));
    while i < fields.len()
        invariant
            i <= fields.len(),
            as_uses(uses@) == flat_map(fields@.take(i as int), per_field),
        decreases fields.len() - i,
    {
        proof {
            lemma_flat_map_step(fields@, per_field, i as int);
        }
        collect_uses(&fields[i].ty, fields[i].line, &mut uses);
        i += 1;
    }
    assert(fields@.take(i as int) == fields@);
    let ghost all = as_uses(uses@);
    let mut k: usize = 0;
    while k < uses.len()
        invariant
            k <= uses.len(),
            report(out@) == duplicates_upto(all, k as int, item_struct.name@, file@),
        decreases uses.len() - k,
    {
        let ghost before = report(out@);
        if first_use(&uses, k) {
            let lines = lines_named(&uses, uses[k].name);
            if lines.len() > 1 {
                out.push(
                    Diagnostic::new(
                        Finding::DuplicateAccountType {
                            account_type: uses[k].name.clone(),
                            struct_name: item_struct.name.clone(),
                            lines,
                        },
                        file,
                        uses[k].line,
                    ),
                );
            }
        }
        assert(report(out@) =~= before + duplicate_at(all, k as int, item_struct.name@, file@));
        k += 1;
    }
    out
}

/// The diagnostic is a duplicate-type error that names the type `name`.
pub open spec fn names_type(d: DiagnosticView, name: Seq<char>) -> bool {
    d.finding is DuplicateAccountType && d.finding->account_type == name
}

/// One of the first `k` uses is a use of the type `name`.
spec fn used_before(uses: Seq<TypeUse>, k: int, name: Seq<char>) -> bool {
    exists|i: int| 0 <= i < k && i < uses.len() && (#[trigger] uses[i]).name == name
}

proof fn lemma_duplicates_upto_count(
    uses: Seq<TypeUse>,
    k: int,
    struct_name: Seq<char>,
    file: Seq<char>,
    name: Seq<char>,
)
    requires
        0 <= k <= uses.len(),
    ensures
        count_where(
            duplicates_upto(uses, k, struct_name, file),
            |d: DiagnosticView| names_type(d, name),
        ) == if used_before(uses, k, name) && lines_of(uses, name).len() > 1 {
            1nat
        } else {
            0nat
        },
    decreases k,
{
    let naming = |d: DiagnosticView| names_type(d, name);
    if k > 0 {
        let front = duplicates_upto(uses, k - 1, struct_name, file);
        let here = duplicate_at(uses, k - 1, struct_name, file);
        lemma_duplicates_upto_count(uses, k - 1, struct_name, file, name);
        lemma_count_where_add(front, here, naming);
        if here.len() == 1 {
            assert(here.drop_last() =~= Seq::<DiagnosticView>::empty());
            assert(count_where(here.drop_last(), naming) == 0);
            assert(count_where(here, naming) == if naming(here[0]) {
                1nat
            } else {
                0nat
            });
        } else {
            assert(here =~= Seq::<DiagnosticView>::empty());
            assert(count_where(here, naming) == 0);
        }
        if uses[k - 1].name == name {
            assert(used_before(uses, k, name));
            if used_before(uses, k - 1, name) {
                let i = choose|i: int|
                    0 <= i < k - 1 && i < uses.len() && (#[trigger] uses[i]).name == name;
                assert(!is_first_use(uses, k - 1));
            } else {
                assert(is_first_use(uses, k - 1));
            }
        } else {
            if used_before(uses, k, name) {
                let i = choose|i: int|
                    0 <= i < k && i < uses.len() && (#[trigger] uses[i]).name == name;
                assert(i < k - 1);
                assert(used_before(uses, k - 1, name));
            }
        }
    }
}

/// For every logical account type: the check raises exactly one error that
/// names the type if the named fields of the struct use it twice or more,
/// and none if they use it once or not at all.
pub proof fn lemma_one_error_per_duplicated_type(item: StructItem, file: Seq<char>, name: Seq<char>)
    requires
        item.fields is Named,
    ensures
        count_where(duplicate_findings(item, file), |d: DiagnosticView| names_type(d, name)) == if
            lines_of(field_uses(item.fields->Named_0@), name).len() > 1 {
            1nat
        } else {
            0nat
        },
{
    let uses = field_uses(item.fields->Named_0@);
    lemma_duplicates_upto_count(uses, uses.len() as int, item.name@, file, name);
    if lines_of(uses, name).len() > 1 {
        let hook = |u: TypeUse|
            if u.name == name {
                seq![u.line]
            } else {
                Seq::empty()
            };
        let line = lines_of(uses, name)[0];
        assert(flat_map(uses, hook).contains(line));
        lemma_flat_map_origin(uses, hook, line);
        let i = choose|i: int| 0 <= i < uses.len() && #[trigger] hook(uses[i]).contains(line);
        assert(uses[i].name == name);
        assert(used_before(uses, uses.len() as int, name));
    }
}

/// Wrapping a type in a reference or a box does not change the logical
/// account types that it uses.
pub proof fn lemma_wrapping_is_looked_through(inner: Type, line: nat)
    ensures
        type_uses(Type::Reference(Box::new(inner)), line) == type_uses(inner, line),
        type_uses(Type::Paren(Box::new(inner)), line) == type_uses(inner, line),
        type_uses(Type::Group(Box::new(inner)), line) == type_uses(inner, line),
        type_uses(Type::Slice(Box::new(inner)), line) == type_uses(inner, line),
        type_uses(Type::Array(Box::new(inner)), line) == type_uses(inner, line),
{
}

/// `Box<T>` is looked through as well: it uses what its first argument
/// uses.
pub proof fn lemma_box_is_looked_through(ty: Type, inner: Type, line: nat)
    requires
        ty is Path,
        ty->Path_0@.len() > 0,
        ty->Path_0@.last().ident@ == "Box"@,
        ty->Path_0@.last().generics@.len() > 0,
        ty->Path_0@.last().generics@[0] == GenericArg::Type(inner),
    ensures
        type_uses(ty, line) == type_uses(inner, line),
{
    reveal_strlit("Box");
    reveal_strlit("Account");
    assert("Box"@.len() != "Account"@.len());
}

} // verus!
