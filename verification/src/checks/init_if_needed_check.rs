//! Fields that may be initialized a second time.

use crate::classifier::{constraints, named_fields, parse_constraints};
use crate::collect::{flat_map, lemma_flat_map_step};
use crate::diagnostic::{diagnostic, report, Diagnostic, DiagnosticView, Finding, FindingView};
use crate::syntax::{Attribute, Field, Fields, StructItem};
use vstd::prelude::*;

verus! {

/// The constraints of the attribute allow a second initialization.
pub open spec fn allows_reinit(attr: Attribute) -> bool {
    match constraints(attr) {
        Some(c) => c.reinitializable,
        None => false,
    }
}

/// The warning for the attribute `attr` of the field `field`.
pub open spec fn reinit_at(
    attr: Attribute,
    field: Seq<char>,
    struct_name: Seq<char>,
    file: Seq<char>,
) -> Seq<DiagnosticView> {
    if allows_reinit(attr) {
        seq![diagnostic(FindingView::RiskyReinit { field, struct_name }, file, attr.line as nat)]
    } else {
        Seq::empty()
    }
}

/// The warnings for the field `f`: one for each of its attributes that allows
/// a second initialization.
pub open spec fn reinit_in_field(f: Field, struct_name: Seq<char>, file: Seq<char>) -> Seq<
    DiagnosticView,
> {
    flat_map(f.attrs@, |attr: Attribute| reinit_at(attr, f.name@, struct_name, file))
}

/// The warnings for the struct `item`, field by field.
pub open spec fn reinit_findings(item: StructItem, file: Seq<char>) -> Seq<DiagnosticView> {
    flat_map(named_fields(item.fields), |f: Field| reinit_in_field(f, item.name@, file))
}

#[verifier::loop_isolation(false)]
fn check_field(f: &Field, struct_name: &String, file: &str, out: &mut Vec<Diagnostic>)
    ensures
        report(final(out)@) == report(old(out)@) + reinit_in_field(*f, struct_name@, file@),
{
    let ghost hook = |attr: Attribute| reinit_at(attr, f.name@, struct_name@, file@);
    let ghost start = report(out@);
    let mut i: usize = 0;
    assert(start =~= start + flat_map(f.attrs@.take(0), hook));
    while i < f.attrs.len()
        invariant
            i <= f.attrs.len(),
            report(out@) == start + flat_map(f.attrs@.take(i as int), hook),
        decreases f.attrs.len() - i,
    {
        proof {
            lemma_flat_map_step(f.attrs@, hook, i as int);
        }
        let ghost before = report(out@);
        let attr = &f.attrs[i];
        match parse_constraints(attr) {
            Some(c) => {
                if c.reinitializable {
                    out.push(
                        Diagnostic::new(
                            Finding::RiskyReinit {
                                field: f.name.clone(),
                                struct_name: struct_name.clone(),
                            },
                            file,
                            attr.line,
                        ),
                    );
                }
            },
            None => {},
        }
        assert(report(out@) =~= before + hook(f.attrs@[i as int]));
        i += 1;
    }
    assert(f.attrs@.take(i as int) == f.attrs@);
}

/// Warns about every `#[account(..)]` attribute of the struct's fields that
/// lists `init_if_needed`, in the order of the source.
#[verifier::loop_isolation(false)]
pub fn check_init_if_needed(item_struct: &StructItem, file: &str) -> (out: Vec<Diagnostic>)
    ensures
        report(out@) == reinit_findings(*item_struct, file@),
{
    let mut out: Vec<Diagnostic> = Vec::new();
    let ghost hook = |f: Field| reinit_in_field(f, item_struct.name@, file@);
    match &item_struct.fields {
        Fields::Named(fields) => {
            let mut i: usize = 0;
            assert(report(out@) =~= flat_map(fields@.take(0), hook));
            while i < fields.len()
                invariant
                    i <= fields.len(),
                    report(out@) == flat_map(fields@.take(i as int), hook),
                decreases fields.len() - i,
            {
                proof {
                    lemma_flat_map_step(fields@, hook, i as int);
                }
                check_field(&fields[i], &item_struct.name, file, &mut out);
                i += 1;
            }
            assert(fields@.take(i as int) == fields@);
        },
        Fields::Other => {
            assert(report(out@) =~= flat_map(Seq::<Field>::empty(), hook));
        },
    }
    out
}

} // verus!
