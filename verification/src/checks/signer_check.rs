//! Accounts structs without a signer.

use crate::classifier::is_account_attr;
use crate::diagnostic::{diagnostic, report, Diagnostic, DiagnosticView, Finding, FindingView};
use crate::syntax::{Field, Fields, StructItem, Type};
use crate::text::text_is;
use vstd::prelude::*;

verus! {

/// The type is a path whose last segment is named `Signer`.
pub open spec fn is_signer_type(ty: Type) -> bool {
    match ty {
        Type::Path(segments) => segments@.len() > 0 && segments@.last().ident@ == "Signer"@,
        _ => false,
    }
}

/// The field carries an `#[account(..)]` attribute.
pub open spec fn is_account_tagged(f: Field) -> bool {
    exists|i: int| 0 <= i < f.attrs@.len() && is_account_attr(#[trigger] f.attrs@[i])
}

/// The field is an account whose type is `Signer`.
pub open spec fn is_signer_field(f: Field) -> bool {
    is_account_tagged(f) && is_signer_type(f.ty)
}

/// One of the fields is an account whose type is `Signer`.
pub open spec fn has_signer(fields: Seq<Field>) -> bool {
    exists|i: int| 0 <= i < fields.len() && is_signer_field(#[trigger] fields[i])
}

/// The warning for a struct with named fields none of which is a signer
/// account; nothing for any other struct.
pub open spec fn missing_signer(item: StructItem, file: Seq<char>) -> Seq<DiagnosticView> {
    match item.fields {
        Fields::Named(fields) => if has_signer(fields@) {
            Seq::empty()
        } else {
            seq![
                diagnostic(
                    FindingView::MissingSigner { struct_name: item.name@ },
                    file,
                    item.line as nat,
                ),
            ]
        },
        Fields::Other => Seq::empty(),
    }
}

#[verifier::loop_isolation(false)]
fn signer_field(f: &Field) -> (b: bool)
    ensures
        b == is_signer_field(*f),
{
    let typed = match &f.ty {
        Type::Path(segments) => segments.len() > 0 && text_is(
            &segments[segments.len() - 1].ident,
            "Signer",
        ),
        _ => false,
    };
    if !typed {
        return false;
    }
    let mut i: usize = 0;
    while i < f.attrs.len()
        invariant
            i <= f.attrs.len(),
            forall|k: int| 0 <= k < i ==> !is_account_attr(#[trigger] f.attrs@[k]),
        decreases f.attrs.len() - i,
    {
        if f.attrs[i].path.is_ident("account") {
            return true;
        }
        i += 1;
    }
    false
}

/// Warns if the struct has named fields and none of them is an account of
/// type `Signer`. The check goes by the declared types alone and speaks of
/// the struct as a whole: a `signer` constraint on a field is not consulted,
/// and the warning does not say which account should sign.
#[verifier::loop_isolation(false)]
pub fn check_missing_signer(item_struct: &StructItem, file: &str) -> (out: Vec<Diagnostic>)
    ensures
        report(out@) == missing_signer(*item_struct, file@),
{
    let mut out: Vec<Diagnostic> = Vec::new();
    assert(report(out@) =~= Seq::<DiagnosticView>::empty());
    match &item_struct.fields {
        Fields::Named(fields) => {
            let mut i: usize = 0;
            while i < fields.len()
                invariant
                    i <= fields.len(),
                    out@.len() == 0,
                    forall|k: int| 0 <= k < i ==> !is_signer_field(#[trigger] fields@[k]),
                decreases fields.len() - i,
            {
                if signer_field(&fields[i]) {
                    assert(report(out@) =~= Seq::<DiagnosticView>::empty());
                    return out;
                }
                i += 1;
            }
            out.push(
                Diagnostic::new(
                    Finding::MissingSigner { struct_name: item_struct.name.clone() },
                    file,
                    item_struct.line,
                ),
            );
            assert(report(out@) =~= missing_signer(*item_struct, file@));
            out
        },
        Fields::Other => out,
    }
}

} // verus!
