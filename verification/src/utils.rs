//! Recognizing accounts structs and handler functions by their looks.

use crate::syntax::Attribute;
use crate::text::{has_prefix, starts_with_text, text_is};
use vstd::prelude::*;

verus! {

/// The attribute is a `derive` that lists `Accounts`.
pub open spec fn derives_accounts(attr: Attribute) -> bool {
    attr.path.names("derive"@) && attr.lists("Accounts"@)
}

/// One of the attributes is a `derive` that lists `Accounts`.
pub open spec fn is_accounts_struct(attrs: Seq<Attribute>) -> bool {
    exists|i: int| 0 <= i < attrs.len() && derives_accounts(#[trigger] attrs[i])
}

/// One of the attributes is `#[program]`.
pub open spec fn is_program_module(attrs: Seq<Attribute>) -> bool {
    exists|i: int| 0 <= i < attrs.len() && (#[trigger] attrs[i]).path.names("program"@)
}

/// The name is `handler` or begins with `handle_`.
pub open spec fn is_handler_name(name: Seq<char>) -> bool {
    name == "handler"@ || has_prefix(name, "handle_"@)
}

/// Whether a struct with these attributes declares the accounts of a
/// handler: whether one of them is a `derive` that lists `Accounts`.
pub fn is_anchor_account_struct(attrs: &Vec<Attribute>) -> (b: bool)
    ensures
        b == is_accounts_struct(attrs@),
{
    let mut i: usize = 0;
    while i < attrs.len()
        invariant
            i <= attrs.len(),
            forall|k: int| 0 <= k < i ==> !derives_accounts(#[trigger] attrs@[k]),
        decreases attrs.len() - i,
    {
        if attrs[i].path.is_ident("derive") && attrs[i].has_meta("Accounts") {
            return true;
        }
        i += 1;
    }
    false
}

/// Whether a module with these attributes is the program module.
pub fn is_program_mod(attrs: &Vec<Attribute>) -> (b: bool)
    ensures
        b == is_program_module(attrs@),
{
    let mut i: usize = 0;
    while i < attrs.len()
        invariant
            i <= attrs.len(),
            forall|k: int| 0 <= k < i ==> !(#[trigger] attrs@[k]).path.names("program"@),
        decreases attrs.len() - i,
    {
        if attrs[i].path.is_ident("program") {
            return true;
        }
        i += 1;
    }
    false
}

/// Whether a function of this name looks like a handler.
pub fn is_handler_fn(name: &str) -> (b: bool)
    ensures
        b == is_handler_name(name@),
{
    let owned = String::from_str(name);
    text_is(&owned, "handler") || starts_with_text(name, "handle_")
}

} // verus!
