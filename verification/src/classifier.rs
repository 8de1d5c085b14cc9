//! The struct classifier: the constraints that an `#[account(..)]` attribute
//! states, and the field names that an accounts struct contributes to the
//! symbol table.

use crate::collect::{flat_map, lemma_flat_map_holds, lemma_flat_map_origin, lemma_flat_map_step};
use crate::symbols::StructSymbols;
use crate::syntax::{Attribute, Field, Fields, StructItem};
use crate::scan::{elements, lemma_pieces_nonempty, list_elements, list_end};
use crate::text::{
    chars_of, find_char, find_char_in, find_text, find_text_in, lemma_find_char_first,
    lemma_find_text_first, texts,
};
use vstd::prelude::*;

verus! {

/// What one `#[account(..)]` attribute states about its field.
#[derive(Debug, Clone, PartialEq, Eq)]
pub struct ConstraintSet {
    /// The attribute lists `mut`.
    pub mutable: bool,
    /// The attribute lists `signer`.
    pub signer: bool,
    /// The attribute lists `init` or `init_if_needed`.
    pub initialized: bool,
    /// The attribute lists `init_if_needed`.
    pub reinitializable: bool,
    /// The elements of the seed list as they are written, if the attribute
    /// has one.
    pub seeds: Option<Vec<String>>,
}

/// The mathematical value of a [`ConstraintSet`].
pub struct ConstraintSetView {
    pub mutable: bool,
    pub signer: bool,
    pub initialized: bool,
    pub reinitializable: bool,
    pub seeds: Option<Seq<Seq<char>>>,
}

impl View for ConstraintSet {
    type V = ConstraintSetView;

    open spec fn view(&self) -> ConstraintSetView {
        ConstraintSetView {
            mutable: self.mutable,
            signer: self.signer,
            initialized: self.initialized,
            reinitializable: self.reinitializable,
            seeds: match self.seeds {
                Some(list) => Some(texts(list@)),
                None => None,
            },
        }
    }
}

/// The attribute is `#[account]` or `#[account(..)]`.
pub open spec fn is_account_attr(attr: Attribute) -> bool {
    attr.path.names("account"@)
}

/// The elements of the seed list in `raw`, as they are written. The list
/// opens at the first `[` after the first occurrence of the word `seeds` and
/// closes at the bracket that matches it; its elements are parted by the
/// commas that stand outside parentheses, brackets, braces and literals.
pub open spec fn seed_list(raw: Seq<char>) -> Option<Seq<Seq<char>>> {
    match find_text(raw, "seeds"@, 0) {
        Some(word) => match find_char(raw, '[', word) {
            Some(open) => elements(raw.subrange(open + 1, raw.len() as int)),
            None => None,
        },
        None => None,
    }
}

/// The first element of the seed list in `raw`.
pub open spec fn seed_prefix(raw: Seq<char>) -> Option<Seq<char>> {
    match seed_list(raw) {
        Some(list) => Some(list[0]),
        None => None,
    }
}

/// What the attribute states, if it is an `#[account(..)]` attribute.
pub open spec fn constraints(attr: Attribute) -> Option<ConstraintSetView> {
    if is_account_attr(attr) {
        Some(
            ConstraintSetView {
                mutable: attr.lists("mut"@),
                signer: attr.lists("signer"@),
                initialized: attr.lists("init"@) || attr.lists("init_if_needed"@),
                reinitializable: attr.lists("init_if_needed"@),
                seeds: seed_list(attr.tokens@),
            },
        )
    } else {
        None
    }
}

/// One of the attributes is an `#[account(..)]` attribute for which `which`
/// holds.
pub open spec fn some_constraint(
    attrs: Seq<Attribute>,
    which: spec_fn(ConstraintSetView) -> bool,
) -> bool {
    exists|i: int|
        0 <= i < attrs.len() && constraints(#[trigger] attrs[i]) is Some && which(
            constraints(attrs[i]).unwrap(),
        )
}

/// The field is declared mutable.
pub open spec fn field_mutable(f: Field) -> bool {
    some_constraint(f.attrs@, |c: ConstraintSetView| c.mutable)
}

/// The field is initialized by the handler.
pub open spec fn field_initialized(f: Field) -> bool {
    some_constraint(f.attrs@, |c: ConstraintSetView| c.initialized)
}

/// The named fields of a struct; none for a tuple or unit struct.
pub open spec fn named_fields(fields: Fields) -> Seq<Field> {
    match fields {
        Fields::Named(list) => list@,
        Fields::Other => Seq::empty(),
    }
}

/// The names of the fields that are declared mutable, in order.
pub open spec fn mutable_names(fields: Seq<Field>) -> Seq<Seq<char>> {
    flat_map(
        fields,
        |f: Field|
            if field_mutable(f) {
                seq![f.name@]
            } else {
                Seq::empty()
            },
    )
}

/// The names of the fields that are initialized, in order.
pub open spec fn initialized_names(fields: Seq<Field>) -> Seq<Seq<char>> {
    flat_map(
        fields,
        |f: Field|
            if field_initialized(f) {
                seq![f.name@]
            } else {
                Seq::empty()
            },
    )
}

/// The elements of the seed list in `tokens`, if it has one. A list has at
/// least one element; the list `[]` has one empty element.
pub fn parse_seed_list(tokens: &str) -> (r: Option<Vec<String>>)
    ensures
        match r {
            Some(list) => seed_list(tokens@) == Some(texts(list@)) && list@.len() >= 1,
            None => seed_list(tokens@) is None,
        },
{
    let chars = chars_of(tokens);
    let needle = chars_of("seeds");
    let word = match find_text_in(&chars, &needle, 0) {
        Some(i) => i,
        None => {
            return None;
        },
    };
    proof {
        lemma_find_text_first(chars@, needle@, 0);
    }
    let open = match find_char_in(&chars, '[', word) {
        Some(i) => i,
        None => {
            return None;
        },
    };
    proof {
        lemma_find_char_first(chars@, '[', word as int);
    }
    list_elements(tokens.substring_char(open + 1, chars.len()))
}

/// A seed list has at least one element.
pub proof fn lemma_seed_list_nonempty(raw: Seq<char>)
    ensures
        match seed_list(raw) {
            Some(list) => list.len() >= 1,
            None => true,
        },
{
    match find_text(raw, "seeds"@, 0) {
        Some(word) => match find_char(raw, '[', word) {
            Some(open) => {
                let rest = raw.subrange(open + 1, raw.len() as int);
                match list_end(rest, 0) {
                    Some(end) => {
                        lemma_pieces_nonempty(rest, end);
                    },
                    None => {},
                }
            },
            None => {},
        },
        None => {},
    }
}

/// What the attribute states, if it is an `#[account(..)]` attribute.
pub fn parse_constraints(attr: &Attribute) -> (r: Option<ConstraintSet>)
    ensures
        match r {
            Some(c) => constraints(*attr) == Some(c@),
            None => constraints(*attr) is None,
        },
{
    if !attr.path.is_ident("account") {
        return None;
    }
    let reinitializable = attr.has_meta("init_if_needed");
    Some(
        ConstraintSet {
            mutable: attr.has_meta("mut"),
            signer: attr.has_meta("signer"),
            initialized: reinitializable || attr.has_meta("init"),
            reinitializable,
            seeds: parse_seed_list(attr.tokens.as_str()),
        },
    )
}

/// Whether the field has an `#[account(..)]` attribute that makes it mutable,
/// and whether it has one that initializes it.
pub fn field_flags(f: &Field) -> (r: (bool, bool))
    ensures
        r.0 == field_mutable(*f),
        r.1 == field_initialized(*f),
{
    let mut mutable = false;
    let mut initialized = false;
    let mut i: usize = 0;
    while i < f.attrs.len()
        invariant
            i <= f.attrs.len(),
            mutable == some_constraint(
                f.attrs@.take(i as int),
                |c: ConstraintSetView| c.mutable,
            ),
            initialized == some_constraint(
                f.attrs@.take(i as int),
                |c: ConstraintSetView| c.initialized,
            ),
        decreases f.attrs.len() - i,
    {
        proof {
            lemma_some_constraint_step(f.attrs@, |c: ConstraintSetView| c.mutable, i as int);
            lemma_some_constraint_step(f.attrs@, |c: ConstraintSetView| c.initialized, i as int);
        }
        match parse_constraints(&f.attrs[i]) {
            Some(c) => {
                mutable = mutable || c.mutable;
                initialized = initialized || c.initialized;
            },
            None => {},
        }
        i += 1;
    }
    assert(f.attrs@.take(i as int) == f.attrs@);
    (mutable, initialized)
}

/// Looking at one more attribute: the property holds of the longer list if
/// it held of the shorter one or holds of the new attribute.
pub proof fn lemma_some_constraint_step(
    attrs: Seq<Attribute>,
    which: spec_fn(ConstraintSetView) -> bool,
    i: int,
)
    requires
        0 <= i < attrs.len(),
    ensures
        some_constraint(attrs.take(i + 1), which) == (some_constraint(attrs.take(i), which) || (
        constraints(attrs[i]) is Some && which(constraints(attrs[i]).unwrap()))),
{
    let shorter = attrs.take(i);
    let longer = attrs.take(i + 1);
    if some_constraint(shorter, which) {
        let k = choose|k: int|
            0 <= k < shorter.len() && constraints(#[trigger] shorter[k]) is Some && which(
                constraints(shorter[k]).unwrap(),
            );
        assert(longer[k] == shorter[k]);
    }
    if constraints(attrs[i]) is Some && which(constraints(attrs[i]).unwrap()) {
        assert(longer[i] == attrs[i]);
    }
    if some_constraint(longer, which) {
        let k = choose|k: int|
            0 <= k < longer.len() && constraints(#[trigger] longer[k]) is Some && which(
                constraints(longer[k]).unwrap(),
            );
        if k < i {
            assert(shorter[k] == longer[k]);
        } else {
            assert(longer[k] == attrs[i]);
        }
    }
}

/// The entry that the struct contributes to the symbol table: its name, the
/// fields it declares mutable and the fields it initializes.
#[verifier::loop_isolation(false)]
pub fn struct_symbols(item: &StructItem) -> (entry: StructSymbols)
    ensures
        entry.name@ == item.name@,
        texts(entry.mutable@) == mutable_names(named_fields(item.fields)),
        texts(entry.initialized@) == initialized_names(named_fields(item.fields)),
{
    let mut mutable: Vec<String> = Vec::new();
    let mut initialized: Vec<String> = Vec::new();
    let ghost pick_mutable = |f: Field|
        if field_mutable(f) {
            seq![f.name@]
        } else {
            Seq::empty()
        };
    let ghost pick_initialized = |f: Field|
        if field_initialized(f) {
            seq![f.name@]
        } else {
            Seq::empty()
        };
    match &item.fields {
        Fields::Named(fields) => {
            let mut i: usize = 0;
            assert(texts(mutable@) =~= flat_map(fields@.take(0), pick_mutable));
            assert(texts(initialized@) =~= flat_map(fields@.take(0), pick_initialized));
            while i < fields.len()
                invariant
                    i <= fields.len(),
                    texts(mutable@) == flat_map(fields@.take(i as int), pick_mutable),
                    texts(initialized@) == flat_map(fields@.take(i as int), pick_initialized),
                decreases fields.len() - i,
            {
                proof {
                    lemma_flat_map_step(fields@, pick_mutable, i as int);
                    lemma_flat_map_step(fields@, pick_initialized, i as int);
                }
                let ghost m0 = texts(mutable@);
                let ghost n0 = texts(initialized@);
                let (m, n) = field_flags(&fields[i]);
                if m {
                    mutable.push(fields[i].name.clone());
                }
                if n {
                    initialized.push(fields[i].name.clone());
                }
                assert(texts(mutable@) =~= m0 + pick_mutable(fields@[i as int]));
                assert(texts(initialized@) =~= n0 + pick_initialized(fields@[i as int]));
                i += 1;
            }
            assert(fields@.take(i as int) == fields@);
        },
        Fields::Other => {
            assert(texts(mutable@) =~= flat_map(Seq::<Field>::empty(), pick_mutable));
            assert(texts(initialized@) =~= flat_map(Seq::<Field>::empty(), pick_initialized));
        },
    }
    StructSymbols { name: item.name.clone(), mutable, initialized }
}

/// A name is recorded as mutable exactly if one of the fields has that name
/// and is declared mutable.
pub proof fn lemma_mutable_names(fields: Seq<Field>, name: Seq<char>)
    ensures
        mutable_names(fields).contains(name) <==> exists|i: int|
            0 <= i < fields.len() && (#[trigger] fields[i]).name@ == name && field_mutable(
                fields[i],
            ),
{
    let pick = |f: Field|
        if field_mutable(f) {
            seq![f.name@]
        } else {
            Seq::empty()
        };
    if mutable_names(fields).contains(name) {
        lemma_flat_map_origin(fields, pick, name);
        let i = choose|i: int| 0 <= i < fields.len() && #[trigger] pick(fields[i]).contains(name);
        assert(pick(fields[i]).len() == 1 && pick(fields[i])[0] == name);
        assert(fields[i].name@ == name && field_mutable(fields[i]));
    }
    if exists|i: int|
        0 <= i < fields.len() && (#[trigger] fields[i]).name@ == name && field_mutable(fields[i]) {
        let i = choose|i: int|
            0 <= i < fields.len() && (#[trigger] fields[i]).name@ == name && field_mutable(
                fields[i],
            );
        assert(pick(fields[i])[0] == name);
        lemma_flat_map_holds(fields, pick, i, name);
    }
}

/// A name is recorded as initialized exactly if one of the fields has that
/// name and is initialized.
pub proof fn lemma_initialized_names(fields: Seq<Field>, name: Seq<char>)
    ensures
        initialized_names(fields).contains(name) <==> exists|i: int|
            0 <= i < fields.len() && (#[trigger] fields[i]).name@ == name && field_initialized(
                fields[i],
            ),
{
    let pick = |f: Field|
        if field_initialized(f) {
            seq![f.name@]
        } else {
            Seq::empty()
        };
    if initialized_names(fields).contains(name) {
        lemma_flat_map_origin(fields, pick, name);
        let i = choose|i: int| 0 <= i < fields.len() && #[trigger] pick(fields[i]).contains(name);
        assert(pick(fields[i]).len() == 1 && pick(fields[i])[0] == name);
        assert(fields[i].name@ == name && field_initialized(fields[i]));
    }
    if exists|i: int|
        0 <= i < fields.len() && (#[trigger] fields[i]).name@ == name && field_initialized(
            fields[i],
        ) {
        let i = choose|i: int|
            0 <= i < fields.len() && (#[trigger] fields[i]).name@ == name && field_initialized(
                fields[i],
            );
        assert(pick(fields[i])[0] == name);
        lemma_flat_map_holds(fields, pick, i, name);
    }
}

} // verus!
