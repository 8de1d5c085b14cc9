//! Seed prefixes that several account structs share.

use crate::classifier::{
    is_account_attr, lemma_seed_list_nonempty, named_fields, parse_constraints, seed_prefix,
    ConstraintSet,
};
use crate::collect::{flat_map, lemma_flat_map_holds, lemma_flat_map_origin, lemma_flat_map_step};
use crate::diagnostic::{diagnostic, report, Diagnostic, DiagnosticView, Finding, FindingView};
use crate::syntax::{Attribute, Field, Fields, StructItem};
use crate::text::{
    chars_of, comes_before, lemma_text_before_total, lemma_text_before_transitive, same_text,
    text_before, texts,
};
use vstd::prelude::*;

verus! {

/// One use of a seed list: the struct and field that declare it, the first
/// element of the list, and where the declaring attribute stands.
#[derive(Debug, Clone, PartialEq, Eq)]
pub struct GlobalSeedUsage {
    pub struct_name: String,
    pub field_name: String,
    pub prefix: String,
    pub file: String,
    pub line: usize,
}

/// The mathematical value of a [`GlobalSeedUsage`].
pub struct SeedUsageView {
    pub struct_name: Seq<char>,
    pub field_name: Seq<char>,
    pub prefix: Seq<char>,
    pub file: Seq<char>,
    pub line: nat,
}

impl View for GlobalSeedUsage {
    type V = SeedUsageView;

    open spec fn view(&self) -> SeedUsageView {
        SeedUsageView {
            struct_name: self.struct_name@,
            field_name: self.field_name@,
            prefix: self.prefix@,
            file: self.file@,
            line: self.line as nat,
        }
    }
}

/// The views of a sequence of seed usages.
pub open spec fn usages(us: Seq<GlobalSeedUsage>) -> Seq<SeedUsageView> {
    us.map_values(|u: GlobalSeedUsage| u@)
}

/// The usage that the attribute `attr` of the field `field` records: one if
/// it is an `#[account(..)]` attribute with a seed list.
pub open spec fn seed_usage_at(
    attr: Attribute,
    field: Seq<char>,
    struct_name: Seq<char>,
    file: Seq<char>,
) -> Seq<SeedUsageView> {
    if is_account_attr(attr) {
        match seed_prefix(attr.tokens@) {
            Some(prefix) => seq![
                SeedUsageView {
                    struct_name,
                    field_name: field,
                    prefix,
                    file,
                    line: attr.line as nat,
                },
            ],
            None => Seq::empty(),
        }
    } else {
        Seq::empty()
    }
}

/// The usages that the field `f` records, attribute by attribute.
pub open spec fn field_seed_usages(f: Field, struct_name: Seq<char>, file: Seq<char>) -> Seq<
    SeedUsageView,
> {
    flat_map(f.attrs@, |attr: Attribute| seed_usage_at(attr, f.name@, struct_name, file))
}

/// The usages that the struct `item` records, field by field.
pub open spec fn struct_seed_usages(item: StructItem, file: Seq<char>) -> Seq<SeedUsageView> {
    flat_map(named_fields(item.fields), |f: Field| field_seed_usages(f, item.name@, file))
}

/// The usages of the prefix `prefix`, in order.
pub open spec fn group_of(all: Seq<SeedUsageView>, prefix: Seq<char>) -> Seq<SeedUsageView> {
    flat_map(
        all,
        |u: SeedUsageView|
            if u.prefix == prefix {
                seq![u]
            } else {
                Seq::empty()
            },
    )
}

/// The usages name more than one field.
pub open spec fn several_fields(group: Seq<SeedUsageView>) -> bool {
    exists|i: int, j: int|
        0 <= i < group.len() && 0 <= j < group.len() && (#[trigger] group[i]).field_name != (
        #[trigger] group[j]).field_name
}

/// The usages name more than one struct.
pub open spec fn several_structs(group: Seq<SeedUsageView>) -> bool {
    exists|i: int, j: int|
        0 <= i < group.len() && 0 <= j < group.len() && (#[trigger] group[i]).struct_name != (
        #[trigger] group[j]).struct_name
}

/// The usages of one prefix collide: they name more than one field and more
/// than one struct.
pub open spec fn collides(group: Seq<SeedUsageView>) -> bool {
    several_fields(group) && several_structs(group)
}

/// The sorted list `sorted` with `name` put in its place, unless it is there
/// already.
pub open spec fn with_name(sorted: Seq<Seq<char>>, name: Seq<char>) -> Seq<Seq<char>>
    decreases sorted.len(),
{
    if sorted.len() == 0 {
        seq![name]
    } else if sorted.last() == name {
        sorted
    } else if text_before(sorted.last(), name) {
        sorted.push(name)
    } else {
        with_name(sorted.drop_last(), name).push(sorted.last())
    }
}

/// The names of the structs that the usages name, each one once, in the
/// order of code points.
pub open spec fn struct_names(group: Seq<SeedUsageView>) -> Seq<Seq<char>>
    decreases group.len(),
{
    if group.len() == 0 {
        Seq::empty()
    } else {
        with_name(struct_names(group.drop_last()), group.last().struct_name)
    }
}

/// Usage `i` is the first usage of its prefix.
pub open spec fn is_first_prefix(all: Seq<SeedUsageView>, i: int) -> bool {
    forall|j: int| 0 <= j < i ==> (#[trigger] all[j]).prefix != all[i].prefix
}

/// The warning raised at usage `i`: one if it is the first usage of a prefix
/// whose usages collide. It is reported where that first usage stands.
pub open spec fn collision_at(all: Seq<SeedUsageView>, i: int) -> Seq<DiagnosticView> {
    let group = group_of(all, all[i].prefix);
    if is_first_prefix(all, i) && collides(group) {
        seq![
            diagnostic(
                FindingView::SeedCollision {
                    prefix: all[i].prefix,
                    structs: struct_names(group),
                    usages: group,
                },
                all[i].file,
                all[i].line,
            ),
        ]
    } else {
        Seq::empty()
    }
}

/// The warnings raised at the first `k` usages.
pub open spec fn collisions_upto(all: Seq<SeedUsageView>, k: int) -> Seq<DiagnosticView>
    decreases k,
{
    if k <= 0 {
        Seq::empty()
    } else {
        collisions_upto(all, k - 1) + collision_at(all, k - 1)
    }
}

/// The warnings for the usages `all`: one for each prefix whose usages
/// collide, in the order in which the prefixes are first used.
pub open spec fn seed_collisions(all: Seq<SeedUsageView>) -> Seq<DiagnosticView> {
    collisions_upto(all, all.len() as int)
}

#[verifier::loop_isolation(false)]
fn collect_field_seeds(
    f: &Field,
    struct_name: &String,
    filename: &str,
    out: &mut Vec<GlobalSeedUsage>,
)
    ensures
        usages(final(out)@) == usages(old(out)@) + field_seed_usages(*f, struct_name@, filename@),
{
    let ghost hook = |attr: Attribute| seed_usage_at(attr, f.name@, struct_name@, filename@);
    let ghost start = usages(out@);
    let mut i: usize = 0;
    assert(start =~= start + flat_map(f.attrs@.take(0), hook));
    while i < f.attrs.len()
        invariant
            i <= f.attrs.len(),
            usages(out@) == start + flat_map(f.attrs@.take(i as int), hook),
        decreases f.attrs.len() - i,
    {
        proof {
            lemma_flat_map_step(f.attrs@, hook, i as int);
        }
        let ghost before = usages(out@);
        let attr = &f.attrs[i];
        match parse_constraints(attr) {
            Some(ConstraintSet { seeds: Some(list), .. }) => {
                proof {
                    lemma_seed_list_nonempty(attr.tokens@);
                    assert(texts(list@).len() >= 1);
                }
                out.push(
                    GlobalSeedUsage {
                        struct_name: struct_name.clone(),
                        field_name: f.name.clone(),
                        prefix: list[0].clone(),
                        file: String::from_str(filename),
                        line: attr.line,
                    },
                );
            },
            _ => {},
        }
        assert(usages(out@) =~= before + hook(f.attrs@[i as int]));
        i += 1;
    }
    assert(f.attrs@.take(i as int) == f.attrs@);
}

/// Appends to `out` one usage for every `#[account(..)]` attribute of the
/// struct's named fields that has a seed list, in the order of the source.
#[verifier::loop_isolation(false)]
pub fn collect_seeds(item_struct: &StructItem, filename: &str, out: &mut Vec<GlobalSeedUsage>)
    ensures
        usages(final(out)@) == usages(old(out)@) + struct_seed_usages(*item_struct, filename@),
{
    let ghost hook = |f: Field| field_seed_usages(f, item_struct.name@, filename@);
    let ghost start = usages(out@);
    match &item_struct.fields {
        Fields::Named(fields) => {
            let mut i: usize = 0;
            assert(start =~= start + flat_map(fields@.take(0), hook));
            while i < fields.len()
                invariant
                    i <= fields.len(),
                    usages(out@) == start + flat_map(fields@.take(i as int), hook),
                decreases fields.len() - i,
            {
                proof {
                    lemma_flat_map_step(fields@, hook, i as int);
                }
                collect_field_seeds(&fields[i], &item_struct.name, filename, out);
                assert(usages(out@) =~= start + (flat_map(fields@.take(i as int), hook) + hook(
                    fields@[i as int],
                )));
                i += 1;
            }
            assert(fields@.take(i as int) == fields@);
        },
        Fields::Other => {
            assert(start =~= start + flat_map(Seq::<Field>::empty(), hook));
        },
    }
}

fn copy_usage(u: &GlobalSeedUsage) -> (r: GlobalSeedUsage)
    ensures
        r@ == u@,
{
    GlobalSeedUsage {
        struct_name: u.struct_name.clone(),
        field_name: u.field_name.clone(),
        prefix: u.prefix.clone(),
        file: u.file.clone(),
        line: u.line,
    }
}

#[verifier::loop_isolation(false)]
fn first_prefix(all: &Vec<GlobalSeedUsage>, i: usize) -> (b: bool)
    requires
        i < all.len(),
    ensures
        b == is_first_prefix(usages(all@), i as int),
{
    let mut j: usize = 0;
    while j < i
        invariant
            j <= i,
            forall|k: int| 0 <= k < j ==> (#[trigger] usages(all@)[k]).prefix != usages(
                all@,
            )[i as int].prefix,
        decreases i - j,
    {
        if same_text(&all[j].prefix, &all[i].prefix) {
            assert(usages(all@)[j as int].prefix == usages(all@)[i as int].prefix);
            return false;
        }
        j += 1;
    }
    true
}

#[verifier::loop_isolation(false)]
fn group_with(all: &Vec<GlobalSeedUsage>, prefix: &String) -> (group: Vec<GlobalSeedUsage>)
    ensures
        usages(group@) == group_of(usages(all@), prefix@),
{
    let ghost hook = |u: SeedUsageView|
        if u.prefix == prefix@ {
            seq![u]
        } else {
            Seq::empty()
        };
    let mut group: Vec<GlobalSeedUsage> = Vec::new();
    let mut j: usize = 0;
    assert(usages(group@) =~= flat_map(usages(all@).take(0), hook));
    while j < all.len()
        invariant
            j <= all.len(),
            usages(group@) == flat_map(usages(all@).take(j as int), hook),
        decreases all.len() - j,
    {
        proof {
            lemma_flat_map_step(usages(all@), hook, j as int);
        }
        let ghost before = usages(group@);
        if same_text(&all[j].prefix, prefix) {
            group.push(copy_usage(&all[j]));
        }
        assert(usages(group@) =~= before + hook(usages(all@)[j as int]));
        j += 1;
    }
    assert(usages(all@).take(j as int) == usages(all@));
    group
}

#[verifier::loop_isolation(false)]
fn names_several_fields(group: &Vec<GlobalSeedUsage>) -> (b: bool)
    ensures
        b == several_fields(usages(group@)),
{
    let mut j: usize = 1;
    while j < group.len()
        invariant
            1 <= j,
            forall|k: int|
                0 <= k < j && k < group.len() ==> (#[trigger] usages(group@)[k]).field_name
                    == usages(group@)[0].field_name,
        decreases group.len() - j,
    {
        if !same_text(&group[j].field_name, &group[0].field_name) {
            assert(usages(group@)[j as int].field_name != usages(group@)[0].field_name);
            return true;
        }
        j += 1;
    }
    false
}

#[verifier::loop_isolation(false)]
fn names_several_structs(group: &Vec<GlobalSeedUsage>) -> (b: bool)
    ensures
        b == several_structs(usages(group@)),
{
    let mut j: usize = 1;
    while j < group.len()
        invariant
            1 <= j,
            forall|k: int|
                0 <= k < j && k < group.len() ==> (#[trigger] usages(group@)[k]).struct_name
                    == usages(group@)[0].struct_name,
        decreases group.len() - j,
    {
        if !same_text(&group[j].struct_name, &group[0].struct_name) {
            assert(usages(group@)[j as int].struct_name != usages(group@)[0].struct_name);
            return true;
        }
        j += 1;
    }
    false
}

#[verifier::loop_isolation(false)]
fn put_name(sorted: &mut Vec<String>, name: &String)
    ensures
        texts(final(sorted)@) == with_name(texts(old(sorted)@), name@),
{
    let ghost whole = texts(sorted@);
    let key = chars_of(name.as_str());
    let mut i: usize = sorted.len();
    assert(whole.take(i as int) == whole);
    assert(whole.skip(i as int) =~= Seq::<Seq<char>>::empty());
    assert(with_name(whole, name@) + Seq::<Seq<char>>::empty() =~= with_name(whole, name@));
    while i > 0
        invariant
            i <= sorted.len(),
            sorted@ == old(sorted)@,
            with_name(whole, name@) == with_name(whole.take(i as int), name@) + whole.skip(
                i as int,
            ),
        decreases i,
    {
        let ghost shorter = whole.take(i as int);
        assert(shorter.last() == whole[i as int - 1]);
        assert(shorter.drop_last() == whole.take(i as int - 1));
        if same_text(&sorted[i - 1], name) {
            assert(shorter + whole.skip(i as int) =~= whole);
            return ;
        }
        let here = chars_of(sorted[i - 1].as_str());
        if comes_before(&here, &key) {
            sorted.insert(i, name.clone());
            assert(texts(sorted@) =~= shorter.push(name@) + whole.skip(i as int));
            return ;
        }
        assert(with_name(shorter.drop_last(), name@).push(shorter.last()) + whole.skip(i as int)
            =~= with_name(shorter.drop_last(), name@) + whole.skip(i as int - 1));
        i -= 1;
    }
    sorted.insert(0, name.clone());
    assert(texts(sorted@) =~= seq![name@] + whole.skip(0));
}

#[verifier::loop_isolation(false)]
fn sorted_struct_names(group: &Vec<GlobalSeedUsage>) -> (names: Vec<String>)
    ensures
        texts(names@) == struct_names(usages(group@)),
{
    let mut names: Vec<String> = Vec::new();
    let mut j: usize = 0;
    assert(texts(names@) =~= struct_names(usages(group@).take(0)));
    while j < group.len()
        invariant
            j <= group.len(),
            texts(names@) == struct_names(usages(group@).take(j as int)),
        decreases group.len() - j,
    {
        assert(usages(group@).take(j as int + 1).drop_last() == usages(group@).take(j as int));
        assert(usages(group@).take(j as int + 1).last() == group@[j as int]@);
        put_name(&mut names, &group[j].struct_name);
        j += 1;
    }
    assert(usages(group@).take(j as int) == usages(group@));
    names
}

/// Warns about every seed prefix whose usages name more than one field and
/// more than one struct. Each warning lists the usages of the prefix; the
/// warnings come in the order in which the prefixes are first used.
#[verifier::loop_isolation(false)]
pub fn check_cross_struct_seeds(all: &Vec<GlobalSeedUsage>) -> (out: Vec<Diagnostic>)
    ensures
        report(out@) == seed_collisions(usages(all@)),
{
    let mut out: Vec<Diagnostic> = Vec::new();
    assert(report(out@) =~= Seq::<DiagnosticView>::empty());
    let mut i: usize = 0;
    while i < all.len()
        invariant
            i <= all.len(),
            report(out@) == collisions_upto(usages(all@), i as int),
        decreases all.len() - i,
    {
        let ghost before = report(out@);
        if first_prefix(all, i) {
            let group = group_with(all, &all[i].prefix);
            if names_several_fields(&group) && names_several_structs(&group) {
                let structs = sorted_struct_names(&group);
                out.push(
                    Diagnostic::new(
                        Finding::SeedCollision { prefix: all[i].prefix.clone(), structs, usages: group },
                        all[i].file.as_str(),
                        all[i].line,
                    ),
                );
            }
        }
        assert(report(out@) =~= before + collision_at(usages(all@), i as int));
        i += 1;
    }
    out
}

/// Every usage in the group of a prefix is one of the usages, and has that
/// prefix.
pub proof fn lemma_group_members(all: Seq<SeedUsageView>, prefix: Seq<char>, k: int)
    requires
        0 <= k < group_of(all, prefix).len(),
    ensures
        group_of(all, prefix)[k].prefix == prefix,
        all.contains(group_of(all, prefix)[k]),
{
    let hook = |u: SeedUsageView|
        if u.prefix == prefix {
            seq![u]
        } else {
            Seq::empty()
        };
    let member = group_of(all, prefix)[k];
    assert(flat_map(all, hook).contains(member));
    lemma_flat_map_origin(all, hook, member);
    let i = choose|i: int| 0 <= i < all.len() && #[trigger] hook(all[i]).contains(member);
    assert(hook(all[i]).len() == 1 && hook(all[i])[0] == member);
    assert(all[i] == member);
}

/// Where no usage collides at any index, there are no warnings.
proof fn lemma_no_collisions(all: Seq<SeedUsageView>, k: int)
    requires
        k <= all.len(),
        forall|i: int| 0 <= i < all.len() ==> !collides(group_of(all, (#[trigger] all[i]).prefix)),
    ensures
        collisions_upto(all, k) == Seq::<DiagnosticView>::empty(),
    decreases k,
{
    if k > 0 {
        lemma_no_collisions(all, k - 1);
        assert(!collides(group_of(all, all[k - 1].prefix)));
    }
}

/// Usages of a prefix that all stand in one struct raise no warning: a
/// collision takes two structs.
pub proof fn lemma_one_struct_never_collides(all: Seq<SeedUsageView>)
    requires
        forall|i: int, j: int|
            0 <= i < all.len() && 0 <= j < all.len() && (#[trigger] all[i]).prefix == (
            #[trigger] all[j]).prefix ==> all[i].struct_name == all[j].struct_name,
    ensures
        seed_collisions(all) == Seq::<DiagnosticView>::empty(),
{
    assert forall|i: int| 0 <= i < all.len() implies !collides(
        group_of(all, (#[trigger] all[i]).prefix),
    ) by {
        let prefix = all[i].prefix;
        let group = group_of(all, prefix);
        if several_structs(group) {
            let (a, b) = choose|a: int, b: int|
                0 <= a < group.len() && 0 <= b < group.len() && (#[trigger] group[a]).struct_name
                    != (#[trigger] group[b]).struct_name;
            lemma_group_members(all, prefix, a);
            lemma_group_members(all, prefix, b);
            let x = choose|x: int| 0 <= x < all.len() && all[x] == group[a];
            let y = choose|y: int| 0 <= y < all.len() && all[y] == group[b];
            assert(all[x].struct_name == all[y].struct_name);
        }
    }
    lemma_no_collisions(all, all.len() as int);
}

/// Usages of a prefix that all name the same field raise no warning, in
/// however many structs they stand: a collision takes two field names.
pub proof fn lemma_one_field_name_never_collides(all: Seq<SeedUsageView>)
    requires
        forall|i: int, j: int|
            0 <= i < all.len() && 0 <= j < all.len() && (#[trigger] all[i]).prefix == (
            #[trigger] all[j]).prefix ==> all[i].field_name == all[j].field_name,
    ensures
        seed_collisions(all) == Seq::<DiagnosticView>::empty(),
{
    assert forall|i: int| 0 <= i < all.len() implies !collides(
        group_of(all, (#[trigger] all[i]).prefix),
    ) by {
        let prefix = all[i].prefix;
        let group = group_of(all, prefix);
        if several_fields(group) {
            let (a, b) = choose|a: int, b: int|
                0 <= a < group.len() && 0 <= b < group.len() && (#[trigger] group[a]).field_name
                    != (#[trigger] group[b]).field_name;
            lemma_group_members(all, prefix, a);
            lemma_group_members(all, prefix, b);
            let x = choose|x: int| 0 <= x < all.len() && all[x] == group[a];
            let y = choose|y: int| 0 <= y < all.len() && all[y] == group[b];
            assert(all[x].field_name == all[y].field_name);
        }
    }
    lemma_no_collisions(all, all.len() as int);
}

/// Each name comes before the names after it, so no name occurs twice.
pub open spec fn strictly_sorted(names: Seq<Seq<char>>) -> bool {
    forall|i: int, j: int| 0 <= i < j < names.len() ==> text_before(names[i], names[j])
}

/// Putting a name into a sorted list keeps the list sorted and adds that
/// name and no other.
pub proof fn lemma_with_name(sorted: Seq<Seq<char>>, name: Seq<char>)
    requires
        strictly_sorted(sorted),
    ensures
        strictly_sorted(with_name(sorted, name)),
        forall|x: Seq<char>|
            #[trigger] with_name(sorted, name).contains(x) <==> (sorted.contains(x) || x == name),
    decreases sorted.len(),
{
    let result = with_name(sorted, name);
    if sorted.len() == 0 {
        assert(result[0] == name);
    } else if sorted.last() == name {
        assert(sorted[sorted.len() - 1] == name);
    } else if text_before(sorted.last(), name) {
        assert forall|i: int, j: int| 0 <= i < j < result.len() implies text_before(
            result[i],
            result[j],
        ) by {
            if j == sorted.len() {
                if i < sorted.len() - 1 {
                    lemma_text_before_transitive(sorted[i], sorted.last(), name);
                }
            }
        }
        assert forall|x: Seq<char>| #[trigger]
            result.contains(x) <==> (sorted.contains(x) || x == name) by {
            if result.contains(x) {
                let k = choose|k: int| 0 <= k < result.len() && result[k] == x;
                if k < sorted.len() {
                    assert(sorted[k] == x);
                }
            }
            if sorted.contains(x) {
                let k = choose|k: int| 0 <= k < sorted.len() && sorted[k] == x;
                assert(result[k] == x);
            }
            if x == name {
                assert(result[sorted.len() as int] == x);
            }
        }
    } else {
        let front = sorted.drop_last();
        let last = sorted.last();
        assert forall|i: int, j: int| 0 <= i < j < front.len() implies text_before(
            front[i],
            front[j],
        ) by {
            assert(front[i] == sorted[i] && front[j] == sorted[j]);
        }
        lemma_with_name(front, name);
        lemma_text_before_total(last, name);
        let inner = with_name(front, name);
        assert forall|i: int, j: int| 0 <= i < j < result.len() implies text_before(
            result[i],
            result[j],
        ) by {
            if j == inner.len() {
                assert(inner.contains(inner[i]));
                if front.contains(inner[i]) {
                    let k = choose|k: int| 0 <= k < front.len() && front[k] == inner[i];
                    assert(sorted[k] == inner[i]);
                }
            } else {
                assert(result[i] == inner[i] && result[j] == inner[j]);
            }
        }
        assert forall|x: Seq<char>| #[trigger]
            result.contains(x) <==> (sorted.contains(x) || x == name) by {
            if result.contains(x) {
                let k = choose|k: int| 0 <= k < result.len() && result[k] == x;
                if k < inner.len() {
                    assert(inner.contains(inner[k]));
                    if front.contains(x) {
                        let m = choose|m: int| 0 <= m < front.len() && front[m] == x;
                        assert(sorted[m] == x);
                    }
                } else {
                    assert(sorted[sorted.len() - 1] == x);
                }
            }
            if sorted.contains(x) {
                let k = choose|k: int| 0 <= k < sorted.len() && sorted[k] == x;
                if k < front.len() {
                    assert(front[k] == x);
                    assert(front.contains(x));
                    assert(inner.contains(x));
                    let m = choose|m: int| 0 <= m < inner.len() && inner[m] == x;
                    assert(result[m] == x);
                } else {
                    assert(result[inner.len() as int] == x);
                }
            }
            if x == name {
                assert(inner.contains(x));
                let m = choose|m: int| 0 <= m < inner.len() && inner[m] == x;
                assert(result[m] == x);
            }
        }
    }
}

/// The struct names listed in a warning are in the order of code points,
/// each one once, and they are the names of the structs of the usages.
pub proof fn lemma_struct_names(group: Seq<SeedUsageView>)
    ensures
        strictly_sorted(struct_names(group)),
        forall|x: Seq<char>|
            #[trigger] struct_names(group).contains(x) <==> exists|i: int|
                0 <= i < group.len() && (#[trigger] group[i]).struct_name == x,
    decreases group.len(),
{
    if group.len() > 0 {
        let front = group.drop_last();
        lemma_struct_names(front);
        lemma_with_name(struct_names(front), group.last().struct_name);
        assert forall|x: Seq<char>| #[trigger]
            struct_names(group).contains(x) <==> exists|i: int|
                0 <= i < group.len() && (#[trigger] group[i]).struct_name == x by {
            if exists|i: int| 0 <= i < front.len() && (#[trigger] front[i]).struct_name == x {
                assert(struct_names(front).contains(x));
            }
            if x == group.last().struct_name {
                assert(struct_names(group).contains(x));
            }
            if struct_names(group).contains(x) {
                if struct_names(front).contains(x) {
                    let i = choose|i: int|
                        0 <= i < front.len() && (#[trigger] front[i]).struct_name == x;
                    assert(group[i].struct_name == x);
                } else {
                    assert(group[group.len() - 1].struct_name == x);
                }
            }
            if exists|i: int| 0 <= i < group.len() && (#[trigger] group[i]).struct_name == x {
                let i = choose|i: int|
                    0 <= i < group.len() && (#[trigger] group[i]).struct_name == x;
                if i < front.len() {
                    assert(front[i].struct_name == x);
                }
            }
        }
    } else {
        assert forall|x: Seq<char>| !(#[trigger] struct_names(group).contains(x)) by {}
    }
}

/// A prefix that two usages share, where they name different fields and two
/// usages of it stand in different structs, raises a warning.
pub proof fn lemma_collision_is_reported(all: Seq<SeedUsageView>, a: int, b: int, c: int, d: int)
    requires
        0 <= a < all.len(),
        0 <= b < all.len(),
        0 <= c < all.len(),
        0 <= d < all.len(),
        all[a].prefix == all[b].prefix,
        all[a].prefix == all[c].prefix,
        all[a].prefix == all[d].prefix,
        all[a].field_name != all[b].field_name,
        all[c].struct_name != all[d].struct_name,
    ensures
        exists|k: int|
            0 <= k < seed_collisions(all).len() && (#[trigger] seed_collisions(all)[k]).finding
                is SeedCollision && seed_collisions(all)[k].finding->prefix == all[a].prefix,
{
    let prefix = all[a].prefix;
    let group = group_of(all, prefix);
    let hook = |u: SeedUsageView|
        if u.prefix == prefix {
            seq![u]
        } else {
            Seq::empty()
        };
    assert(hook(all[a])[0] == all[a]);
    assert(hook(all[b])[0] == all[b]);
    assert(hook(all[c])[0] == all[c]);
    assert(hook(all[d])[0] == all[d]);
    lemma_flat_map_holds(all, hook, a, all[a]);
    lemma_flat_map_holds(all, hook, b, all[b]);
    lemma_flat_map_holds(all, hook, c, all[c]);
    lemma_flat_map_holds(all, hook, d, all[d]);
    let ga = choose|k: int| 0 <= k < group.len() && group[k] == all[a];
    let gb = choose|k: int| 0 <= k < group.len() && group[k] == all[b];
    let gc = choose|k: int| 0 <= k < group.len() && group[k] == all[c];
    let gd = choose|k: int| 0 <= k < group.len() && group[k] == all[d];
    assert(group[ga].field_name != group[gb].field_name);
    assert(group[gc].struct_name != group[gd].struct_name);
    assert(collides(group));
    let first = first_with_prefix(all, prefix, a);
    lemma_first_with_prefix(all, prefix, a);
    assert(collision_at(all, first).len() == 1);
    lemma_collision_kept(all, first, all.len() as int);
    let whole = seed_collisions(all);
    let m = choose|m: int|
        0 <= m < collisions_upto(all, all.len() as int).len() && (#[trigger] collisions_upto(
            all,
            all.len() as int,
        )[m]) == collision_at(all, first)[0];
    assert(whole[m].finding is SeedCollision);
    assert(whole[m].finding->prefix == prefix);
}

/// The least index at which the prefix occurs, searching down from `upto`.
spec fn first_with_prefix(all: Seq<SeedUsageView>, prefix: Seq<char>, upto: int) -> int
    decreases upto,
{
    if upto <= 0 {
        0
    } else if exists|j: int| 0 <= j < upto && (#[trigger] all[j]).prefix == prefix {
        first_with_prefix(
            all,
            prefix,
            choose|j: int| 0 <= j < upto && (#[trigger] all[j]).prefix == prefix,
        )
    } else {
        upto
    }
}

proof fn lemma_first_with_prefix(all: Seq<SeedUsageView>, prefix: Seq<char>, upto: int)
    requires
        0 <= upto < all.len(),
        all[upto].prefix == prefix,
    ensures
        0 <= first_with_prefix(all, prefix, upto) <= upto,
        all[first_with_prefix(all, prefix, upto)].prefix == prefix,
        is_first_prefix(all, first_with_prefix(all, prefix, upto)),
    decreases upto,
{
    if upto > 0 && exists|j: int| 0 <= j < upto && (#[trigger] all[j]).prefix == prefix {
        let j = choose|j: int| 0 <= j < upto && (#[trigger] all[j]).prefix == prefix;
        lemma_first_with_prefix(all, prefix, j);
    }
}

proof fn lemma_collision_kept(all: Seq<SeedUsageView>, i: int, k: int)
    requires
        0 <= i < k <= all.len(),
        collision_at(all, i).len() == 1,
    ensures
        exists|m: int|
            0 <= m < collisions_upto(all, k).len() && (#[trigger] collisions_upto(all, k)[m])
                == collision_at(all, i)[0],
    decreases k,
{
    let front = collisions_upto(all, k - 1);
    let here = collision_at(all, k - 1);
    let whole = collisions_upto(all, k);
    assert(whole == front + here);
    if i == k - 1 {
        assert(whole[front.len() as int] == here[0]);
    } else {
        lemma_collision_kept(all, i, k - 1);
        let m = choose|m: int| 0 <= m < front.len() && (#[trigger] front[m]) == collision_at(
            all,
            i,
        )[0];
        assert(whole[m] == front[m]);
    }
}

} // verus!
