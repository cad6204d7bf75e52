//! The metadata of a canister module: custom sections named `icp:public`
//! or `icp:private` and the name of the entry.

use vstd::prelude::*;
use crate::module::{CustomSection, CustomSectionView, Module, ModuleView};
use crate::search::{
    first_index, is_first, lemma_first_index, lemma_first_index_found, lemma_first_index_none,
};
use crate::strings::{concat, starts_with, str_eq};

verus! {

/// Who may read an entry of the metadata.
#[derive(Clone, Copy, Debug, PartialEq, Eq, Structural)]
pub enum Kind {
    Public,
    Private,
}

/// The name of the section that holds the public entry `name`.
pub open spec fn public_name(name: Seq<char>) -> Seq<char> {
    "icp:public "@ + name
}

/// The name of the section that holds the private entry `name`.
pub open spec fn private_name(name: Seq<char>) -> Seq<char> {
    "icp:private "@ + name
}

/// The name of the section that holds the entry `name` of the given
/// visibility.
pub open spec fn section_name(visibility: Kind, name: Seq<char>) -> Seq<char> {
    match visibility {
        Kind::Public => public_name(name),
        Kind::Private => private_name(name),
    }
}

/// The condition on a section of being called `name`.
pub open spec fn is_called(name: Seq<char>) -> spec_fn(CustomSectionView) -> bool {
    |s: CustomSectionView| s.name == name
}

/// The condition on a section of holding the entry `name`, public or
/// private.
pub open spec fn holds_entry(name: Seq<char>) -> spec_fn(CustomSectionView) -> bool {
    |s: CustomSectionView| s.name == public_name(name) || s.name == private_name(name)
}

/// The sections without the first one called `name`.
pub open spec fn without_section(customs: Seq<CustomSectionView>, name: Seq<char>) -> Seq<
    CustomSectionView,
> {
    match first_index(customs, is_called(name)) {
        Some(i) => customs.remove(i),
        None => customs,
    }
}

/// The sections without the first public and the first private section of
/// the entry `name`.
pub open spec fn without_entry(customs: Seq<CustomSectionView>, name: Seq<char>) -> Seq<
    CustomSectionView,
> {
    without_section(without_section(customs, public_name(name)), private_name(name))
}

/// The module without the entry `name`.
pub open spec fn removed(m: ModuleView, name: Seq<char>) -> ModuleView {
    ModuleView { customs: without_entry(m.customs, name), ..m }
}

/// The module with the entry `name` set to `data`: what there was under
/// either visibility is removed, and the new section comes last.
pub open spec fn added(m: ModuleView, visibility: Kind, name: Seq<char>, data: Seq<u8>) -> ModuleView {
    removed(m, name).with_custom(
        CustomSectionView { name: section_name(visibility, name), data },
    )
}

/// The content of the entry `name`: that of the first section that holds it
/// under either visibility.
pub open spec fn entry(m: ModuleView, name: Seq<char>) -> Option<Seq<u8>> {
    match first_index(m.customs, holds_entry(name)) {
        Some(i) => Some(m.customs[i].data),
        None => None,
    }
}

/// The names of the sections that begin with `icp:`, in their order.
pub open spec fn listed(customs: Seq<CustomSectionView>) -> Seq<Seq<char>>
    decreases customs.len(),
{
    if customs.len() == 0 {
        Seq::empty()
    } else if "icp:"@.is_prefix_of(customs.last().name) {
        listed(customs.drop_last()).push(customs.last().name)
    } else {
        listed(customs.drop_last())
    }
}

fn remove_section(m: &mut Module, name: &str)
    ensures
        final(m)@ == (ModuleView { customs: without_section(old(m)@.customs, name@), ..old(m)@ }),
{
    let ghost p = is_called(name@);
    let mut i: usize = 0;
    while i < m.customs.len()
        invariant
            i <= m.customs.len(),
            *m == *old(m),
            p == is_called(name@),
            forall|j: int| 0 <= j < i ==> !p(#[trigger] m@.customs[j]),
        decreases m.customs.len() - i,
    {
        if str_eq(m.customs[i].name.as_str(), name) {
            proof {
                assert(p(m@.customs[i as int]));
                assert(is_first(m@.customs, p, i as int));
                lemma_first_index_found(m@.customs, p, i as int);
            }
            let _section = m.customs.remove(i);
            assert(m@.customs =~= old(m)@.customs.remove(i as int));
            return;
        }
        i += 1;
    }
    proof {
        lemma_first_index_none(m@.customs, p);
    }
}

/// Sets the entry `name` of the metadata to `data`, with the given
/// visibility.
pub fn add_metadata(m: &mut Module, visibility: Kind, name: &str, data: Vec<u8>)
    ensures
        final(m)@ == added(old(m)@, visibility, name@, data@),
{
    let public = concat("icp:public ", name);
    let private = concat("icp:private ", name);
    remove_section(m, public.as_str());
    remove_section(m, private.as_str());
    let full = match visibility {
        Kind::Public => public,
        Kind::Private => private,
    };
    m.add_custom(CustomSection { name: full, data });
}

/// Removes the entry `name` from the metadata.
pub fn remove_metadata(m: &mut Module, name: &str)
    ensures
        final(m)@ == removed(old(m)@, name@),
{
    let public = concat("icp:public ", name);
    let private = concat("icp:private ", name);
    remove_section(m, public.as_str());
    remove_section(m, private.as_str());
}

/// The texts of a list of names.
pub open spec fn names_of(v: Vec<&str>) -> Seq<Seq<char>> {
    Seq::new(v.len() as nat, |i: int| v[i]@)
}

/// The names of the sections of metadata.
pub fn list_metadata(m: &Module) -> (names: Vec<&str>)
    ensures
        names_of(names) == listed(m@.customs),
{
    let mut names: Vec<&str> = Vec::new();
    let mut i: usize = 0;
    assert(m@.customs.subrange(0, 0) =~= Seq::empty());
    assert(names_of(names) =~= Seq::empty());
    while i < m.customs.len()
        invariant
            i <= m.customs.len(),
            names_of(names) == listed(m@.customs.subrange(0, i as int)),
        decreases m.customs.len() - i,
    {
        let name = m.customs[i].name.as_str();
        proof {
            assert(m@.customs.subrange(0, i + 1).drop_last() =~= m@.customs.subrange(0, i as int));
            assert(m@.customs.subrange(0, i + 1).last().name == name@);
        }
        if starts_with(name, "icp:") {
            let ghost before = names_of(names);
            names.push(name);
            assert(names_of(names) =~= before.push(name@));
        }
        i += 1;
    }
    assert(m@.customs.subrange(0, i as int) =~= m@.customs);
    names
}

/// The content of the entry `name` of the metadata, if there is one.
pub fn get_metadata<'a>(m: &'a Module, name: &str) -> (r: Option<&'a [u8]>)
    ensures
        r is Some == entry(m@, name@) is Some,
        r matches Some(data) ==> entry(m@, name@) == Some(data@),
{
    let public = concat("icp:public ", name);
    let private = concat("icp:private ", name);
    let ghost p = holds_entry(name@);
    let mut i: usize = 0;
    while i < m.customs.len()
        invariant
            i <= m.customs.len(),
            p == holds_entry(name@),
            public@ == public_name(name@),
            private@ == private_name(name@),
            forall|j: int| 0 <= j < i ==> !p(#[trigger] m@.customs[j]),
        decreases m.customs.len() - i,
    {
        let section = &m.customs[i];
        if str_eq(section.name.as_str(), public.as_str()) || str_eq(
            section.name.as_str(),
            private.as_str(),
        ) {
            proof {
                assert(p(m@.customs[i as int]));
                assert(is_first(m@.customs, p, i as int));
                lemma_first_index_found(m@.customs, p, i as int);
            }
            return Some(section.data.as_slice());
        }
        i += 1;
    }
    proof {
        lemma_first_index_none(m@.customs, p);
    }
    None
}

/// No two sections are called `name`.
pub open spec fn at_most_one(customs: Seq<CustomSectionView>, name: Seq<char>) -> bool {
    forall|i: int, j: int|
        0 <= i < customs.len() && 0 <= j < customs.len() && (#[trigger] customs[i]).name == name
            && (#[trigger] customs[j]).name == name ==> i == j
}

/// No section is called `name`.
pub open spec fn none_called(customs: Seq<CustomSectionView>, name: Seq<char>) -> bool {
    forall|i: int| 0 <= i < customs.len() ==> (#[trigger] customs[i]).name != name
}

/// How many of `names` are the public or the private name of the entry
/// `name`.
pub open spec fn count_entry(names: Seq<Seq<char>>, name: Seq<char>) -> nat
    decreases names.len(),
{
    if names.len() == 0 {
        0
    } else {
        count_entry(names.drop_last(), name) + (if names.last() == public_name(name)
            || names.last() == private_name(name) {
            1nat
        } else {
            0nat
        })
    }
}

/// Removing the one section called `name` leaves none of that name, and
/// none of another name that was not there.
proof fn lemma_without_section(customs: Seq<CustomSectionView>, name: Seq<char>, other: Seq<char>)
    requires
        at_most_one(customs, name),
    ensures
        none_called(without_section(customs, name), name),
        none_called(customs, other) ==> none_called(without_section(customs, name), other),
        at_most_one(customs, other) ==> at_most_one(without_section(customs, name), other),
{
    let p = is_called(name);
    lemma_first_index(customs, p);
    let r = without_section(customs, name);
    match first_index(customs, p) {
        Some(i) => {
            assert forall|k: int| 0 <= k < r.len() implies (#[trigger] r[k]).name != name by {
                if k < i {
                    assert(r[k] == customs[k]);
                    assert(!p(customs[k]));
                } else {
                    assert(r[k] == customs[k + 1]);
                    if customs[k + 1].name == name {
                        assert(customs[i].name == name);
                    }
                }
            }
            if none_called(customs, other) {
                assert forall|k: int| 0 <= k < r.len() implies (#[trigger] r[k]).name != other by {
                    if k < i {
                        assert(r[k] == customs[k]);
                    } else {
                        assert(r[k] == customs[k + 1]);
                    }
                }
            }
            if at_most_one(customs, other) {
                assert forall|a: int, b: int|
                    0 <= a < r.len() && 0 <= b < r.len() && (#[trigger] r[a]).name == other && (
                    #[trigger] r[b]).name == other implies a == b by {
                    let a2 = if a < i {
                        a
                    } else {
                        a + 1
                    };
                    let b2 = if b < i {
                        b
                    } else {
                        b + 1
                    };
                    assert(r[a] == customs[a2]);
                    assert(r[b] == customs[b2]);
                }
            }
        },
        None => {
            assert forall|k: int| 0 <= k < r.len() implies (#[trigger] r[k]).name != name by {
                assert(!p(customs[k]));
            }
        },
    }
}

/// The names of the sections that hold an entry begin with `icp:`, and the
/// public name of an entry is not its private name.
pub proof fn lemma_section_names(name: Seq<char>)
    ensures
        "icp:"@.is_prefix_of(public_name(name)),
        "icp:"@.is_prefix_of(private_name(name)),
        public_name(name) != private_name(name),
{
    reveal_strlit("icp:");
    reveal_strlit("icp:public ");
    reveal_strlit("icp:private ");
    assert(public_name(name)[5] == 'u');
    assert(private_name(name)[5] == 'r');
    assert("icp:"@ =~= public_name(name).subrange(0, 4));
    assert("icp:"@ =~= private_name(name).subrange(0, 4));
}

/// Where no section holds the entry, the list of names has none for it.
proof fn lemma_count_none(customs: Seq<CustomSectionView>, name: Seq<char>)
    requires
        none_called(customs, public_name(name)),
        none_called(customs, private_name(name)),
    ensures
        count_entry(listed(customs), name) == 0,
    decreases customs.len(),
{
    if customs.len() > 0 {
        let rest = customs.drop_last();
        assert forall|i: int| 0 <= i < rest.len() implies (#[trigger] rest[i]).name != public_name(
            name,
        ) by {
            assert(rest[i] == customs[i]);
        }
        assert forall|i: int| 0 <= i < rest.len() implies (#[trigger] rest[i]).name
            != private_name(name) by {
            assert(rest[i] == customs[i]);
        }
        lemma_count_none(rest, name);
        let last = customs[customs.len() - 1];
        assert(last == customs.last());
        if "icp:"@.is_prefix_of(last.name) {
            assert(listed(customs).drop_last() =~= listed(rest));
        }
    }
}

/// After an entry is set, it is there with the data it was set to, and the
/// list of names has exactly one name for it: provided that the module had
/// at most one public and at most one private section for the entry.
pub proof fn lemma_add_then_get(m: ModuleView, visibility: Kind, name: Seq<char>, data: Seq<u8>)
    requires
        at_most_one(m.customs, public_name(name)),
        at_most_one(m.customs, private_name(name)),
    ensures
        entry(added(m, visibility, name, data), name) == Some(data),
        count_entry(listed(added(m, visibility, name, data).customs), name) == 1,
{
    let public = public_name(name);
    let private = private_name(name);
    let c1 = without_section(m.customs, public);
    lemma_without_section(m.customs, public, private);
    lemma_without_section(c1, private, public);
    let c2 = without_entry(m.customs, name);
    let section = CustomSectionView { name: section_name(visibility, name), data };
    let c3 = c2.push(section);
    assert(added(m, visibility, name, data).customs == c3);
    let p = holds_entry(name);
    let n = c2.len() as int;
    assert(c3[n] == section);
    assert forall|j: int| 0 <= j < n implies !p(#[trigger] c3[j]) by {
        assert(c3[j] == c2[j]);
    }
    assert(is_first(c3, p, n));
    lemma_first_index_found(c3, p, n);
    lemma_section_names(name);
    lemma_count_none(c2, name);
    assert(c3.drop_last() =~= c2);
    assert(listed(c3).drop_last() =~= listed(c2));
}

/// After an entry is removed, it is not there: provided that the module had
/// at most one public and at most one private section for the entry.
pub proof fn lemma_remove_then_get(m: ModuleView, name: Seq<char>)
    requires
        at_most_one(m.customs, public_name(name)),
        at_most_one(m.customs, private_name(name)),
    ensures
        entry(removed(m, name), name) is None,
{
    let public = public_name(name);
    let private = private_name(name);
    let c1 = without_section(m.customs, public);
    lemma_without_section(m.customs, public, private);
    lemma_without_section(c1, private, public);
    let c2 = without_entry(m.customs, name);
    let p = holds_entry(name);
    assert forall|j: int| 0 <= j < c2.len() implies !p(#[trigger] c2[j]) by {}
    lemma_first_index_none(c2, p);
}

} // verus!
