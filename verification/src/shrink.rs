//! Stripping a module of what a canister does not need.

use vstd::prelude::*;
use crate::metadata::listed;
use crate::module::{CustomSectionView, Module, ModuleView};
use crate::strings::starts_with;

verus! {

/// The sections whose names begin with `icp:`, in their order.
pub open spec fn kept_sections(customs: Seq<CustomSectionView>) -> Seq<CustomSectionView>
    decreases customs.len(),
{
    if customs.len() == 0 {
        Seq::empty()
    } else if "icp:"@.is_prefix_of(customs.last().name) {
        kept_sections(customs.drop_last()).push(customs.last())
    } else {
        kept_sections(customs.drop_last())
    }
}

/// The module without the custom sections that are no metadata.
pub open spec fn shrunk(m: ModuleView) -> ModuleView {
    ModuleView { customs: kept_sections(m.customs), ..m }
}

/// Removes the custom sections whose names do not begin with `icp:`.
/// Functions and other items that nothing refers to are for a pass of
/// garbage collection to remove.
pub fn shrink(m: &mut Module)
    ensures
        final(m)@ == shrunk(old(m)@),
{
    let ghost all = m@.customs;
    let ghost mut j: int = 0;
    let mut i: usize = 0;
    assert(all.subrange(0, 0) =~= Seq::empty());
    assert(m@.customs =~= kept_sections(all.subrange(0, 0)) + all.subrange(0, all.len() as int));
    while i < m.customs.len()
        invariant
            all == old(m)@.customs,
            0 <= j <= all.len(),
            m@ == (ModuleView { customs: m@.customs, ..old(m)@ }),
            i == kept_sections(all.subrange(0, j)).len(),
            m@.customs == kept_sections(all.subrange(0, j)) + all.subrange(j, all.len() as int),
        decreases all.len() - j,
    {
        let ghost before = m@.customs;
        proof {
            assert(before[i as int] == all[j]);
            assert(all.subrange(0, j + 1).drop_last() =~= all.subrange(0, j));
            assert(all.subrange(0, j + 1).last() == all[j]);
        }
        if starts_with(m.customs[i].name.as_str(), "icp:") {
            i += 1;
        } else {
            let _section = m.customs.remove(i);
            assert(m@.customs =~= before.remove(i as int));
        }
        proof {
            j = j + 1;
            assert(m@.customs =~= kept_sections(all.subrange(0, j)) + all.subrange(
                j,
                all.len() as int,
            ));
        }
    }
    proof {
        assert(j == all.len());
        assert(all.subrange(0, j) =~= all);
        assert(m@.customs =~= kept_sections(all));
    }
}

/// Shrinking keeps the metadata: the names that are listed are the same.
pub proof fn lemma_shrink_keeps_metadata(customs: Seq<CustomSectionView>)
    ensures
        listed(kept_sections(customs)) == listed(customs),
    decreases customs.len(),
{
    if customs.len() > 0 {
        lemma_shrink_keeps_metadata(customs.drop_last());
        if "icp:"@.is_prefix_of(customs.last().name) {
            let k = kept_sections(customs);
            assert(k.drop_last() =~= kept_sections(customs.drop_last()));
            assert(k.last() == customs.last());
        }
    }
}

} // verus!
