use vstd::prelude::*;

use crate::config::ConfigView;
use crate::entry::{kind_of, TraversalEntry};
use crate::pattern::regex_is_match;
use crate::pipeline::{
    blocks_of, entry_paths, failures, included, joined, name_ok, selected, type_ok, WalkItem,
};

verus! {

/// Selecting over two walks one after the other gives the selection of the
/// first followed by that of the second.
pub proof fn lemma_selected_append(c: ConfigView, a: Seq<WalkItem>, b: Seq<WalkItem>)
    ensures
        selected(c, a + b) == selected(c, a) + selected(c, b),
        failures(a + b) == failures(a) + failures(b),
    decreases b.len(),
{
    if b.len() == 0 {
        assert(a + b =~= a);
        assert(selected(c, a) + selected(c, b) =~= selected(c, a));
        assert(failures(a) + failures(b) =~= failures(a));
    } else {
        assert((a + b).drop_last() =~= a + b.drop_last());
        assert((a + b).last() == b.last());
        lemma_selected_append(c, a, b.drop_last());
        match b.last() {
            Ok(e) => {
                assert(selected(c, a) + selected(c, b.drop_last()).push(e.path@) =~= (selected(c, a)
                    + selected(c, b.drop_last())).push(e.path@));
            },
            Err(m) => {
                assert(failures(a) + failures(b.drop_last()).push(m@) =~= (failures(a) + failures(
                    b.drop_last())).push(m@));
            },
        }
    }
}

/// With no type filter and no name filter, every entry of the walk is kept,
/// in walk order.
pub proof fn lemma_no_filters_keeps_all(c: ConfigView, items: Seq<WalkItem>)
    requires
        c.types.len() == 0,
        c.names.len() == 0,
    ensures
        selected(c, items) == entry_paths(items),
    decreases items.len(),
{
    if items.len() > 0 {
        lemma_no_filters_keeps_all(c, items.drop_last());
    }
}

/// With type filters given, an entry passes them exactly when its kind is
/// one of them, whatever the name filters are; it is kept exactly when it
/// also passes the name filters.
pub proof fn lemma_type_filter(c: ConfigView, e: TraversalEntry)
    requires
        c.types.len() > 0,
    ensures
        type_ok(c.types, e) <==> (kind_of(e) matches Some(k) && c.types.contains(k)),
        included(c, e) <==> type_ok(c.types, e) && name_ok(c.names, e),
{
    if type_ok(c.types, e) {
        let i = choose|i: int| 0 <= i < c.types.len() && kind_of(e) == Some(#[trigger] c.types[i]);
        assert(c.types.contains(c.types[i]));
    }
    if kind_of(e) matches Some(k) && c.types.contains(k) {
        let i = choose|i: int| 0 <= i < c.types.len() && c.types[i] == kind_of(e)->Some_0;
        assert(kind_of(e) == Some(c.types[i]));
    }
}

/// With name filters given, an entry passes them exactly when one pattern
/// matches somewhere in its base name, whatever the type filters are.
pub proof fn lemma_name_filter(c: ConfigView, e: TraversalEntry)
    requires
        c.names.len() > 0,
    ensures
        name_ok(c.names, e) <==> exists|i: int|
            0 <= i < c.names.len() && regex_is_match(#[trigger] c.names[i], e.name@),
        included(c, e) <==> type_ok(c.types, e) && name_ok(c.names, e),
{
}

/// The output is a function of the configuration and the walk: the same walk
/// gives the same paths, the same block and the same errors each time.
pub proof fn lemma_same_walk_same_output(c: ConfigView, a: Seq<WalkItem>, b: Seq<WalkItem>)
    requires
        a == b,
    ensures
        selected(c, a) == selected(c, b),
        joined(selected(c, a)) == joined(selected(c, b)),
        failures(a) == failures(b),
{
}

/// Each root gives its own block, in the order of the roots: the blocks of
/// two lists of roots searched one after the other are those of the first
/// list followed by those of the second, and the block of a root depends on
/// its own walk alone.
pub proof fn lemma_blocks_per_root(c: ConfigView, a: Seq<Seq<WalkItem>>, b: Seq<Seq<WalkItem>>)
    ensures
        blocks_of(c, a + b) == blocks_of(c, a) + blocks_of(c, b),
        blocks_of(c, a).len() == a.len(),
        forall|i: int| 0 <= i < a.len() ==> #[trigger] blocks_of(c, a)[i] == joined(selected(c, a[i])),
{
    assert(blocks_of(c, a + b) =~= blocks_of(c, a) + blocks_of(c, b));
}

/// An error met during a walk is reported and skipped: the other entries,
/// before and after it, are kept or dropped as if it had not happened.
pub proof fn lemma_failure_skipped(c: ConfigView, a: Seq<WalkItem>, m: String, b: Seq<WalkItem>)
    ensures
        selected(c, a + seq![Err(m)] + b) == selected(c, a + b),
        failures(a + seq![Err(m)] + b) == failures(a) + seq![m@] + failures(b),
{
    let one: Seq<WalkItem> = seq![Err(m)];
    lemma_selected_append(c, a + one, b);
    lemma_selected_append(c, a, one);
    lemma_selected_append(c, a, b);
    assert(one.drop_last() =~= Seq::<WalkItem>::empty());
    assert(one.last() == Err::<TraversalEntry, String>(m));
    assert(selected(c, one.drop_last()) == Seq::<Seq<char>>::empty());
    assert(failures(one.drop_last()) == Seq::<Seq<char>>::empty());
    assert(selected(c, one) =~= Seq::<Seq<char>>::empty());
    assert(failures(one) =~= seq![m@]);
    assert(selected(c, a) + selected(c, one) =~= selected(c, a));
}

} // verus!
