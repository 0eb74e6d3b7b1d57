//! Extension descriptors, and their ordering by name.

use crate::text::{
    lemma_lex_le_reflexive, lemma_lex_le_total, lemma_lex_le_transitive, lex_le, str_le,
};
use vstd::prelude::*;

verus! {

/// What an extension contributes to the prompt.
#[derive(Debug, PartialEq, Eq)]
pub struct ExtensionInfo {
    pub name: String,
    pub instructions: String,
    pub has_resources: bool,
}

/// The mathematical value of an [`ExtensionInfo`].
pub struct ExtensionInfoView {
    pub name: Seq<char>,
    pub instructions: Seq<char>,
    pub has_resources: bool,
}

impl View for ExtensionInfo {
    type V = ExtensionInfoView;

    open spec fn view(&self) -> ExtensionInfoView {
        ExtensionInfoView {
            name: self.name@,
            instructions: self.instructions@,
            has_resources: self.has_resources,
        }
    }
}

impl Clone for ExtensionInfo {
    fn clone(&self) -> (copy: Self)
        ensures
            copy@ == self@,
    {
        ExtensionInfo {
            name: self.name.clone(),
            instructions: self.instructions.clone(),
            has_resources: self.has_resources,
        }
    }
}

impl ExtensionInfo {
    /// A descriptor with the given name and instruction text.
    pub fn new(name: &str, instructions: &str, has_resources: bool) -> (info: Self)
        ensures
            info@ == (ExtensionInfoView {
                name: name@,
                instructions: instructions@,
                has_resources,
            }),
    {
        ExtensionInfo {
            name: name.to_owned(),
            instructions: instructions.to_owned(),
            has_resources,
        }
    }
}

/// The values of a list of descriptors.
pub open spec fn extension_views(list: Seq<ExtensionInfo>) -> Seq<ExtensionInfoView> {
    list.map_values(|e: ExtensionInfo| e@)
}

/// Names never fall along the list.
pub open spec fn sorted_by_name(list: Seq<ExtensionInfoView>) -> bool {
    forall|i: int, j: int|
        0 <= i < j < list.len() ==> lex_le((#[trigger] list[i]).name, (#[trigger] list[j]).name)
}

/// `sorted` with `e` placed behind the last descriptor whose name sorts at
/// or before the name of `e`.
pub open spec fn insert_by_name(
    sorted: Seq<ExtensionInfoView>,
    e: ExtensionInfoView,
) -> Seq<ExtensionInfoView>
    decreases sorted.len(),
{
    if sorted.len() == 0 || lex_le(sorted.last().name, e.name) {
        sorted.push(e)
    } else {
        insert_by_name(sorted.drop_last(), e).push(sorted.last())
    }
}

/// `list` in ascending order of names; descriptors of one name keep the
/// order in which they stand in `list`.
pub open spec fn sort_by_name(list: Seq<ExtensionInfoView>) -> Seq<ExtensionInfoView>
    decreases list.len(),
{
    if list.len() == 0 {
        Seq::empty()
    } else {
        insert_by_name(sort_by_name(list.drop_last()), list.last())
    }
}

/// The descriptors of `list` that carry the name `name`, in their order.
pub open spec fn named(list: Seq<ExtensionInfoView>, name: Seq<char>) -> Seq<ExtensionInfoView> {
    list.filter(|e: ExtensionInfoView| e.name == name)
}

/// Placing by name is inserting at the place `at`, when every descriptor
/// from `at` on sorts strictly behind `e` and the one before `at` does not.
pub proof fn lemma_insert_by_name_at(sorted: Seq<ExtensionInfoView>, e: ExtensionInfoView, at: int)
    requires
        0 <= at <= sorted.len(),
        forall|i: int| at <= i < sorted.len() ==> !lex_le((#[trigger] sorted[i]).name, e.name),
        at > 0 ==> lex_le(sorted[at - 1].name, e.name),
    ensures
        insert_by_name(sorted, e) == sorted.insert(at, e),
    decreases sorted.len(),
{
    if at == sorted.len() {
        assert(sorted.insert(at, e) =~= sorted.push(e));
    } else {
        assert(!lex_le(sorted[sorted.len() - 1].name, e.name));
        lemma_insert_by_name_at(sorted.drop_last(), e, at);
        assert(sorted.drop_last().insert(at, e).push(sorted.last()) =~= sorted.insert(at, e));
    }
}

/// Placing `e` adds `e` and nothing else.
pub proof fn lemma_insert_by_name_multiset(sorted: Seq<ExtensionInfoView>, e: ExtensionInfoView)
    ensures
        insert_by_name(sorted, e).to_multiset() == sorted.to_multiset().insert(e),
        insert_by_name(sorted, e).len() == sorted.len() + 1,
    decreases sorted.len(),
{
    broadcast use vstd::seq_lib::group_to_multiset_ensures;

    if sorted.len() == 0 || lex_le(sorted.last().name, e.name) {
    } else {
        lemma_insert_by_name_multiset(sorted.drop_last(), e);
        assert(sorted.drop_last().push(sorted.last()) =~= sorted);
        assert(insert_by_name(sorted, e).to_multiset() =~= sorted.to_multiset().insert(e));
    }
}

/// Placing `e` into a sorted list leaves it sorted.
pub proof fn lemma_insert_by_name_sorted(sorted: Seq<ExtensionInfoView>, e: ExtensionInfoView)
    requires
        sorted_by_name(sorted),
    ensures
        sorted_by_name(insert_by_name(sorted, e)),
    decreases sorted.len(),
{
    let after = insert_by_name(sorted, e);
    if sorted.len() == 0 {
    } else if lex_le(sorted.last().name, e.name) {
        assert forall|i: int, j: int| 0 <= i < j < after.len() implies lex_le(
            (#[trigger] after[i]).name,
            (#[trigger] after[j]).name,
        ) by {
            if j == sorted.len() {
                if i < sorted.len() - 1 {
                    assert(lex_le(sorted[i].name, sorted[sorted.len() - 1].name));
                    lemma_lex_le_transitive(sorted[i].name, sorted.last().name, e.name);
                }
            } else {
                assert(lex_le(sorted[i].name, sorted[j].name));
            }
        }
    } else {
        let head = sorted.drop_last();
        let placed = insert_by_name(head, e);
        assert(sorted_by_name(head)) by {
            assert forall|i: int, j: int| 0 <= i < j < head.len() implies lex_le(
                (#[trigger] head[i]).name,
                (#[trigger] head[j]).name,
            ) by {
                assert(lex_le(sorted[i].name, sorted[j].name));
            }
        }
        lemma_insert_by_name_sorted(head, e);
        lemma_insert_by_name_multiset(head, e);
        lemma_lex_le_total(sorted.last().name, e.name);
        assert forall|i: int, j: int| 0 <= i < j < after.len() implies lex_le(
            (#[trigger] after[i]).name,
            (#[trigger] after[j]).name,
        ) by {
            if j == placed.len() {
                broadcast use vstd::seq_lib::group_to_multiset_ensures;

                assert(placed.to_multiset().count(placed[i]) > 0);
                if placed[i] == e {
                } else {
                    assert(head.to_multiset().count(placed[i]) > 0);
                    assert(head.contains(placed[i]));
                    let k = choose|k: int| 0 <= k < head.len() && head[k] == placed[i];
                    assert(lex_le(sorted[k].name, sorted[sorted.len() - 1].name));
                }
            } else {
                assert(lex_le(placed[i].name, placed[j].name));
            }
        }
    }
}

/// The sorted list is sorted.
pub proof fn lemma_sort_by_name_sorted(list: Seq<ExtensionInfoView>)
    ensures
        sorted_by_name(sort_by_name(list)),
    decreases list.len(),
{
    if list.len() > 0 {
        lemma_sort_by_name_sorted(list.drop_last());
        lemma_insert_by_name_sorted(sort_by_name(list.drop_last()), list.last());
    }
}

/// The sorted list holds what the list holds, each descriptor as often.
pub proof fn lemma_sort_by_name_permutes(list: Seq<ExtensionInfoView>)
    ensures
        sort_by_name(list).to_multiset() == list.to_multiset(),
        sort_by_name(list).len() == list.len(),
    decreases list.len(),
{
    broadcast use vstd::seq_lib::group_to_multiset_ensures;

    if list.len() > 0 {
        lemma_sort_by_name_permutes(list.drop_last());
        lemma_insert_by_name_multiset(sort_by_name(list.drop_last()), list.last());
        assert(list.drop_last().push(list.last()) =~= list);
    }
}

/// Placing `e` puts it behind the descriptors of its own name and leaves
/// the descriptors of every other name as they were.
pub proof fn lemma_insert_by_name_stable(
    sorted: Seq<ExtensionInfoView>,
    e: ExtensionInfoView,
    name: Seq<char>,
)
    ensures
        named(insert_by_name(sorted, e), name) == if e.name == name {
            named(sorted, name).push(e)
        } else {
            named(sorted, name)
        },
    decreases sorted.len(),
{
    let same = |x: ExtensionInfoView| x.name == name;
    if sorted.len() == 0 || lex_le(sorted.last().name, e.name) {
        sorted.lemma_filter_push(e, same);
    } else {
        let head = sorted.drop_last();
        lemma_insert_by_name_stable(head, e, name);
        insert_by_name(head, e).lemma_filter_push(sorted.last(), same);
        head.lemma_filter_push(sorted.last(), same);
        assert(head.push(sorted.last()) =~= sorted);
        if sorted.last().name == name && e.name == name {
            lemma_lex_le_reflexive(name);
        }
    }
}

/// Sorting is stable: the descriptors of any one name stand in the sorted
/// list in the order in which they stand in the list.
pub proof fn lemma_sort_by_name_stable(list: Seq<ExtensionInfoView>, name: Seq<char>)
    ensures
        named(sort_by_name(list), name) == named(list, name),
    decreases list.len(),
{
    let same = |x: ExtensionInfoView| x.name == name;
    if list.len() > 0 {
        lemma_sort_by_name_stable(list.drop_last(), name);
        lemma_insert_by_name_stable(sort_by_name(list.drop_last()), list.last(), name);
        list.drop_last().lemma_filter_push(list.last(), same);
        assert(list.drop_last().push(list.last()) =~= list);
    } else {
        assert(sort_by_name(list) =~= list);
    }
}

/// Sorts `list` by name, ascending, keeping descriptors of one name in the
/// order in which they came.
pub fn sort_extensions(list: Vec<ExtensionInfo>) -> (out: Vec<ExtensionInfo>)
    ensures
        extension_views(out@) == sort_by_name(extension_views(list@)),
        sorted_by_name(extension_views(out@)),
        extension_views(out@).to_multiset() == extension_views(list@).to_multiset(),
{
    let ghost given = extension_views(list@);
    let mut out: Vec<ExtensionInfo> = Vec::new();
    proof {
        assert(extension_views(out@) =~= sort_by_name(given.take(0)));
    }
    for e in it: list
        invariant
            extension_views(it.seq()) == given,
            extension_views(out@) == sort_by_name(given.take(it.index() as int)),
    {
        let ghost done = extension_views(out@);
        proof {
            let n = it.index() as int;
            assert(given.take(n + 1).drop_last() =~= given.take(n));
            assert(given.take(n + 1).last() == e@);
            lemma_sort_by_name_sorted(given.take(n));
        }
        let mut at: usize = out.len();
        while at > 0 && !str_le(out[at - 1].name.as_str(), e.name.as_str())
            invariant
                at <= out.len(),
                extension_views(out@) == done,
                forall|i: int| at <= i < done.len() ==> !lex_le((#[trigger] done[i]).name, e@.name),
            decreases at,
        {
            at -= 1;
        }
        proof {
            lemma_insert_by_name_at(done, e@, at as int);
        }
        out.insert(at, e);
        assert(extension_views(out@) =~= done.insert(at as int, e@));
    }
    proof {
        assert(given.take(given.len() as int) =~= given);
        lemma_sort_by_name_sorted(given);
        lemma_sort_by_name_permutes(given);
    }
    out
}

} // verus!
