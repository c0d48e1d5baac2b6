//! Properties that hold across several operations on a store.
use vstd::prelude::*;

use crate::input::{flag_value, is_single};
use crate::store::{has_id, index_of, lemma_index_of_unique, StoreError, StoreView};
use crate::todo::TodoView;

verus! {

/// The records of `records` whose id is not `id`, in their order.
pub open spec fn without_id(records: Seq<TodoView>, id: nat) -> Seq<TodoView> {
    records.filter(|t: TodoView| t.id != id)
}

/// A sequence in which every element passes `p` is its own filter.
proof fn lemma_filter_keeps_all(s: Seq<TodoView>, p: spec_fn(TodoView) -> bool)
    requires
        forall|i: int| 0 <= i < s.len() ==> p(#[trigger] s[i]),
    ensures
        s.filter(p) == s,
    decreases s.len(),
{
    reveal(Seq::filter);
    if s.len() > 0 {
        lemma_filter_keeps_all(s.drop_last(), p);
        assert(s.drop_last().push(s.last()) =~= s);
    }
}

/// Creation preserves well-formedness and the record it returns is the last.
proof fn lemma_create_wf(s0: StoreView, text: Seq<char>, s1: StoreView, a: TodoView)
    requires
        s0.wf(),
        s0.create_post(text, s1, a),
    ensures
        s1.wf(),
        s1.records.last() == a,
        has_id(s1.records, a.id),
        index_of(s1.records, a.id) == s1.records.len() - 1,
{
    assert(s1.records[s1.records.len() - 1] == a);
    assert forall|i: int, j: int| 0 <= i < j < s1.records.len() implies #[trigger] s1.records[i].id
        < #[trigger] s1.records[j].id by {
        if j == s1.records.len() - 1 {
            assert(s0.records[i].id < s0.next_id);
        } else {
            assert(s0.records[i].id < s0.records[j].id);
        }
    }
    lemma_index_of_unique(s1.records, a.id, s1.records.len() - 1);
}

/// Ids only grow: every record that `create` returns has an id greater than
/// that of every record created before it, whatever was done in between
/// (`update` and `delete` leave the next id alone, and `create` raises it),
/// and greater than every id in the store when it is made.
pub proof fn lemma_create_ids_increase(
    s0: StoreView,
    ta: Seq<char>,
    s1: StoreView,
    a: TodoView,
    s2: StoreView,
    tb: Seq<char>,
    s3: StoreView,
    b: TodoView,
)
    requires
        s0.wf(),
        s0.create_post(ta, s1, a),
        s1.next_id <= s2.next_id,
        s2.wf(),
        s2.create_post(tb, s3, b),
    ensures
        a.id < b.id,
        forall|j: int| 0 <= j < s2.records.len() ==> #[trigger] s2.records[j].id < b.id,
{
}

/// Deleting a record just created leaves no record with its id, and no later
/// `create` hands that id out again.
pub proof fn lemma_deleted_id_not_reused(
    s0: StoreView,
    ta: Seq<char>,
    s1: StoreView,
    a: TodoView,
    s2: StoreView,
    r: Result<(), StoreError>,
    s3: StoreView,
    tb: Seq<char>,
    s4: StoreView,
    b: TodoView,
)
    requires
        s0.wf(),
        s0.create_post(ta, s1, a),
        s1.delete_post(a.id, s2, r),
        s2.next_id <= s3.next_id,
        s3.wf(),
        s3.create_post(tb, s4, b),
    ensures
        r == Ok::<(), StoreError>(()),
        !has_id(s2.records, a.id),
        b.id != a.id,
{
    lemma_create_wf(s0, ta, s1, a);
    assert(s2.records =~= s0.records);
    if has_id(s2.records, a.id) {
        let k = choose|i: int| 0 <= i < s2.records.len() && #[trigger] s2.records[i].id == a.id;
        assert(s0.records[k].id < s0.next_id);
    }
}

/// An update of an id that no record carries changes nothing and reports
/// that id as not found.
pub proof fn lemma_update_missing_changes_nothing(
    s0: StoreView,
    id: nat,
    new_text: Option<Seq<char>>,
    new_completed: Option<bool>,
    s1: StoreView,
    r: Result<TodoView, StoreError>,
)
    requires
        !has_id(s0.records, id),
        s0.update_post(id, new_text, new_completed, s1, r),
    ensures
        s1 == s0,
        r == Err::<TodoView, StoreError>(StoreError::NotFound(id as u64)),
{
}

/// An update with no new text and the answer "y" marks the record done and
/// touches nothing else: not its text, not its id, not the other records.
pub proof fn lemma_update_flag_yes_sets_only_completed(
    s0: StoreView,
    id: nat,
    s1: StoreView,
    r: Result<TodoView, StoreError>,
)
    requires
        s0.wf(),
        has_id(s0.records, id),
        s0.update_post(id, None, flag_value("y"@), s1, r),
    ensures
        s1.records.len() == s0.records.len(),
        s1.records[index_of(s0.records, id)] == (TodoView {
            id,
            text: s0.records[index_of(s0.records, id)].text,
            completed: true,
        }),
        forall|j: int|
            0 <= j < s0.records.len() && j != index_of(s0.records, id) ==> #[trigger] s1.records[j]
                == s0.records[j],
{
    reveal_strlit("y");
}

/// An update with no new text and an answer other than "y" or "n" leaves
/// every record as it was.
pub proof fn lemma_update_unknown_flag_changes_nothing(
    s0: StoreView,
    id: nat,
    answer: Seq<char>,
    s1: StoreView,
    r: Result<TodoView, StoreError>,
)
    requires
        s0.wf(),
        answer != seq!['y'],
        answer != seq!['n'],
        s0.update_post(id, None, flag_value(answer), s1, r),
    ensures
        s1 == s0,
{
    if is_single(answer, 'y') {
        assert(answer =~= seq!['y']);
    }
    if is_single(answer, 'n') {
        assert(answer =~= seq!['n']);
    }
    if has_id(s0.records, id) {
        assert(s1.records =~= s0.records);
    }
}

/// Deleting a record removes exactly that record: the others stay, in the
/// order they had.
pub proof fn lemma_delete_keeps_order(
    s0: StoreView,
    id: nat,
    s1: StoreView,
    r: Result<(), StoreError>,
)
    requires
        s0.wf(),
        s0.delete_post(id, s1, r),
    ensures
        s1.records == without_id(s0.records, id),
{
    let p = |t: TodoView| t.id != id;
    if has_id(s0.records, id) {
        let k = index_of(s0.records, id);
        assert(s0.records[k].id == id);
        let front = s0.records.take(k);
        let back = s0.records.skip(k + 1);
        assert(s0.records =~= front + seq![s0.records[k]] + back);
        assert(s1.records =~= front + back);
        assert forall|i: int| 0 <= i < front.len() implies p(#[trigger] front[i]) by {
            assert(s0.records[i].id < s0.records[k].id);
        }
        assert forall|i: int| 0 <= i < back.len() implies p(#[trigger] back[i]) by {
            assert(s0.records[k].id < s0.records[k + 1 + i].id);
        }
        lemma_filter_keeps_all(front, p);
        lemma_filter_keeps_all(back, p);
        reveal(Seq::filter);
        assert(seq![s0.records[k]].drop_last() =~= Seq::<TodoView>::empty());
        assert(Seq::<TodoView>::empty().filter(p) =~= Seq::<TodoView>::empty());
        assert(!p(seq![s0.records[k]].last()));
        assert(seq![s0.records[k]].filter(p) =~= Seq::<TodoView>::empty());
        Seq::filter_distributes_over_add(front + seq![s0.records[k]], back, p);
        Seq::filter_distributes_over_add(front, seq![s0.records[k]], p);
    } else {
        assert forall|i: int| 0 <= i < s0.records.len() implies p(#[trigger] s0.records[i]) by {
            if s0.records[i].id == id {
                assert(has_id(s0.records, id));
            }
        }
        lemma_filter_keeps_all(s0.records, p);
    }
}

} // verus!
