use vstd::prelude::*;
use crate::codec::document_entries;
use crate::collection::{
    document_outcome, ids_below, ids_distinct, ids_increasing, load_outcome, matching, Collection,
};
use crate::entry::{Entry, IdAllocator};
use crate::error::CoreError;
use crate::json::{json_parsed, Json};

verus! {

/// Ids that rise strictly are pairwise distinct.
pub proof fn lemma_increasing_distinct(s: Seq<Entry>)
    requires
        ids_increasing(s),
    ensures
        ids_distinct(s),
{
    assert forall|i: int, j: int|
        0 <= i < s.len() && 0 <= j < s.len() && i != j implies s[i].id != s[j].id by {
        if i < j {
            assert(s[i].id < s[j].id);
        } else {
            assert(s[j].id < s[i].id);
        }
    }
}

/// Round trip: the document of an id-ordered collection loads back as the
/// same entries in the same order.
pub proof fn lemma_round_trip(
    c: Collection,
    doc: Json,
    r: Result<(Collection, IdAllocator), CoreError>,
)
    requires
        c.wf(),
        document_entries(doc) == Some(c.entries@),
        document_outcome(doc, r),
    ensures
        r matches Ok((back, _)) && back.entries@ == c.entries@,
{
    lemma_increasing_distinct(c.entries@);
}

/// Ids stay unique from one invocation to the next: when a loaded
/// collection grows by an entry with the allocator's next id and its
/// document is stored, loading that document gives pairwise-distinct ids,
/// and the same entries in the same order.
pub proof fn lemma_ids_stay_unique(
    t: Seq<char>,
    c: Collection,
    ids: IdAllocator,
    e: Entry,
    doc: Json,
    r: Result<(Collection, IdAllocator), CoreError>,
)
    requires
        load_outcome(t, Ok((c, ids))),
        e.id == ids.spec_next(),
        document_entries(doc) == Some(c.entries@.push(e)),
        document_outcome(doc, r),
    ensures
        r matches Ok((next, _)) && next.entries@ == c.entries@.push(e) && ids_distinct(
            next.entries@,
        ),
{
    lemma_grown_increasing(t, c, ids, e);
    lemma_increasing_distinct(c.entries@.push(e));
}

/// Ids rise from one invocation to the next: when a loaded collection grows
/// by an entry with the allocator's next id and its document is stored,
/// loading that document gives an allocator whose next id lies above every
/// id handed out so far, the new one included.
pub proof fn lemma_ids_increase(
    t: Seq<char>,
    c: Collection,
    ids: IdAllocator,
    e: Entry,
    doc: Json,
    r: Result<(Collection, IdAllocator), CoreError>,
)
    requires
        load_outcome(t, Ok((c, ids))),
        e.id == ids.spec_next(),
        document_entries(doc) == Some(c.entries@.push(e)),
        document_outcome(doc, r),
    ensures
        ids_below(c.entries@, e.id as int),
        r matches Ok((_, next_ids)) && next_ids.spec_next() == e.id + 1 && ids_below(
            c.entries@.push(e),
            next_ids.spec_next() as int,
        ),
{
    lemma_grown_increasing(t, c, ids, e);
    lemma_increasing_distinct(c.entries@.push(e));
    assert(c.entries@.push(e).last() == e);
}

proof fn lemma_grown_increasing(t: Seq<char>, c: Collection, ids: IdAllocator, e: Entry)
    requires
        load_outcome(t, Ok((c, ids))),
        e.id == ids.spec_next(),
    ensures
        ids_below(c.entries@, e.id as int),
        ids_increasing(c.entries@.push(e)),
{
    let s = c.entries@;
    assert forall|i: int| 0 <= i < s.len() implies s[i].id < e.id by {
        if s.len() > 0 {
            assert(s[i].id <= s.last().id);
        }
    }
    let g = s.push(e);
    assert forall|i: int, j: int| 0 <= i < j < g.len() implies g[i].id < g[j].id by {
        assert(g[i] == s[i]);
        if j < s.len() {
            assert(g[j] == s[j]);
        }
    }
}

/// An empty store loads as an empty collection, and searching or listing
/// it gives nothing, without an error.
pub proof fn lemma_empty_store(
    t: Seq<char>,
    r: Result<(Collection, IdAllocator), CoreError>,
    term: Seq<char>,
)
    requires
        t.len() == 0,
        load_outcome(t, r),
    ensures
        r matches Ok((c, _)) && c.entries@.len() == 0 && c.entries@.filter(matching(term)).len()
            == 0,
{
    reveal(Seq::filter);
}

/// Stored text that is not empty and is not a valid entries document makes
/// loading fail with a data-format error, and gives no entries.
pub proof fn lemma_corrupt_is_fatal(t: Seq<char>, r: Result<(Collection, IdAllocator), CoreError>)
    requires
        t.len() > 0,
        json_parsed(t) is None || document_entries(json_parsed(t)->Some_0) is None,
        load_outcome(t, r),
    ensures
        r == Err::<(Collection, IdAllocator), CoreError>(CoreError::DataFormat),
{
}

/// Search keeps exactly the entries whose command or description contains
/// the term: each kept entry matches, and each matching entry is kept.
pub proof fn lemma_search_exact(s: Seq<Entry>, term: Seq<char>)
    ensures
        forall|i: int|
            0 <= i < s.filter(matching(term)).len() ==> matching(term)(
                #[trigger] s.filter(matching(term))[i],
            ),
        forall|i: int|
            0 <= i < s.len() && matching(term)(s[i]) ==> #[trigger] s.filter(
                matching(term),
            ).contains(s[i]),
{
    broadcast use vstd::seq_lib::group_filter_ensures;
}

/// The ids of `s` are 1, 2, ..., `s.len()` in order.
pub open spec fn ids_count_up(s: Seq<Entry>) -> bool {
    forall|i: int| 0 <= i < s.len() ==> #[trigger] s[i].id == i + 1
}

/// The invocations `1..=n` of a run that starts from an empty store: in
/// invocation `k` the store holds the document `docs[k - 1]` of the grown
/// list before it (none, for the first), which loads as `cs[k - 1]` with
/// allocator `idss[k - 1]`; the entry `es[k - 1]` takes the allocator's
/// next id; and the document `docs[k]` of the grown list is stored.
pub open spec fn run_of_adds(
    n: nat,
    docs: Seq<Json>,
    cs: Seq<Collection>,
    idss: Seq<IdAllocator>,
    es: Seq<Entry>,
) -> bool {
    &&& docs.len() == n + 1 && cs.len() == n + 1 && idss.len() == n + 1 && es.len() == n
    &&& cs[0].entries@.len() == 0 && idss[0].spec_next() == 1
    &&& forall|k: int| 0 <= k < n ==> (#[trigger] es[k]).id == idss[k].spec_next()
    &&& forall|k: int|
        1 <= k <= n ==> document_entries(#[trigger] docs[k]) == Some(
            cs[k - 1].entries@.push(es[k - 1]),
        )
    &&& forall|k: int| 1 <= k <= n ==> document_outcome(#[trigger] docs[k], Ok((cs[k], idss[k])))
}

/// Ids over any number of adds: in a run of `n` adds from an empty store,
/// each invocation loads the ids 1, 2, ..., in add order (so pairwise
/// distinct and rising), and the entry added by invocation `k` gets id `k`.
pub proof fn lemma_ids_over_adds(
    n: nat,
    docs: Seq<Json>,
    cs: Seq<Collection>,
    idss: Seq<IdAllocator>,
    es: Seq<Entry>,
)
    requires
        run_of_adds(n, docs, cs, idss, es),
    ensures
        forall|k: int|
            0 <= k <= n ==> ids_count_up(#[trigger] cs[k].entries@) && cs[k].entries@.len() == k
                && ids_distinct(cs[k].entries@),
        forall|k: int| 0 <= k < n ==> (#[trigger] es[k]).id == k + 1,
{
    assert forall|k: int| 0 <= k <= n implies ids_count_up(#[trigger] cs[k].entries@)
        && cs[k].entries@.len() == k && ids_distinct(cs[k].entries@) by {
        lemma_run_prefix(n, docs, cs, idss, es, k as nat);
        lemma_increasing_distinct(cs[k].entries@);
    }
    assert forall|k: int| 0 <= k < n implies (#[trigger] es[k]).id == k + 1 by {
        lemma_run_prefix(n, docs, cs, idss, es, k as nat);
    }
}

proof fn lemma_run_prefix(
    n: nat,
    docs: Seq<Json>,
    cs: Seq<Collection>,
    idss: Seq<IdAllocator>,
    es: Seq<Entry>,
    k: nat,
)
    requires
        run_of_adds(n, docs, cs, idss, es),
        k <= n,
    ensures
        ids_count_up(cs[k as int].entries@),
        ids_increasing(cs[k as int].entries@),
        cs[k as int].entries@.len() == k,
        idss[k as int].spec_next() == k + 1,
    decreases k,
{
    if k > 0 {
        let j = k - 1;
        lemma_run_prefix(n, docs, cs, idss, es, j as nat);
        let prev = cs[j].entries@;
        let e = es[j];
        assert(e.id == j + 1);
        let g = prev.push(e);
        assert forall|i: int| 0 <= i < g.len() implies #[trigger] g[i].id == i + 1 by {
            if i < prev.len() {
                assert(g[i] == prev[i]);
            }
        }
        assert forall|a: int, b: int| 0 <= a < b < g.len() implies g[a].id < g[b].id by {
            assert(g[a].id == a + 1);
            assert(g[b].id == b + 1);
        }
        lemma_increasing_distinct(g);
        assert(document_entries(docs[k as int]) == Some(g));
        assert(document_outcome(docs[k as int], Ok((cs[k as int], idss[k as int]))));
        assert(cs[k as int].entries@ == g);
        assert(g.last() == e);
    }
}

} // verus!
