//! Listings: pages of sandboxes and volumes, addressed by the name of the last item seen.
use crate::backend::{HandleView, SandboxHandle, VolumeHandle, VolumeHandleView};
use crate::cloud::{CloudPaginated, CloudSandbox, CloudVolume};
use crate::convert::{
    answers_for, cloud_request_from_handle, cloud_sandbox_from_handle, cloud_volume_from_handle,
    handle_request, volume_answer,
};
use crate::error::ApiError;
use crate::seqs::{lemma_all_kept, lemma_filter_prefix, lemma_filter_same, lemma_filter_step};
use crate::text::{law_text_le_is_a_total_order, opt_view, text_at_most, text_le};
use vstd::prelude::*;
use vstd::string::*;

verus! {

/// Which page of a listing is asked for.
#[derive(Debug, Clone)]
pub struct ListQuery {
    /// Name of the last item of the page before.
    pub cursor: Option<String>,
    /// The most items that the page may hold; a limit of zero counts as one.
    pub limit: Option<u32>,
}

/// Whether an item named `name` comes after the cursor.
pub open spec fn after_cursor(name: Seq<char>, cursor: Option<Seq<char>>) -> bool {
    match cursor {
        Some(cursor) => !text_le(name, cursor),
        None => true,
    }
}

/// The most items that a page of limit `limit` holds.
pub open spec fn page_size(limit: u32) -> int {
    if limit == 0 {
        1
    } else {
        limit as int
    }
}

/// The items after the cursor.
pub open spec fn remaining<A>(
    items: Seq<A>,
    name: spec_fn(A) -> Seq<char>,
    cursor: Option<Seq<char>>,
) -> Seq<A> {
    items.filter(|item: A| after_cursor(name(item), cursor))
}

/// The page that is asked for: the items after the cursor, as many as the limit admits.
pub open spec fn page_of<A>(
    items: Seq<A>,
    name: spec_fn(A) -> Seq<char>,
    cursor: Option<Seq<char>>,
    limit: Option<u32>,
) -> Seq<A> {
    let rest = remaining(items, name, cursor);
    match limit {
        Some(limit) => if page_size(limit) < rest.len() {
            rest.take(page_size(limit))
        } else {
            rest
        },
        None => rest,
    }
}

/// The cursor for the next page, where there is one: the name of the last item of this page, if an
/// item follows that the limit keeps off it.
pub open spec fn cursor_after<A>(
    items: Seq<A>,
    name: spec_fn(A) -> Seq<char>,
    cursor: Option<Seq<char>>,
    limit: Option<u32>,
) -> Option<Seq<char>> {
    let rest = remaining(items, name, cursor);
    match limit {
        Some(limit) => if page_size(limit) < rest.len() {
            Some(name(rest[page_size(limit) - 1]))
        } else {
            None
        },
        None => None,
    }
}

// -------------------------------------------------------------------------------------------
// Following the cursors
// -------------------------------------------------------------------------------------------

/// The names of the items ascend strictly.
pub open spec fn ascending<A>(items: Seq<A>, name: spec_fn(A) -> Seq<char>) -> bool {
    forall|i: int, j: int|
        0 <= i < j < items.len() ==> !text_le(name(#[trigger] items[j]), name(#[trigger] items[i]))
}

/// What a client sees that starts at `cursor` and follows the cursors through at most `pages`
/// pages of limit `limit`.
pub open spec fn traversal<A>(
    items: Seq<A>,
    name: spec_fn(A) -> Seq<char>,
    cursor: Option<Seq<char>>,
    limit: u32,
    pages: nat,
) -> Seq<A>
    decreases pages,
{
    if pages == 0 {
        Seq::empty()
    } else {
        let page = page_of(items, name, cursor, Some(limit));
        match cursor_after(items, name, cursor, Some(limit)) {
            Some(next) => page + traversal(items, name, Some(next), limit, (pages - 1) as nat),
            None => page,
        }
    }
}

/// Whether a client that starts at `cursor` and follows the cursors comes to a page without a next
/// cursor within `pages` pages of limit `limit`.
pub open spec fn ends_within<A>(
    items: Seq<A>,
    name: spec_fn(A) -> Seq<char>,
    cursor: Option<Seq<char>>,
    limit: u32,
    pages: nat,
) -> bool
    decreases pages,
{
    &&& pages > 0
    &&& match cursor_after(items, name, cursor, Some(limit)) {
        Some(next) => ends_within(items, name, Some(next), limit, (pages - 1) as nat),
        None => true,
    }
}

/// Whether `cursor` stands right before the item at `k`.
spec fn stands_before<A>(
    items: Seq<A>,
    name: spec_fn(A) -> Seq<char>,
    cursor: Option<Seq<char>>,
    k: int,
) -> bool {
    &&& 0 <= k <= items.len()
    &&& if k == 0 {
        cursor is None
    } else {
        cursor == Some(name(items[k - 1]))
    }
}

proof fn lemma_remaining_is_suffix<A>(
    items: Seq<A>,
    name: spec_fn(A) -> Seq<char>,
    cursor: Option<Seq<char>>,
    k: int,
)
    requires
        ascending(items, name),
        stands_before(items, name, cursor, k),
    ensures
        remaining(items, name, cursor) == items.skip(k),
{
    let pred = |item: A| after_cursor(name(item), cursor);
    let seen = items.take(k);
    let rest = items.skip(k);
    assert(items =~= seen + rest);
    Seq::filter_distributes_over_add(seen, rest, pred);
    assert forall|i: int| 0 <= i < seen.len() implies !pred(#[trigger] seen[i]) by {
        assert(seen[i] == items[i]);
        law_text_le_is_a_total_order(name(items[i]), name(items[k - 1]), Seq::empty());
        if i < k - 1 {
            assert(!text_le(name(items[k - 1]), name(items[i])));
        }
    }
    seen.lemma_all_neg_filter_empty(pred);
    assert forall|i: int| 0 <= i < rest.len() implies pred(#[trigger] rest[i]) by {
        assert(rest[i] == items[k + i]);
        if k > 0 {
            assert(!text_le(name(items[k + i]), name(items[k - 1])));
        }
    }
    lemma_all_kept(rest, pred);
    assert(seen.filter(pred) + rest =~= rest);
}

proof fn lemma_traversal<A>(
    items: Seq<A>,
    name: spec_fn(A) -> Seq<char>,
    cursor: Option<Seq<char>>,
    limit: u32,
    pages: nat,
    k: int,
)
    requires
        ascending(items, name),
        stands_before(items, name, cursor, k),
        pages > 0,
        pages * page_size(limit) >= items.len() - k,
    ensures
        traversal(items, name, cursor, limit, pages) == items.skip(k),
        ends_within(items, name, cursor, limit, pages),
    decreases pages,
{
    lemma_remaining_is_suffix(items, name, cursor, k);
    let rest = items.skip(k);
    let page = page_of(items, name, cursor, Some(limit));
    let size = page_size(limit);
    if size < rest.len() {
        let next = k + size;
        assert((pages - 1) * size == pages * size - size) by (nonlinear_arith);
        assert(pages > 1) by (nonlinear_arith)
            requires
                pages * size >= rest.len(),
                rest.len() > size,
                size > 0,
        ;
        assert(rest[size - 1] == items[next - 1]);
        lemma_traversal(items, name, Some(name(rest[size - 1])), limit, (pages - 1) as nat, next);
        assert(page + items.skip(next) =~= rest);
    }
}

/// A client that follows the cursors sees every item of an ascending listing exactly once and in
/// order, and comes to the end within as many pages as it takes to hold the items.
pub proof fn law_cursors_visit_every_item_once<A>(
    items: Seq<A>,
    name: spec_fn(A) -> Seq<char>,
    limit: u32,
    pages: nat,
)
    requires
        ascending(items, name),
        pages > 0,
        pages * page_size(limit) >= items.len(),
    ensures
        traversal(items, name, None, limit, pages) == items,
        ends_within(items, name, None, limit, pages),
{
    lemma_traversal(items, name, None, limit, pages, 0);
    assert(items.skip(0) =~= items);
}

proof fn lemma_later_cursor_leaves_less<A>(
    items: Seq<A>,
    name: spec_fn(A) -> Seq<char>,
    cursor: Option<Seq<char>>,
    next: Seq<char>,
)
    requires
        after_cursor(next, cursor),
    ensures
        remaining(items, name, Some(next)).len() <= remaining(items, name, cursor).len(),
        forall|i: int|
            0 <= i < items.len() && name(#[trigger] items[i]) == next ==> remaining(
                items,
                name,
                Some(next),
            ).len() < remaining(items, name, cursor).len(),
    decreases items.len(),
{
    reveal(Seq::filter);
    if items.len() > 0 {
        let front = items.drop_last();
        let last = name(items.last());
        lemma_later_cursor_leaves_less(front, name, cursor, next);
        law_text_le_is_a_total_order(last, last, last);
        if cursor is Some {
            law_text_le_is_a_total_order(cursor->0, next, last);
            law_text_le_is_a_total_order(last, cursor->0, next);
        }
        assert(after_cursor(last, Some(next)) ==> after_cursor(last, cursor));
        assert forall|i: int| 0 <= i < items.len() && name(
            #[trigger] items[i],
        ) == next implies remaining(items, name, Some(next)).len() < remaining(
            items,
            name,
            cursor,
        ).len() by {
            if i < front.len() {
                assert(name(front[i]) == next);
            }
        }
    }
}

proof fn lemma_cursors_end<A>(
    items: Seq<A>,
    name: spec_fn(A) -> Seq<char>,
    cursor: Option<Seq<char>>,
    limit: u32,
    pages: nat,
)
    requires
        pages > 0,
        pages >= remaining(items, name, cursor).len(),
    ensures
        ends_within(items, name, cursor, limit, pages),
    decreases pages,
{
    let rest = remaining(items, name, cursor);
    let size = page_size(limit);
    if size < rest.len() {
        let pred = |item: A| after_cursor(name(item), cursor);
        let item = rest[size - 1];
        let next = name(item);
        items.lemma_filter_pred(pred, size - 1);
        items.lemma_filter_contains_rev(pred, item);
        assert(items.contains(item));
        lemma_later_cursor_leaves_less(items, name, cursor, next);
        let i = choose|i: int| 0 <= i < items.len() && items[i] == item;
        assert(name(items[i]) == next);
        lemma_cursors_end(items, name, Some(next), limit, (pages - 1) as nat);
    }
}

/// Following the cursors comes to an end, in whatever order the items are listed and whatever the
/// limit: within as many pages as there are items, and one if there are none.
pub proof fn law_cursors_end<A>(
    items: Seq<A>,
    name: spec_fn(A) -> Seq<char>,
    limit: u32,
    pages: nat,
)
    requires
        pages > 0,
        pages >= items.len(),
    ensures
        ends_within(items, name, None, limit, pages),
{
    let pred = |item: A| after_cursor(name(item), None);
    items.lemma_filter_len(pred);
    lemma_cursors_end(items, name, None, limit, pages);
}

/// A page holds items of the listing that come after the cursor and no more than the limit
/// admits. It tells a next cursor if and only if an item follows that is not on it; the cursor is
/// the name of its last item, and the page is full.
pub proof fn law_page_is_bounded<A>(
    items: Seq<A>,
    name: spec_fn(A) -> Seq<char>,
    cursor: Option<Seq<char>>,
    limit: Option<u32>,
)
    ensures
        ({
            let rest = remaining(items, name, cursor);
            let page = page_of(items, name, cursor, limit);
            let next = cursor_after(items, name, cursor, limit);
            &&& limit matches Some(limit) ==> page.len() <= page_size(limit)
            &&& forall|i: int|
                0 <= i < page.len() ==> after_cursor(name(#[trigger] page[i]), cursor)
            &&& next is Some <==> page.len() < rest.len()
            &&& next is None <==> page == rest
            &&& next is Some ==> {
                &&& limit is Some && page.len() == page_size(limit->0)
                &&& next->0 == name(page.last())
            }
        }),
{
    let pred = |item: A| after_cursor(name(item), cursor);
    let rest = remaining(items, name, cursor);
    let page = page_of(items, name, cursor, limit);
    assert forall|i: int| 0 <= i < page.len() implies after_cursor(
        name(#[trigger] page[i]),
        cursor,
    ) by {
        items.lemma_filter_pred(pred, i);
        assert(page[i] == rest[i]);
    }
}

proof fn lemma_filter_ascends<A>(
    items: Seq<A>,
    name: spec_fn(A) -> Seq<char>,
    pred: spec_fn(A) -> bool,
)
    requires
        ascending(items, name),
    ensures
        ascending(items.filter(pred), name),
    decreases items.len(),
{
    reveal(Seq::filter);
    if items.len() > 0 {
        let front = items.drop_last();
        assert forall|i: int, j: int| 0 <= i < j < front.len() implies !text_le(
            name(#[trigger] front[j]),
            name(#[trigger] front[i]),
        ) by {
            assert(front[i] == items[i] && front[j] == items[j]);
        }
        lemma_filter_ascends(front, name, pred);
        let kept = items.filter(pred);
        let before = front.filter(pred);
        assert forall|i: int, j: int| 0 <= i < j < kept.len() implies !text_le(
            name(#[trigger] kept[j]),
            name(#[trigger] kept[i]),
        ) by {
            assert(kept[i] == before[i]);
            if j < before.len() {
                assert(kept[j] == before[j]);
            } else {
                front.lemma_filter_contains_rev(pred, before[i]);
                let k = choose|k: int| 0 <= k < front.len() && front[k] == before[i];
                assert(items[k] == kept[i]);
                assert(kept[j] == items[items.len() - 1]);
            }
        }
    }
}

/// In an ascending listing a next cursor leads to a page that holds something: what comes after
/// the next cursor is what this page left over.
pub proof fn law_next_cursor_leads_to_a_page<A>(
    items: Seq<A>,
    name: spec_fn(A) -> Seq<char>,
    cursor: Option<Seq<char>>,
    limit: u32,
)
    requires
        ascending(items, name),
        cursor_after(items, name, cursor, Some(limit)) is Some,
    ensures
        page_of(
            items,
            name,
            cursor_after(items, name, cursor, Some(limit)),
            Some(limit),
        ).len() > 0,
{
    let pred = |item: A| after_cursor(name(item), cursor);
    let rest = remaining(items, name, cursor);
    let size = page_size(limit);
    let next = name(rest[size - 1]);
    let left = |item: A| after_cursor(name(item), Some(next));
    lemma_filter_ascends(items, name, pred);
    items.lemma_filter_contains_rev(pred, rest[size]);
    assert(!text_le(name(rest[size]), name(rest[size - 1])));
    let i = choose|i: int| 0 <= i < items.len() && items[i] == rest[size];
    items.lemma_filter_contains(left, i);
    assert(remaining(items, name, Some(next)).contains(rest[size]));
}

/// A page of limit `n` holds `n` of the items whose names come after the cursor, or all of them
/// where they are fewer: the first ones, in the order of the listing. A limit of zero counts as
/// one, and without a limit the page holds all. Where items are left over the next cursor is the
/// name of the item at the limit, else there is none.
pub proof fn law_page_holds_the_first_items<A>(
    items: Seq<A>,
    name: spec_fn(A) -> Seq<char>,
    cursor: Option<Seq<char>>,
    limit: Option<u32>,
)
    ensures
        ({
            let rest = items.filter(
                |item: A| cursor is None || !text_le(name(item), cursor->0),
            );
            let page = page_of(items, name, cursor, limit);
            let next = cursor_after(items, name, cursor, limit);
            &&& limit is None ==> page == rest && next is None
            &&& limit matches Some(n) ==> n >= 1 ==> {
                &&& page.len() == if rest.len() < n {
                    rest.len()
                } else {
                    n as nat
                }
                &&& page == rest.take(page.len() as int)
                &&& rest.len() > n ==> next == Some(name(rest[n - 1]))
                &&& rest.len() <= n ==> next is None
            }
            &&& limit == Some(0u32) ==> {
                &&& page == page_of(items, name, cursor, Some(1u32))
                &&& next == cursor_after(items, name, cursor, Some(1u32))
            }
        }),
{
    let pred = |item: A| after_cursor(name(item), cursor);
    let direct = |item: A| cursor is None || !text_le(name(item), cursor->0);
    assert forall|item: A| #[trigger] pred(item) == direct(item) by {}
    lemma_filter_same(items, pred, direct);
    let rest = items.filter(direct);
    let page = page_of(items, name, cursor, limit);
    assert(remaining(items, name, cursor) == rest);
    assert(page =~= rest.take(page.len() as int));
}

/// Whether an item named `name` comes after the cursor of `query`.
fn comes_after(name: &str, query: &ListQuery) -> (r: bool)
    ensures
        r == after_cursor(name@, opt_view(query.cursor)),
{
    match &query.cursor {
        Some(cursor) => !text_at_most(name, cursor.as_str()),
        None => true,
    }
}

// -------------------------------------------------------------------------------------------
// Sandboxes
// -------------------------------------------------------------------------------------------

/// What looked-up sandboxes say.
pub open spec fn handles_view(handles: Seq<SandboxHandle>) -> Seq<HandleView> {
    Seq::new(handles.len(), |i: int| handles[i]@)
}

/// The name that a sandbox is listed by.
pub open spec fn sandbox_name() -> spec_fn(HandleView) -> Seq<char> {
    |handle: HandleView| handle.name
}

/// The page of sandboxes that `query` asks for.
pub open spec fn sandbox_page(handles: Seq<HandleView>, query: ListQuery) -> Seq<HandleView> {
    page_of(handles, sandbox_name(), opt_view(query.cursor), query.limit)
}

/// Whether the sandbox at `i` is the first of the page that cannot be shown.
pub open spec fn first_refused(page: Seq<HandleView>, i: int) -> bool {
    &&& 0 <= i < page.len()
    &&& handle_request(page[i]) is Err
    &&& forall|j: int| 0 <= j < i ==> handle_request(#[trigger] page[j]) is Ok
}

/// A page of sandboxes holds as many of those whose names come after the cursor as the limit
/// admits, in the order in which the runtime lists them, and leaves none of them out before it is
/// full.
pub proof fn law_sandboxes_are_paged(handles: Seq<HandleView>, query: ListQuery)
    ensures
        ({
            let rest = handles.filter(
                |handle: HandleView|
                    query.cursor is None || !text_le(handle.name, query.cursor->0@),
            );
            let page = sandbox_page(handles, query);
            let next = cursor_after(
                handles,
                sandbox_name(),
                opt_view(query.cursor),
                query.limit,
            );
            &&& query.limit is None ==> page == rest && next is None
            &&& query.limit matches Some(n) ==> n >= 1 ==> {
                &&& page.len() == if rest.len() < n {
                    rest.len()
                } else {
                    n as nat
                }
                &&& page == rest.take(page.len() as int)
                &&& rest.len() > n ==> next == Some(rest[n - 1].name)
                &&& rest.len() <= n ==> next is None
            }
        }),
{
    let cursor = opt_view(query.cursor);
    law_page_holds_the_first_items(handles, sandbox_name(), cursor, query.limit);
    lemma_filter_same(
        handles,
        |handle: HandleView| query.cursor is None || !text_le(handle.name, query.cursor->0@),
        |item: HandleView| cursor is None || !text_le(sandbox_name()(item), cursor->0),
    );
}

/// A page of the sandboxes, in the order in which the runtime lists them.
///
/// The first sandbox of the page that cannot be shown refuses the whole page.
pub fn list_sandboxes(handles: &Vec<SandboxHandle>, query: &ListQuery) -> (r: Result<
    CloudPaginated<CloudSandbox>,
    ApiError,
>)
    ensures
        ({
            let page = sandbox_page(handles_view(handles@), *query);
            match r {
                Ok(listed) => {
                    &&& listed.data.len() == page.len()
                    &&& forall|i: int|
                        0 <= i < page.len() ==> handle_request(#[trigger] page[i]) is Ok
                            && answers_for(
                            listed.data[i]@,
                            page[i],
                            handle_request(page[i])->Ok_0,
                        )
                    &&& opt_view(listed.next_cursor) == cursor_after(
                        handles_view(handles@),
                        sandbox_name(),
                        opt_view(query.cursor),
                        query.limit,
                    )
                    &&& query.limit matches Some(n) ==> n >= 1 ==> listed.data.len() <= n
                    &&& forall|i: int|
                        0 <= i < listed.data.len() ==> query.cursor is None || !text_le(
                            (#[trigger] listed.data@[i]).name@,
                            query.cursor->0@,
                        )
                    &&& listed.next_cursor is Some ==> {
                        &&& query.limit is Some
                        &&& listed.data.len() >= query.limit->0
                        &&& listed.data.len() > 0
                        &&& listed.next_cursor->0@ == listed.data@.last().name@
                    }
                    &&& query.cursor is None && query.limit is None ==> {
                        &&& listed.data.len() == handles.len()
                        &&& forall|i: int|
                            0 <= i < handles.len() ==> (#[trigger] listed.data@[i]).name@
                                == handles@[i].name@
                    }
                },
                Err(refusal) => exists|i: int| #[trigger]
                    first_refused(page, i) && handle_request(page[i])->Err_0 == refusal@,
            }
        }),
{
    let ghost views = handles_view(handles@);
    let ghost cursor = opt_view(query.cursor);
    let ghost pred = |item: HandleView| after_cursor(sandbox_name()(item), cursor);
    let ghost page = sandbox_page(views, *query);
    let mut data: Vec<CloudSandbox> = Vec::new();
    let mut i: usize = 0;
    let mut full: bool = false;
    assert(views.take(0).filter(pred).len() == 0) by {
        reveal(Seq::filter);
    }
    while i < handles.len() && !full
        invariant
            i <= handles.len(),
            views == handles_view(handles@),
            cursor == opt_view(query.cursor),
            pred == (|item: HandleView| after_cursor(sandbox_name()(item), cursor)),
            page == sandbox_page(views, *query),
            data.len() == views.take(i as int).filter(pred).len(),
            data.len() <= page.len(),
            full <==> query.limit is Some && data.len() > 0 && data.len() >= query.limit->0,
            query.limit is Some ==> data.len() <= page_size(query.limit->0),
            forall|j: int|
                0 <= j < data.len() ==> handle_request(#[trigger] page[j]) is Ok && answers_for(
                    data[j]@,
                    page[j],
                    handle_request(page[j])->Ok_0,
                ),
            forall|j: int| 0 <= j < data.len() ==> (#[trigger] data[j])@.name == page[j].name,
        decreases handles.len() - i,
    {
        let handle = &handles[i];
        proof {
            lemma_filter_step(views, pred, i as int);
            lemma_filter_prefix(views, pred, i as int);
            lemma_filter_prefix(views, pred, i + 1);
        }
        if comes_after(handle.name.as_str(), query) {
            proof {
                let now_kept = views.take(i + 1).filter(pred);
                assert(now_kept.last() == views[i as int]);
                assert(views.filter(pred)[data.len() as int] == now_kept[data.len() as int]);
                assert(page[data.len() as int] == handle@);
            }
            let req = match cloud_request_from_handle(handle) {
                Ok(req) => req,
                Err(refusal) => {
                    assert(first_refused(page, data.len() as int));
                    return Err(refusal);
                },
            };
            let sandbox = cloud_sandbox_from_handle(handle, req);
            data.push(sandbox);
            full = match query.limit {
                Some(limit) => data.len() >= limit as usize,
                None => false,
            };
        }
        i = i + 1;
    }
    proof {
        assert(views.take(views.len() as int) =~= views);
        lemma_filter_prefix(views, pred, i as int);
        assert(data.len() == page.len());
    }
    let ghost shown = data.len();
    let mut more: bool = false;
    while i < handles.len() && !more
        invariant
            i <= handles.len(),
            views == handles_view(handles@),
            cursor == opt_view(query.cursor),
            pred == (|item: HandleView| after_cursor(sandbox_name()(item), cursor)),
            i < handles.len() ==> full,
            more ==> full && shown < views.filter(pred).len(),
            !more ==> shown == views.take(i as int).filter(pred).len(),
        decreases handles.len() - i,
    {
        proof {
            lemma_filter_step(views, pred, i as int);
            lemma_filter_prefix(views, pred, i + 1);
        }
        more = comes_after(handles[i].name.as_str(), query);
        i = i + 1;
    }
    proof {
        law_page_is_bounded(views, sandbox_name(), cursor, query.limit);
        assert forall|j: int| 0 <= j < data.len() implies query.cursor is None || !text_le(
            (#[trigger] data@[j]).name@,
            query.cursor->0@,
        ) by {
            assert(data[j]@.name == page[j].name);
            assert(after_cursor(sandbox_name()(page[j]), cursor));
        }
        if query.cursor is None && query.limit is None {
            lemma_all_kept(views, pred);
            assert forall|j: int| 0 <= j < handles.len() implies (#[trigger] data@[j]).name@
                == handles@[j].name@ by {
                assert(data[j]@.name == page[j].name);
                assert(page[j] == views[j]);
            }
        }
    }
    let next_cursor: Option<String> = if more {
        Some(data[data.len() - 1].name.clone())
    } else {
        None
    };
    Ok(CloudPaginated { data, next_cursor })
}

// -------------------------------------------------------------------------------------------
// Volumes
// -------------------------------------------------------------------------------------------

/// What looked-up volumes say.
pub open spec fn volumes_view(handles: Seq<VolumeHandle>) -> Seq<VolumeHandleView> {
    Seq::new(handles.len(), |i: int| handles[i]@)
}

/// The name that a volume is listed by.
pub open spec fn volume_name() -> spec_fn(VolumeHandleView) -> Seq<char> {
    |handle: VolumeHandleView| handle.name
}

/// `sorted` with `item` put in behind every item whose name comes no later.
pub open spec fn inserted<A>(sorted: Seq<A>, name: spec_fn(A) -> Seq<char>, item: A) -> Seq<A>
    decreases sorted.len(),
{
    if sorted.len() == 0 || text_le(name(sorted.last()), name(item)) {
        sorted.push(item)
    } else {
        inserted(sorted.drop_last(), name, item).push(sorted.last())
    }
}

/// The items in the order of their names, those of one name in the order in which they came.
pub open spec fn by_name<A>(items: Seq<A>, name: spec_fn(A) -> Seq<char>) -> Seq<A>
    decreases items.len(),
{
    if items.len() == 0 {
        Seq::empty()
    } else {
        inserted(by_name(items.drop_last(), name), name, items.last())
    }
}

proof fn lemma_inserted_at<A>(sorted: Seq<A>, name: spec_fn(A) -> Seq<char>, item: A, k: int)
    requires
        0 <= k <= sorted.len(),
        k > 0 ==> text_le(name(sorted[k - 1]), name(item)),
        forall|j: int| k <= j < sorted.len() ==> !text_le(name(#[trigger] sorted[j]), name(item)),
    ensures
        inserted(sorted, name, item) == sorted.insert(k, item),
    decreases sorted.len(),
{
    if k == sorted.len() {
        assert(sorted.push(item) =~= sorted.insert(k, item));
    } else {
        let front = sorted.drop_last();
        assert forall|j: int| k <= j < front.len() implies !text_le(
            name(#[trigger] front[j]),
            name(item),
        ) by {
            assert(front[j] == sorted[j]);
        }
        assert(!text_le(name(sorted[sorted.len() - 1]), name(item)));
        lemma_inserted_at(front, name, item, k);
        assert(front.insert(k, item).push(sorted.last()) =~= sorted.insert(k, item));
    }
}

/// No item comes before one of an earlier name.
pub open spec fn is_sorted<A>(items: Seq<A>, name: spec_fn(A) -> Seq<char>) -> bool {
    forall|i: int, j: int|
        0 <= i <= j < items.len() ==> text_le(name(#[trigger] items[i]), name(#[trigger] items[j]))
}

/// The place in `sorted` where `item` is put in.
spec fn insertion_index<A>(sorted: Seq<A>, name: spec_fn(A) -> Seq<char>, item: A) -> int
    decreases sorted.len(),
{
    if sorted.len() == 0 || text_le(name(sorted.last()), name(item)) {
        sorted.len() as int
    } else {
        insertion_index(sorted.drop_last(), name, item)
    }
}

proof fn lemma_insertion_index<A>(sorted: Seq<A>, name: spec_fn(A) -> Seq<char>, item: A)
    ensures
        ({
            let k = insertion_index(sorted, name, item);
            &&& 0 <= k <= sorted.len()
            &&& k > 0 ==> text_le(name(sorted[k - 1]), name(item))
            &&& forall|j: int|
                k <= j < sorted.len() ==> !text_le(name(#[trigger] sorted[j]), name(item))
            &&& inserted(sorted, name, item) == sorted.insert(k, item)
        }),
    decreases sorted.len(),
{
    let k = insertion_index(sorted, name, item);
    if sorted.len() > 0 && !text_le(name(sorted.last()), name(item)) {
        let front = sorted.drop_last();
        lemma_insertion_index(front, name, item);
        assert forall|j: int| k <= j < sorted.len() implies !text_le(
            name(#[trigger] sorted[j]),
            name(item),
        ) by {
            if j < front.len() {
                assert(front[j] == sorted[j]);
            }
        }
    }
    lemma_inserted_at(sorted, name, item, k);
}

proof fn lemma_inserted_sorted<A>(sorted: Seq<A>, name: spec_fn(A) -> Seq<char>, item: A)
    requires
        is_sorted(sorted, name),
    ensures
        is_sorted(inserted(sorted, name, item), name),
{
    lemma_insertion_index(sorted, name, item);
    let k = insertion_index(sorted, name, item);
    let after = inserted(sorted, name, item);
    assert forall|i: int, j: int| 0 <= i <= j < after.len() implies text_le(
        name(#[trigger] after[i]),
        name(#[trigger] after[j]),
    ) by {
        law_text_le_is_a_total_order(name(item), name(item), name(item));
        if i != k && j != k {
            let x = if i < k {
                i
            } else {
                i - 1
            };
            let y = if j < k {
                j
            } else {
                j - 1
            };
            assert(after[i] == sorted[x] && after[j] == sorted[y]);
        } else if i < k {
            assert(after[i] == sorted[i]);
            assert(text_le(name(sorted[i]), name(sorted[k - 1])));
            law_text_le_is_a_total_order(name(sorted[i]), name(sorted[k - 1]), name(item));
        } else if j > k {
            assert(after[j] == sorted[j - 1]);
            law_text_le_is_a_total_order(name(item), name(sorted[j - 1]), name(item));
        }
    }
}

/// Listing by name puts the items in the order of their names and neither adds nor drops one.
pub proof fn law_by_name_sorts<A>(items: Seq<A>, name: spec_fn(A) -> Seq<char>)
    ensures
        is_sorted(by_name(items, name), name),
        by_name(items, name).to_multiset() == items.to_multiset(),
        by_name(items, name).len() == items.len(),
    decreases items.len(),
{
    broadcast use vstd::seq_lib::group_to_multiset_ensures;

    if items.len() > 0 {
        let front = items.drop_last();
        law_by_name_sorts(front, name);
        lemma_inserted_sorted(by_name(front, name), name, items.last());
        lemma_insertion_index(by_name(front, name), name, items.last());
        assert(front.push(items.last()) =~= items);
    } else {
        assert(items =~= Seq::empty());
    }
}

proof fn lemma_insert_filter<A>(s: Seq<A>, k: int, item: A, pred: spec_fn(A) -> bool)
    requires
        0 <= k <= s.len(),
        forall|j: int| k <= j < s.len() && pred(item) ==> !pred(#[trigger] s[j]),
    ensures
        s.insert(k, item).filter(pred) == if pred(item) {
            s.filter(pred).push(item)
        } else {
            s.filter(pred)
        },
{
    let head = s.take(k);
    let tail = s.skip(k);
    assert(s =~= head + tail);
    assert(s.insert(k, item) =~= (head + seq![item]) + tail);
    Seq::filter_distributes_over_add(head, tail, pred);
    Seq::filter_distributes_over_add(head + seq![item], tail, pred);
    Seq::filter_distributes_over_add(head, seq![item], pred);
    reveal_with_fuel(Seq::filter, 2);
    let one = seq![item];
    assert(one.drop_last() =~= Seq::empty());
    assert(one.filter(pred) =~= if pred(item) {
        seq![item]
    } else {
        Seq::empty()
    });
    if pred(item) {
        assert forall|j: int| 0 <= j < tail.len() implies !pred(#[trigger] tail[j]) by {
            assert(tail[j] == s[k + j]);
        }
        tail.lemma_all_neg_filter_empty(pred);
        assert(s.insert(k, item).filter(pred) =~= s.filter(pred).push(item));
    } else {
        assert(s.insert(k, item).filter(pred) =~= s.filter(pred));
    }
}

/// Listing by name keeps items of one name in the order in which they came.
pub proof fn law_by_name_is_stable<A>(
    items: Seq<A>,
    name: spec_fn(A) -> Seq<char>,
    shared: Seq<char>,
)
    ensures
        by_name(items, name).filter(|item: A| name(item) == shared) == items.filter(
            |item: A| name(item) == shared,
        ),
    decreases items.len(),
{
    let pred = |item: A| name(item) == shared;
    reveal(Seq::filter);
    if items.len() > 0 {
        let front = items.drop_last();
        let item = items.last();
        law_by_name_is_stable(front, name, shared);
        let sorted = by_name(front, name);
        lemma_insertion_index(sorted, name, item);
        let k = insertion_index(sorted, name, item);
        assert forall|j: int| k <= j < sorted.len() && pred(item) implies !pred(
            #[trigger] sorted[j],
        ) by {
            law_text_le_is_a_total_order(name(item), name(item), name(item));
        }
        lemma_insert_filter(sorted, k, item, pred);
    }
}

/// No two items share a name.
pub open spec fn names_distinct<A>(items: Seq<A>, name: spec_fn(A) -> Seq<char>) -> bool {
    forall|i: int, j: int|
        0 <= i < j < items.len() ==> name(#[trigger] items[i]) != name(#[trigger] items[j])
}

proof fn lemma_inserted_distinct<A>(sorted: Seq<A>, name: spec_fn(A) -> Seq<char>, item: A)
    requires
        names_distinct(sorted, name),
        forall|i: int| 0 <= i < sorted.len() ==> name(#[trigger] sorted[i]) != name(item),
    ensures
        names_distinct(inserted(sorted, name, item), name),
{
    lemma_insertion_index(sorted, name, item);
    let k = insertion_index(sorted, name, item);
    let after = inserted(sorted, name, item);
    assert forall|i: int, j: int| 0 <= i < j < after.len() implies name(#[trigger] after[i])
        != name(#[trigger] after[j]) by {
        let x = if i < k {
            i
        } else {
            i - 1
        };
        let y = if j < k {
            j
        } else {
            j - 1
        };
        if i != k {
            assert(after[i] == sorted[x]);
        }
        if j != k {
            assert(after[j] == sorted[y]);
        }
    }
}

proof fn lemma_by_name_distinct<A>(items: Seq<A>, name: spec_fn(A) -> Seq<char>)
    requires
        names_distinct(items, name),
    ensures
        names_distinct(by_name(items, name), name),
    decreases items.len(),
{
    if items.len() > 0 {
        let front = items.drop_last();
        let item = items.last();
        assert forall|i: int, j: int| 0 <= i < j < front.len() implies name(#[trigger] front[i])
            != name(#[trigger] front[j]) by {
            assert(front[i] == items[i] && front[j] == items[j]);
        }
        lemma_by_name_distinct(front, name);
        law_by_name_sorts(front, name);
        let sorted = by_name(front, name);
        assert forall|i: int| 0 <= i < sorted.len() implies name(#[trigger] sorted[i]) != name(
            item,
        ) by {
            broadcast use vstd::seq_lib::group_to_multiset_ensures;

            assert(sorted.contains(sorted[i]));
            assert(sorted.to_multiset().count(sorted[i]) > 0);
            assert(front.contains(sorted[i]));
            let j = choose|j: int| 0 <= j < front.len() && front[j] == sorted[i];
            assert(items[j] == sorted[i]);
            assert(name(items[j]) != name(items[items.len() - 1]));
        }
        lemma_inserted_distinct(sorted, name, item);
    }
}

/// Listed by name, items that share no name ascend strictly; so a client that follows the cursors
/// sees each of them exactly once and comes to the end, whatever order they were found in.
pub proof fn law_by_name_is_traversed<A>(
    items: Seq<A>,
    name: spec_fn(A) -> Seq<char>,
    limit: u32,
    pages: nat,
)
    requires
        names_distinct(items, name),
        pages > 0,
        pages * page_size(limit) >= items.len(),
    ensures
        ascending(by_name(items, name), name),
        traversal(by_name(items, name), name, None, limit, pages) == by_name(items, name),
        traversal(by_name(items, name), name, None, limit, pages).to_multiset()
            == items.to_multiset(),
        ends_within(by_name(items, name), name, None, limit, pages),
{
    let sorted = by_name(items, name);
    law_by_name_sorts(items, name);
    lemma_by_name_distinct(items, name);
    assert forall|i: int, j: int| 0 <= i < j < sorted.len() implies !text_le(
        name(#[trigger] sorted[j]),
        name(#[trigger] sorted[i]),
    ) by {
        assert(text_le(name(sorted[i]), name(sorted[j])));
        law_text_le_is_a_total_order(name(sorted[i]), name(sorted[j]), name(sorted[i]));
    }
    law_cursors_visit_every_item_once(sorted, name, limit, pages);
}

/// The volumes in the order of their names.
pub fn sort_volumes(handles: Vec<VolumeHandle>) -> (sorted: Vec<VolumeHandle>)
    ensures
        volumes_view(sorted@) == by_name(volumes_view(handles@), volume_name()),
{
    let ghost views = volumes_view(handles@);
    let ghost name = volume_name();
    let mut sorted: Vec<VolumeHandle> = Vec::new();
    proof {
        assert(views.take(0) =~= Seq::empty());
        assert(volumes_view(sorted@) =~= Seq::empty());
    }
    for handle in it: handles
        invariant
            it.seq() == handles@,
            views == volumes_view(handles@),
            name == volume_name(),
            volumes_view(sorted@) == by_name(views.take(it.index()), name),
    {
        let ghost before = volumes_view(sorted@);
        let mut k: usize = sorted.len();
        while k > 0 && !text_at_most(sorted[k - 1].name.as_str(), handle.name.as_str())
            invariant
                k <= sorted.len(),
                before == volumes_view(sorted@),
                name == volume_name(),
                forall|j: int|
                    k <= j < sorted.len() ==> !text_le(
                        name(#[trigger] before[j]),
                        name(handle@),
                    ),
            decreases k,
        {
            assert(before[k - 1] == sorted@[k - 1]@);
            k = k - 1;
        }
        proof {
            if k > 0 {
                assert(before[k - 1] == sorted@[k - 1]@);
            }
            lemma_inserted_at(before, name, handle@, k as int);
            let seen = views.take(it.index() + 1);
            assert(seen.drop_last() =~= views.take(it.index()));
            assert(seen.last() == handle@);
        }
        let ghost item = handle@;
        sorted.insert(k, handle);
        assert(volumes_view(sorted@) =~= before.insert(k as int, item));
    }
    assert(views.take(views.len() as int) =~= views);
    sorted
}

/// The page of volumes that `query` asks for.
pub open spec fn volume_page(handles: Seq<VolumeHandleView>, query: ListQuery) -> Seq<
    VolumeHandleView,
> {
    page_of(by_name(handles, volume_name()), volume_name(), opt_view(query.cursor), query.limit)
}

proof fn lemma_filter_sorted<A>(
    items: Seq<A>,
    name: spec_fn(A) -> Seq<char>,
    pred: spec_fn(A) -> bool,
)
    requires
        is_sorted(items, name),
    ensures
        is_sorted(items.filter(pred), name),
    decreases items.len(),
{
    reveal(Seq::filter);
    if items.len() > 0 {
        let front = items.drop_last();
        assert forall|i: int, j: int| 0 <= i <= j < front.len() implies text_le(
            name(#[trigger] front[i]),
            name(#[trigger] front[j]),
        ) by {
            assert(front[i] == items[i] && front[j] == items[j]);
        }
        lemma_filter_sorted(front, name, pred);
        let kept = items.filter(pred);
        let before = front.filter(pred);
        assert forall|i: int, j: int| 0 <= i <= j < kept.len() implies text_le(
            name(#[trigger] kept[i]),
            name(#[trigger] kept[j]),
        ) by {
            if j < before.len() {
                assert(kept[i] == before[i] && kept[j] == before[j]);
            } else {
                assert(kept[j] == items[items.len() - 1]);
                if i < before.len() {
                    assert(kept[i] == before[i]);
                    front.lemma_filter_contains_rev(pred, before[i]);
                    let k = choose|k: int| 0 <= k < front.len() && front[k] == before[i];
                    assert(items[k] == kept[i]);
                } else {
                    assert(kept[i] == items[items.len() - 1]);
                }
            }
        }
    }
}

proof fn lemma_page_is_sorted<A>(
    items: Seq<A>,
    name: spec_fn(A) -> Seq<char>,
    cursor: Option<Seq<char>>,
    limit: Option<u32>,
)
    requires
        is_sorted(items, name),
    ensures
        is_sorted(page_of(items, name, cursor, limit), name),
{
    let rest = remaining(items, name, cursor);
    let page = page_of(items, name, cursor, limit);
    lemma_filter_sorted(items, name, |item: A| after_cursor(name(item), cursor));
    assert forall|i: int, j: int| 0 <= i <= j < page.len() implies text_le(
        name(#[trigger] page[i]),
        name(#[trigger] page[j]),
    ) by {
        assert(page[i] == rest[i] && page[j] == rest[j]);
    }
}

/// The volumes are listed in the order of their names, each as often as it was found and those of
/// one name in the order in which they were found; and a page holds as many of those whose names
/// come after the cursor as the limit admits, in that order.
pub proof fn law_volumes_are_sorted_and_paged(
    handles: Seq<VolumeHandleView>,
    query: ListQuery,
    shared: Seq<char>,
)
    ensures
        ({
            let sorted = by_name(handles, volume_name());
            let rest = sorted.filter(
                |handle: VolumeHandleView|
                    query.cursor is None || !text_le(handle.name, query.cursor->0@),
            );
            let page = volume_page(handles, query);
            let next = cursor_after(sorted, volume_name(), opt_view(query.cursor), query.limit);
            &&& sorted.to_multiset() == handles.to_multiset()
            &&& forall|i: int, j: int|
                0 <= i <= j < sorted.len() ==> text_le(
                    (#[trigger] sorted[i]).name,
                    (#[trigger] sorted[j]).name,
                )
            &&& sorted.filter(|handle: VolumeHandleView| handle.name == shared) == handles.filter(
                |handle: VolumeHandleView| handle.name == shared,
            )
            &&& query.limit is None ==> page == rest && next is None
            &&& query.limit matches Some(n) ==> n >= 1 ==> {
                &&& page.len() == if rest.len() < n {
                    rest.len()
                } else {
                    n as nat
                }
                &&& page == rest.take(page.len() as int)
                &&& rest.len() > n ==> next == Some(rest[n - 1].name)
                &&& rest.len() <= n ==> next is None
            }
        }),
{
    let cursor = opt_view(query.cursor);
    let name = volume_name();
    let sorted = by_name(handles, name);
    law_by_name_sorts(handles, name);
    assert forall|i: int, j: int| 0 <= i <= j < sorted.len() implies text_le(
        (#[trigger] sorted[i]).name,
        (#[trigger] sorted[j]).name,
    ) by {
        assert(text_le(name(sorted[i]), name(sorted[j])));
    }
    law_by_name_is_stable(handles, name, shared);
    let by_field = |handle: VolumeHandleView| handle.name == shared;
    let by_fn = |item: VolumeHandleView| name(item) == shared;
    lemma_filter_same(sorted, by_field, by_fn);
    lemma_filter_same(handles, by_field, by_fn);
    law_page_holds_the_first_items(sorted, name, cursor, query.limit);
    lemma_filter_same(
        sorted,
        |handle: VolumeHandleView| query.cursor is None || !text_le(
            handle.name,
            query.cursor->0@,
        ),
        |item: VolumeHandleView| cursor is None || !text_le(name(item), cursor->0),
    );
}

/// A page of the volumes `handles`, in the order in which they come.
fn page_volumes(handles: &Vec<VolumeHandle>, query: &ListQuery) -> (listed: CloudPaginated<
    CloudVolume,
>)
    ensures
        ({
            let page = page_of(
                volumes_view(handles@),
                volume_name(),
                opt_view(query.cursor),
                query.limit,
            );
            &&& listed.data.len() == page.len()
            &&& forall|i: int|
                0 <= i < page.len() ==> listed.data[i]@ == volume_answer(#[trigger] page[i])
            &&& opt_view(listed.next_cursor) == cursor_after(
                volumes_view(handles@),
                volume_name(),
                opt_view(query.cursor),
                query.limit,
            )
            &&& query.limit matches Some(n) ==> n >= 1 ==> listed.data.len() <= n
            &&& forall|i: int|
                0 <= i < listed.data.len() ==> query.cursor is None || !text_le(
                    (#[trigger] listed.data@[i]).name@,
                    query.cursor->0@,
                )
            &&& listed.next_cursor is Some ==> {
                &&& query.limit is Some
                &&& listed.data.len() >= query.limit->0
                &&& listed.data.len() > 0
                &&& listed.next_cursor->0@ == listed.data@.last().name@
            }
            &&& query.cursor is None && query.limit is None ==> listed.data.len() == handles.len()
        }),
{
    let ghost views = volumes_view(handles@);
    let ghost cursor = opt_view(query.cursor);
    let ghost page = page_of(views, volume_name(), cursor, query.limit);
    let ghost pred = |item: VolumeHandleView| after_cursor(volume_name()(item), cursor);
    let mut data: Vec<CloudVolume> = Vec::new();
    let mut i: usize = 0;
    let mut full: bool = false;
    assert(views.take(0).filter(pred).len() == 0) by {
        reveal(Seq::filter);
    }
    while i < handles.len() && !full
        invariant
            i <= handles.len(),
            views == volumes_view(handles@),
            cursor == opt_view(query.cursor),
            pred == (|item: VolumeHandleView| after_cursor(volume_name()(item), cursor)),
            page == page_of(views, volume_name(), cursor, query.limit),
            data.len() == views.take(i as int).filter(pred).len(),
            data.len() <= page.len(),
            full <==> query.limit is Some && data.len() > 0 && data.len() >= query.limit->0,
            query.limit is Some ==> data.len() <= page_size(query.limit->0),
            forall|j: int| 0 <= j < data.len() ==> data[j]@ == volume_answer(#[trigger] page[j]),
        decreases handles.len() - i,
    {
        let handle = &handles[i];
        proof {
            lemma_filter_step(views, pred, i as int);
            lemma_filter_prefix(views, pred, i as int);
            lemma_filter_prefix(views, pred, i + 1);
        }
        if comes_after(handle.name.as_str(), query) {
            proof {
                let now_kept = views.take(i + 1).filter(pred);
                assert(now_kept.last() == views[i as int]);
                assert(views.filter(pred)[data.len() as int] == now_kept[data.len() as int]);
                assert(page[data.len() as int] == handle@);
            }
            let volume = cloud_volume_from_handle(handle);
            data.push(volume);
            full = match query.limit {
                Some(limit) => data.len() >= limit as usize,
                None => false,
            };
        }
        i = i + 1;
    }
    proof {
        assert(views.take(views.len() as int) =~= views);
        lemma_filter_prefix(views, pred, i as int);
        assert(data.len() == page.len());
    }
    let ghost shown = data.len();
    let mut more: bool = false;
    while i < handles.len() && !more
        invariant
            i <= handles.len(),
            views == volumes_view(handles@),
            cursor == opt_view(query.cursor),
            pred == (|item: VolumeHandleView| after_cursor(volume_name()(item), cursor)),
            i < handles.len() ==> full,
            more ==> full && shown < views.filter(pred).len(),
            !more ==> shown == views.take(i as int).filter(pred).len(),
        decreases handles.len() - i,
    {
        proof {
            lemma_filter_step(views, pred, i as int);
            lemma_filter_prefix(views, pred, i + 1);
        }
        more = comes_after(handles[i].name.as_str(), query);
        i = i + 1;
    }
    proof {
        law_page_is_bounded(views, volume_name(), cursor, query.limit);
        assert forall|j: int| 0 <= j < data.len() implies query.cursor is None || !text_le(
            (#[trigger] data@[j]).name@,
            query.cursor->0@,
        ) by {
            assert(data[j]@ == volume_answer(page[j]));
            assert(after_cursor(volume_name()(page[j]), cursor));
        }
        if query.cursor is None && query.limit is None {
            lemma_all_kept(views, pred);
        }
    }
    let next_cursor: Option<String> = if more {
        assert(data@[data.len() - 1]@ == volume_answer(page[data.len() - 1]));
        Some(data[data.len() - 1].name.clone())
    } else {
        None
    };
    CloudPaginated { data, next_cursor }
}

/// A page of the volumes, in the order of their names.
pub fn list_volumes(handles: Vec<VolumeHandle>, query: &ListQuery) -> (listed: CloudPaginated<
    CloudVolume,
>)
    ensures
        ({
            let page = volume_page(volumes_view(handles@), *query);
            &&& listed.data.len() == page.len()
            &&& forall|i: int|
                0 <= i < page.len() ==> listed.data[i]@ == volume_answer(#[trigger] page[i])
            &&& opt_view(listed.next_cursor) == cursor_after(
                by_name(volumes_view(handles@), volume_name()),
                volume_name(),
                opt_view(query.cursor),
                query.limit,
            )
            &&& query.limit matches Some(n) ==> n >= 1 ==> listed.data.len() <= n
            &&& forall|i: int|
                0 <= i < listed.data.len() ==> query.cursor is None || !text_le(
                    (#[trigger] listed.data@[i]).name@,
                    query.cursor->0@,
                )
            &&& listed.next_cursor is Some ==> {
                &&& query.limit is Some
                &&& listed.data.len() >= query.limit->0
                &&& listed.data.len() > 0
                &&& listed.next_cursor->0@ == listed.data@.last().name@
            }
            &&& query.cursor is None && query.limit is None ==> listed.data.len() == handles.len()
            &&& forall|i: int, j: int|
                0 <= i <= j < listed.data.len() ==> text_le(
                    (#[trigger] listed.data@[i]).name@,
                    (#[trigger] listed.data@[j]).name@,
                )
        }),
{
    let ghost views = volumes_view(handles@);
    let sorted = sort_volumes(handles);
    let listed = page_volumes(&sorted, query);
    proof {
        let by_names = by_name(views, volume_name());
        let page = volume_page(views, *query);
        law_by_name_sorts(views, volume_name());
        lemma_page_is_sorted(by_names, volume_name(), opt_view(query.cursor), query.limit);
        assert(volumes_view(sorted@).len() == views.len());
        assert forall|i: int, j: int| 0 <= i <= j < listed.data.len() implies text_le(
            (#[trigger] listed.data@[i]).name@,
            (#[trigger] listed.data@[j]).name@,
        ) by {
            assert(listed.data[i]@ == volume_answer(page[i]));
            assert(listed.data[j]@ == volume_answer(page[j]));
            assert(text_le(volume_name()(page[i]), volume_name()(page[j])));
        }
    }
    listed
}

} // verus!
