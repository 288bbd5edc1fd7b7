//! The worker-step logic of the crawl loop: acquiring work from the
//! frontier with the single revisit guard, and processing one fetched
//! page — recording the visit, recording every discovery, and feeding the
//! in-scope, not-yet-visited discoveries back into the frontier. The
//! fetching itself and the link extraction are outside collaborators; a
//! driver hands their results in as plain values.

use vstd::prelude::*;

use crate::data_store::{has_visited_spec, DataStore, EntryModel};
use crate::link::{filter_url, in_scope_spec, process_url, resolve_spec, UrlParts};
use crate::url_frontier::Queue;

verus! {

/// What one dequeue attempt yields: the frontier was empty and this worker
/// is finished; the head URL was already visited and is skipped; or the
/// head URL is fresh and must be fetched.
pub enum WorkerStep {
    Done,
    Revisit,
    Fetch(String),
}

/// The resolved forms of the raw hrefs found on `page`, in extraction
/// order.
pub open spec fn resolved_links(links: Seq<Seq<char>>, page: Seq<char>) -> Seq<Seq<char>> {
    links.map_values(|l: Seq<char>| resolve_spec(l, page))
}

/// The store after one page visit: the page's record holds the resolved
/// discoveries in order and is marked visited; no other record changes.
pub open spec fn visit_page_spec(
    m: Map<Seq<char>, EntryModel>,
    page: Seq<char>,
    links: Seq<Seq<char>>,
) -> Map<Seq<char>, EntryModel> {
    m.insert(page, EntryModel { visited: true, urls_found: resolved_links(links, page) })
}

/// Whether one resolved discovery is fed back into the frontier: it must
/// be in scope and not visited — neither the page just processed nor a key
/// already visited before it.
pub open spec fn enqueue_pred(
    m: Map<Seq<char>, EntryModel>,
    page: Seq<char>,
    host: Seq<char>,
) -> spec_fn(Seq<char>) -> bool {
    |r: Seq<char>| in_scope_spec(r, host) && r != page && !has_visited_spec(m, r)
}

/// The discoveries of one page visit that are fed back into the frontier,
/// in extraction order.
pub open spec fn enqueued_links(
    m: Map<Seq<char>, EntryModel>,
    page: Seq<char>,
    links: Seq<Seq<char>>,
    host: Seq<char>,
) -> Seq<Seq<char>> {
    resolved_links(links, page).filter(enqueue_pred(m, page, host))
}

/// Law: a page visit never clears any visited flag — once a URL is
/// visited, processing further pages keeps it visited.
pub proof fn lemma_visit_page_monotonic(
    m: Map<Seq<char>, EntryModel>,
    page: Seq<char>,
    links: Seq<Seq<char>>,
    k: Seq<char>,
)
    requires
        has_visited_spec(m, k),
    ensures
        has_visited_spec(visit_page_spec(m, page, links), k),
{
}

/// One dequeue attempt with the single revisit guard: pops the frontier's
/// head; an empty frontier finishes the worker, a visited head is skipped,
/// a fresh head is handed back for fetching.
pub fn acquire_work<Q: Queue, D: DataStore>(url_frontier: &mut Q, data_store: &D) -> (step:
    WorkerStep)
    ensures
        final(url_frontier)@.delay_s == old(url_frontier)@.delay_s,
        match step {
            WorkerStep::Done => {
                &&& old(url_frontier)@.pending.len() == 0
                &&& final(url_frontier)@.pending == old(url_frontier)@.pending
            },
            WorkerStep::Revisit => {
                &&& old(url_frontier)@.pending.len() > 0
                &&& final(url_frontier)@.pending == old(url_frontier)@.pending.drop_first()
                &&& has_visited_spec(data_store@, old(url_frontier)@.pending[0])
            },
            WorkerStep::Fetch(url) => {
                &&& old(url_frontier)@.pending.len() > 0
                &&& url@ == old(url_frontier)@.pending[0]
                &&& final(url_frontier)@.pending == old(url_frontier)@.pending.drop_first()
                &&& !has_visited_spec(data_store@, url@)
            },
        },
{
    match url_frontier.dequeue() {
        None => WorkerStep::Done,
        Some(url) => {
            if data_store.has_visited(url.as_str()) {
                WorkerStep::Revisit
            } else {
                WorkerStep::Fetch(url)
            }
        },
    }
}

/// Processes one successfully fetched page: records an empty-discovery
/// `add` for it, marks it visited, then for every raw href in extraction
/// order resolves it against the page, records it as a discovery of the
/// page whatever its origin, and enqueues it exactly when it is in scope
/// and not already visited.
pub fn process_page<D: DataStore, Q: Queue>(
    data_store: &mut D,
    url_frontier: &mut Q,
    current_url: &String,
    links: &Vec<String>,
    seed_parts: &UrlParts,
)
    ensures
        final(data_store)@ == visit_page_spec(old(data_store)@, current_url@, links.deep_view()),
        final(url_frontier)@.pending == old(url_frontier)@.pending + enqueued_links(
            old(data_store)@,
            current_url@,
            links.deep_view(),
            seed_parts.host@,
        ),
        final(url_frontier)@.delay_s == old(url_frontier)@.delay_s,
{
    let ghost m0 = data_store@;
    let ghost pending0 = url_frontier@.pending;
    let ghost page = current_url@;
    let ghost host = seed_parts.host@;
    let ghost links_v = links.deep_view();

    data_store.add(current_url.clone(), None);
    data_store.visited(current_url.as_str());
    proof {
        assert(links_v.take(0) =~= Seq::<Seq<char>>::empty());
        assert(resolved_links(links_v.take(0), page) =~= Seq::<Seq<char>>::empty());
        assert(enqueued_links(m0, page, links_v.take(0), host) =~= Seq::<Seq<char>>::empty());
        assert(pending0 + enqueued_links(m0, page, links_v.take(0), host) =~= pending0);
        assert(data_store@ =~= m0.insert(
            page,
            EntryModel { visited: true, urls_found: resolved_links(links_v.take(0), page) },
        ));
    }

    let mut idx: usize = 0;
    while idx < links.len()
        invariant
            idx <= links.len(),
            links_v == links.deep_view(),
            links_v.len() == links.len(),
            page == current_url@,
            host == seed_parts.host@,
            data_store@ == m0.insert(
                page,
                EntryModel {
                    visited: true,
                    urls_found: resolved_links(links_v.take(idx as int), page),
                },
            ),
            url_frontier@.pending == pending0 + enqueued_links(
                m0,
                page,
                links_v.take(idx as int),
                host,
            ),
            url_frontier@.delay_s == old(url_frontier)@.delay_s,
        decreases links.len() - idx,
    {
        let ghost prefix = resolved_links(links_v.take(idx as int), page);
        let ghost pred = enqueue_pred(m0, page, host);
        let raw = links[idx].clone();
        let url = process_url(raw, current_url.as_str());
        let ghost r = url@;
        proof {
            assert(links_v[idx as int] == links@[idx as int]@);
            assert(r == resolve_spec(links_v[idx as int], page));
            assert(links_v.take(idx as int + 1) =~= links_v.take(idx as int).push(
                links_v[idx as int],
            ));
            assert(resolved_links(links_v.take(idx as int + 1), page) =~= prefix.push(r));
            prefix.lemma_filter_push(r, pred);
        }

        data_store.add(current_url.clone(), Some(url.clone()));
        proof {
            assert(data_store@ =~= m0.insert(
                page,
                EntryModel {
                    visited: true,
                    urls_found: resolved_links(links_v.take(idx as int + 1), page),
                },
            ));
        }

        match filter_url(url, seed_parts) {
            Some(in_scope_url) => {
                if !data_store.has_visited(in_scope_url.as_str()) {
                    proof {
                        assert(pred(r));
                        assert(pending0 + prefix.push(r).filter(pred) =~= (pending0 + prefix.filter(
                            pred,
                        )).push(r));
                    }
                    url_frontier.enqueue(in_scope_url);
                } else {
                    proof {
                        assert(!pred(r));
                    }
                }
            },
            None => {
                proof {
                    assert(!pred(r));
                }
            },
        }
        idx += 1;
    }
    proof {
        assert(links_v.take(links_v.len() as int) =~= links_v);
    }
}

} // verus!
