//! The paste lifecycle manager: a two-state machine per paste, LIVE
//! and GONE, with GONE absorbing and represented by absence from the
//! store. Eviction is lazy: an exhausted or expired paste is removed
//! on the access that finds it dead, never by a background sweeper.

use vstd::prelude::*;
use crate::database::{fresh_snap, PasteStore};
use crate::error::NotFoundError;
use crate::models::{Paste, PasteSnap};
use crate::policy::{lemma_view_cap_bounds, view_cap};
use crate::rendering::{lemma_render_contains_body, markdown_html_of, render_page_spec, render_paste};

verus! {

/// Is the paste's view limit exhausted? The stored cap is the exact
/// number of successful views permitted, compared exclusively
/// against the raw counter.
pub open spec fn exhausted(p: PasteSnap) -> bool {
    match p.max_views {
        Some(c) => p.views >= c,
        None => false,
    }
}

/// Has the paste outlived its time limit at time `now`?
pub open spec fn expired(p: PasteSnap, now: int) -> bool {
    match p.expires_in_seconds {
        Some(e) => now > p.created_at + e,
        None => false,
    }
}

/// Is the paste still eligible to be viewed at time `now`?
pub open spec fn live(p: PasteSnap, now: int) -> bool {
    !exhausted(p) && !expired(p, now)
}

/// What one view attempt leaves behind and returns.
pub ghost struct StepResult {
    pub store: Map<Seq<char>, PasteSnap>,
    pub outcome: Option<Seq<char>>,
}

/// The lifecycle transition for one view attempt at time `now`: an
/// absent identifier changes nothing; an exhausted paste is evicted,
/// judged strictly before the time limit; an expired paste is
/// evicted; a live paste has its counter bumped and its content
/// returned. Only one eviction path executes per attempt.
pub open spec fn view_step(m: Map<Seq<char>, PasteSnap>, id: Seq<char>, now: int) -> StepResult {
    if !m.dom().contains(id) {
        StepResult { store: m, outcome: None }
    } else if exhausted(m[id]) {
        StepResult { store: m.remove(id), outcome: None }
    } else if expired(m[id], now) {
        StepResult { store: m.remove(id), outcome: None }
    } else {
        StepResult { store: m.insert(id, m[id].bumped()), outcome: Some(m[id].content) }
    }
}

/// The store after `n` view attempts for `id`, all at time `now`.
pub open spec fn iter_view_steps(
    m: Map<Seq<char>, PasteSnap>,
    id: Seq<char>,
    now: int,
    n: nat,
) -> Map<Seq<char>, PasteSnap>
    decreases n,
{
    if n == 0 {
        m
    } else {
        view_step(iter_view_steps(m, id, now, (n - 1) as nat), id, now).store
    }
}

/// The liveness verdict for a fetched paste.
pub enum Liveness {
    /// The view limit is reached; the paste must be evicted.
    Exhausted,
    /// The time limit has passed; the paste must be evicted.
    Expired,
    /// The paste may be viewed.
    Live,
}

/// Judges a fetched paste at time `now`: the view limit strictly
/// before the time limit.
pub fn check_liveness(p: &Paste, now: i64) -> (r: Liveness)
    requires
        p.wf(),
        now >= 0,
    ensures
        r is Exhausted <==> exhausted(p.snap()),
        r is Expired <==> !exhausted(p.snap()) && expired(p.snap(), now as int),
        r is Live <==> live(p.snap(), now as int),
{
    if let Some(c) = p.max_views {
        if p.views >= c {
            return Liveness::Exhausted;
        }
    }
    if let Some(e) = p.expires_in_seconds {
        if now - p.created_at > e {
            return Liveness::Expired;
        }
    }
    Liveness::Live
}

/// Serves one view request: fetch the record, judge its liveness,
/// lazily evict a dead one, count the view on a live one, and return
/// the raw content. Absence, exhaustion and expiry are
/// indistinguishable in the result.
pub fn view_paste(store: &mut PasteStore, id: &str, now: i64) -> (r: Result<
    String,
    NotFoundError,
>)
    requires
        old(store).wf(),
        now >= 0,
    ensures
        final(store).wf(),
        final(store)@ == view_step(old(store)@, id@, now as int).store,
        match r {
            Ok(content) => view_step(old(store)@, id@, now as int).outcome == Some(content@),
            Err(_) => view_step(old(store)@, id@, now as int).outcome is None,
        },
{
    let fetched = store.get_paste(id);
    match fetched {
        Err(_) => Err(NotFoundError),
        Ok(p) => {
            match check_liveness(&p, now) {
                Liveness::Exhausted => {
                    store.delete_paste(id);
                    Err(NotFoundError)
                },
                Liveness::Expired => {
                    store.delete_paste(id);
                    Err(NotFoundError)
                },
                Liveness::Live => {
                    store.increment_views(id);
                    Ok(p.content)
                },
            }
        },
    }
}

/// Serves one view request and renders the surviving content into
/// the full view page.
pub fn view_paste_html(store: &mut PasteStore, id: &str, now: i64) -> (r: Result<
    String,
    NotFoundError,
>)
    requires
        old(store).wf(),
        now >= 0,
    ensures
        final(store).wf(),
        final(store)@ == view_step(old(store)@, id@, now as int).store,
        match r {
            Ok(page) => {
                &&& view_step(old(store)@, id@, now as int).outcome is Some
                &&& page@ == render_page_spec(view_step(old(store)@, id@, now as int).outcome->0)
            },
            Err(_) => view_step(old(store)@, id@, now as int).outcome is None,
        },
{
    match view_paste(store, id, now) {
        Ok(content) => Ok(render_paste(content.as_str())),
        Err(e) => Err(e),
    }
}

/// A freshly created paste is immediately viewable, the view yields
/// the submitted content, and the view page carries the
/// markdown-rendered form of that content. The one excluded input is
/// a view cap of zero, which by design permits zero views.
pub proof fn lemma_create_then_view(
    m: Map<Seq<char>, PasteSnap>,
    id: Seq<char>,
    content: Seq<char>,
    expiration: Seq<char>,
    max_views_raw: Seq<char>,
    now: int,
)
    requires
        view_cap(max_views_raw) != Some(0int),
    ensures
        ({
            let st = view_step(
                m.insert(id, fresh_snap(content, expiration, max_views_raw, now)),
                id,
                now,
            );
            &&& st.outcome == Some(content)
            &&& exists|pre: Seq<char>, post: Seq<char>|
                render_page_spec(content) == pre + markdown_html_of(content) + post
        }),
{
    lemma_view_cap_bounds(max_views_raw);
    lemma_render_contains_body(content);
}

/// After `n` successful views, all within the paste's lifetime and
/// under its cap, the paste is still present and its counter reads
/// exactly `n`.
pub proof fn lemma_view_limit_progress(
    m: Map<Seq<char>, PasteSnap>,
    id: Seq<char>,
    now: int,
    n: nat,
)
    requires
        m.dom().contains(id),
        m[id].views == 0,
        m[id].max_views is Some,
        0 <= m[id].max_views->0 <= i64::MAX,
        !expired(m[id], now),
        n <= m[id].max_views->0,
    ensures
        iter_view_steps(m, id, now, n).dom().contains(id),
        iter_view_steps(m, id, now, n)[id] == m[id].with_views(n as int),
    decreases n,
{
    if n == 0 {
        assert(m[id].with_views(0) == m[id]);
    } else {
        lemma_view_limit_progress(m, id, now, (n - 1) as nat);
        let prev = iter_view_steps(m, id, now, (n - 1) as nat);
        assert(!exhausted(prev[id]));
        assert(!expired(prev[id], now));
    }
}

/// A paste created with view cap `c` is viewable exactly `c` times:
/// every attempt before the cap succeeds with the content, and the
/// attempt that finds the cap reached yields nothing and leaves the
/// record absent.
pub proof fn lemma_view_limit_exact(m: Map<Seq<char>, PasteSnap>, id: Seq<char>, now: int, k: nat)
    requires
        m.dom().contains(id),
        m[id].views == 0,
        m[id].max_views is Some,
        0 <= m[id].max_views->0 <= i64::MAX,
        !expired(m[id], now),
        k <= m[id].max_views->0,
    ensures
        ({
            let st = view_step(iter_view_steps(m, id, now, k), id, now);
            &&& (k < m[id].max_views->0 ==> st.outcome == Some(m[id].content))
            &&& (k == m[id].max_views->0 ==> st.outcome is None && !st.store.dom().contains(id))
        }),
{
    lemma_view_limit_progress(m, id, now, k);
}

/// With neither a view limit nor a time limit, a paste is viewable
/// any number of times without eviction, and each successful view
/// increases the counter by exactly one. The counter saturates at
/// its machine maximum, so the count is exact up to that bound.
pub proof fn lemma_unlimited_views(m: Map<Seq<char>, PasteSnap>, id: Seq<char>, now: int, n: nat)
    requires
        m.dom().contains(id),
        m[id].views == 0,
        m[id].max_views is None,
        m[id].expires_in_seconds is None,
        n <= i64::MAX,
    ensures
        iter_view_steps(m, id, now, n).dom().contains(id),
        iter_view_steps(m, id, now, n)[id] == m[id].with_views(n as int),
        view_step(iter_view_steps(m, id, now, n), id, now).outcome == Some(m[id].content),
    decreases n,
{
    if n == 0 {
        assert(m[id].with_views(0) == m[id]);
    } else {
        lemma_unlimited_views(m, id, now, (n - 1) as nat);
    }
}

/// Viewing an identifier the store does not hold yields nothing and
/// has no side effects.
pub proof fn lemma_view_absent_no_side_effects(m: Map<Seq<char>, PasteSnap>, id: Seq<char>, now: int)
    requires
        !m.dom().contains(id),
    ensures
        view_step(m, id, now).outcome is None,
        view_step(m, id, now).store == m,
{
}

/// Two view attempts against a paste with a view cap of one yield
/// exactly one success, carrying the content, and one not-found
/// outcome, and leave the record deleted.
pub proof fn lemma_single_view_cap_race(m: Map<Seq<char>, PasteSnap>, id: Seq<char>, now: int)
    requires
        m.dom().contains(id),
        m[id].views == 0,
        m[id].max_views == Some(1int),
        !expired(m[id], now),
    ensures
        ({
            let st1 = view_step(m, id, now);
            let st2 = view_step(st1.store, id, now);
            &&& st1.outcome == Some(m[id].content)
            &&& st2.outcome is None
            &&& !st2.store.dom().contains(id)
        }),
{
}

/// A dead paste, whether exhausted or expired, yields nothing on
/// access and is evicted then and there.
pub proof fn lemma_dead_paste_evicted(m: Map<Seq<char>, PasteSnap>, id: Seq<char>, now: int)
    requires
        m.dom().contains(id),
        !live(m[id], now),
    ensures
        view_step(m, id, now).outcome is None,
        !view_step(m, id, now).store.dom().contains(id),
{
}

} // verus!
