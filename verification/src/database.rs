//! The paste store: durable keyed storage with one row per
//! identifier, exposing create, read, increment-views and delete.
//! The store is modeled as a vector of rows with unique identifiers;
//! its contract speaks of the store as a map from identifier to
//! record value.

use vstd::prelude::*;
use crate::error::{AppError, NotFoundError};
use crate::models::{Paste, PasteForm, PasteSnap};
use crate::policy::{expiration_seconds, resolve_expiration, resolve_max_views, str_eq, view_cap};

verus! {

/// Is `c` in the URL-safe identifier alphabet: letters, digits,
/// underscore and hyphen? No character of it needs escaping in a
/// path segment.
pub open spec fn id_char(c: char) -> bool {
    ||| 97 <= c as u32 <= 122
    ||| 65 <= c as u32 <= 90
    ||| 48 <= c as u32 <= 57
    ||| c == '_'
    ||| c == '-'
}

/// The fixed length of a generated paste identifier.
pub const ID_LENGTH: usize = 12;

/// Relies on nanoid::format with nanoid's URL-safe alphabet and its
/// default cryptographically strong random source: the result has
/// exactly `len` characters, each drawn from that alphabet. The
/// characters themselves are random; nothing more holds of them.
#[verifier::external_body]
fn generate_id(len: usize) -> (r: String)
    requires
        1 <= len,
    ensures
        r@.len() == len as nat,
        forall|i: int| 0 <= i < r@.len() ==> id_char(#[trigger] r@[i]),
{
    nanoid::format(nanoid::rngs::default, &nanoid::alphabet::SAFE, len)
}

/// The record value a creation request resolves to: the submitted
/// content, the policy's constraints, a fresh counter, and the
/// creation time.
pub open spec fn fresh_snap(
    content: Seq<char>,
    expiration: Seq<char>,
    max_views_raw: Seq<char>,
    now: int,
) -> PasteSnap {
    PasteSnap {
        content: content,
        created_at: now,
        expires_in_seconds: expiration_seconds(expiration),
        max_views: view_cap(max_views_raw),
        views: 0,
    }
}

/// The paste store: one logical table of paste records keyed by
/// identifier.
pub struct PasteStore {
    rows: Vec<Paste>,
}

impl View for PasteStore {
    type V = Map<Seq<char>, PasteSnap>;

    /// The store as a map from identifier to record value.
    closed spec fn view(&self) -> Map<Seq<char>, PasteSnap> {
        Map::new(
            |id: Seq<char>|
                exists|i: int| 0 <= i < self.rows@.len() && (#[trigger] self.rows@[i]).id@ == id,
            |id: Seq<char>|
                self.rows@[choose|i: int|
                    0 <= i < self.rows@.len() && (#[trigger] self.rows@[i]).id@ == id].snap(),
        )
    }
}

impl PasteStore {
    /// Well-formedness: one row per identifier, every row well
    /// formed.
    pub closed spec fn wf(&self) -> bool {
        &&& forall|i: int, j: int|
            0 <= i < j < self.rows@.len() ==> (#[trigger] self.rows@[i]).id@ != (
            #[trigger] self.rows@[j]).id@
        &&& forall|i: int| 0 <= i < self.rows@.len() ==> (#[trigger] self.rows@[i]).wf()
    }

    /// The row at index `i` is what the map holds under its id.
    proof fn lemma_view_at(&self, i: int)
        requires
            self.wf(),
            0 <= i < self.rows@.len(),
        ensures
            self@.dom().contains(self.rows@[i].id@),
            self@[self.rows@[i].id@] == self.rows@[i].snap(),
    {
        let id = self.rows@[i].id@;
        assert(0 <= i < self.rows@.len() && self.rows@[i].id@ == id);
        let j = choose|j: int| 0 <= j < self.rows@.len() && (#[trigger] self.rows@[j]).id@ == id;
        assert(j == i);
    }

    /// An identifier on no row is not in the map.
    proof fn lemma_view_absent(&self, id: Seq<char>)
        requires
            forall|i: int| 0 <= i < self.rows@.len() ==> (#[trigger] self.rows@[i]).id@ != id,
        ensures
            !self@.dom().contains(id),
    {
    }

    /// Every stored record of a well-formed store is well formed.
    pub proof fn lemma_wf_snapshots(&self)
        requires
            self.wf(),
        ensures
            forall|k: Seq<char>| #[trigger] self@.dom().contains(k) ==> self@[k].wf(),
    {
        assert forall|k: Seq<char>| #[trigger] self@.dom().contains(k) implies self@[k].wf() by {
            let i = choose|i: int|
                0 <= i < self.rows@.len() && (#[trigger] self.rows@[i]).id@ == k;
            self.lemma_view_at(i);
        }
    }

    /// An empty store.
    pub fn new() -> (r: PasteStore)
        ensures
            r.wf(),
            r@ == Map::<Seq<char>, PasteSnap>::empty(),
    {
        let r = PasteStore { rows: Vec::new() };
        proof {
            assert(r@ =~= Map::<Seq<char>, PasteSnap>::empty());
        }
        r
    }

    /// The index of the row holding `id`, if any.
    fn find(&self, id: &str) -> (r: Option<usize>)
        requires
            self.wf(),
        ensures
            match r {
                Some(i) => {
                    &&& i < self.rows@.len()
                    &&& self.rows@[i as int].id@ == id@
                    &&& self@.dom().contains(id@)
                    &&& self@[id@] == self.rows@[i as int].snap()
                },
                None => !self@.dom().contains(id@),
            },
    {
        let n = self.rows.len();
        let mut i: usize = 0;
        while i < n
            invariant
                self.wf(),
                n == self.rows@.len(),
                0 <= i <= n,
                forall|j: int| 0 <= j < i ==> (#[trigger] self.rows@[j]).id@ != id@,
            decreases n - i,
        {
            if str_eq(self.rows[i].id.as_str(), id) {
                proof {
                    self.lemma_view_at(i as int);
                }
                return Some(i);
            }
            i += 1;
        }
        proof {
            self.lemma_view_absent(id@);
        }
        None
    }

    /// Fetches the full record under `id`; no side effects.
    pub fn get_paste(&self, id: &str) -> (r: Result<Paste, NotFoundError>)
        requires
            self.wf(),
        ensures
            match r {
                Ok(p) => {
                    &&& self@.dom().contains(id@)
                    &&& p.snap() == self@[id@]
                    &&& p.id@ == id@
                    &&& p.wf()
                },
                Err(_) => !self@.dom().contains(id@),
            },
    {
        match self.find(id) {
            Some(i) => {
                let p = self.rows[i].duplicate();
                Ok(p)
            },
            None => Err(NotFoundError),
        }
    }

    /// Persists a new row with the given record. The store never
    /// silently overwrites: a colliding identifier is surfaced as a
    /// storage error and changes nothing.
    pub fn insert_new(&mut self, paste: Paste) -> (r: Result<(), AppError>)
        requires
            old(self).wf(),
            paste.wf(),
        ensures
            final(self).wf(),
            match r {
                Ok(_) => {
                    &&& !old(self)@.dom().contains(paste.id@)
                    &&& final(self)@ == old(self)@.insert(paste.id@, paste.snap())
                },
                Err(e) => {
                    &&& old(self)@.dom().contains(paste.id@)
                    &&& final(self)@ == old(self)@
                    &&& e.kind is Storage
                },
            },
    {
        match self.find(paste.id.as_str()) {
            Some(_) => Err(AppError::storage()),
            None => {
                let ghost oldself = *self;
                let ghost key = paste.id@;
                self.rows.push(paste);
                proof {
                    let n = oldself.rows@.len();
                    assert(self.rows@ =~= oldself.rows@.push(paste));
                    assert forall|i: int, j: int| 0 <= i < j < self.rows@.len() implies (
                    #[trigger] self.rows@[i]).id@ != (#[trigger] self.rows@[j]).id@ by {
                        if j < n {
                            assert(oldself.rows@[i].id@ != oldself.rows@[j].id@);
                        } else {
                            assert(self.rows@[j] == paste);
                            assert(oldself.rows@[i].id@ != key);
                        }
                    }
                    let m2 = oldself@.insert(key, paste.snap());
                    assert forall|k: Seq<char>| #[trigger] self@.dom().contains(k) implies
                        m2.dom().contains(k) && self@[k] == m2[k] by {
                        let i = choose|i: int|
                            0 <= i < self.rows@.len() && (#[trigger] self.rows@[i]).id@ == k;
                        self.lemma_view_at(i);
                        if i < n {
                            oldself.lemma_view_at(i);
                            assert(k != key);
                        } else {
                            assert(self.rows@[i] == paste);
                        }
                    }
                    assert forall|k: Seq<char>| #[trigger] m2.dom().contains(k) implies
                        self@.dom().contains(k) by {
                        if k == key {
                            assert(self.rows@[n as int].id@ == k);
                        } else {
                            let i = choose|i: int|
                                0 <= i < oldself.rows@.len() && (#[trigger] oldself.rows@[i]).id@
                                    == k;
                            assert(self.rows@[i].id@ == k);
                        }
                    }
                    assert(self@ =~= m2);
                }
                Ok(())
            },
        }
    }

    /// Bumps the view counter of `id` by one, saturating at the
    /// counter type's maximum; an absent identifier changes nothing.
    /// The caller is responsible for calling this exactly once per
    /// successful view, after the liveness check has passed.
    pub fn increment_views(&mut self, id: &str)
        requires
            old(self).wf(),
        ensures
            final(self).wf(),
            old(self)@.dom().contains(id@) ==> final(self)@ == old(self)@.insert(
                id@,
                old(self)@[id@].bumped(),
            ),
            !old(self)@.dom().contains(id@) ==> final(self)@ == old(self)@,
    {
        let found = self.find(id);
        match found {
            None => {
            },
            Some(i) => {
                let ghost oldself = *self;
                let ghost key = oldself.rows@[i as int].id@;
                let v = self.rows[i].views;
                let nv: i64 = if v < i64::MAX {
                    v + 1
                } else {
                    v
                };
                let row = self.rows[i].duplicate();
                let bumped = Paste { views: nv, ..row };
                self.rows[i] = bumped;
                proof {
                    let n = oldself.rows@.len();
                    assert(self.rows@ =~= oldself.rows@.update(i as int, bumped));
                    assert(bumped.id@ == key);
                    assert(bumped.snap() == oldself.rows@[i as int].snap().bumped());
                    assert forall|a: int, b: int| 0 <= a < b < self.rows@.len() implies (
                    #[trigger] self.rows@[a]).id@ != (#[trigger] self.rows@[b]).id@ by {
                        assert(oldself.rows@[a].id@ != oldself.rows@[b].id@);
                    }
                    let m2 = oldself@.insert(key, oldself@[key].bumped());
                    oldself.lemma_view_at(i as int);
                    assert forall|k: Seq<char>| #[trigger] self@.dom().contains(k) implies
                        m2.dom().contains(k) && self@[k] == m2[k] by {
                        let a = choose|a: int|
                            0 <= a < self.rows@.len() && (#[trigger] self.rows@[a]).id@ == k;
                        self.lemma_view_at(a);
                        oldself.lemma_view_at(a);
                        if a == i as int {
                            assert(k == key);
                        } else {
                            assert(self.rows@[a] == oldself.rows@[a]);
                            assert(k != key);
                        }
                    }
                    assert forall|k: Seq<char>| #[trigger] m2.dom().contains(k) implies
                        self@.dom().contains(k) by {
                        let a = choose|a: int|
                            0 <= a < oldself.rows@.len() && (#[trigger] oldself.rows@[a]).id@ == k;
                        assert(self.rows@[a].id@ == k);
                    }
                    assert(self@ =~= m2);
                }
            },
        }
    }

    /// Removes the row under `id` if present; deleting an absent
    /// identifier is not an error and changes nothing.
    pub fn delete_paste(&mut self, id: &str)
        requires
            old(self).wf(),
        ensures
            final(self).wf(),
            old(self)@.dom().contains(id@) ==> final(self)@ == old(self)@.remove(id@),
            !old(self)@.dom().contains(id@) ==> final(self)@ == old(self)@,
    {
        let found = self.find(id);
        match found {
            None => {
            },
            Some(i) => {
                let ghost oldself = *self;
                let ghost key = oldself.rows@[i as int].id@;
                self.rows.remove(i);
                proof {
                    let n = oldself.rows@.len();
                    assert(self.rows@ =~= oldself.rows@.remove(i as int));
                    assert forall|a: int, b: int| 0 <= a < b < self.rows@.len() implies (
                    #[trigger] self.rows@[a]).id@ != (#[trigger] self.rows@[b]).id@ by {
                        let a2 = if a < i as int {
                            a
                        } else {
                            a + 1
                        };
                        let b2 = if b < i as int {
                            b
                        } else {
                            b + 1
                        };
                        assert(self.rows@[a] == oldself.rows@[a2]);
                        assert(self.rows@[b] == oldself.rows@[b2]);
                        assert(oldself.rows@[a2].id@ != oldself.rows@[b2].id@);
                    }
                    assert forall|a: int| 0 <= a < self.rows@.len() implies (
                    #[trigger] self.rows@[a]).wf() by {
                        let a2 = if a < i as int {
                            a
                        } else {
                            a + 1
                        };
                        assert(self.rows@[a] == oldself.rows@[a2]);
                    }
                    let m2 = oldself@.remove(key);
                    assert forall|k: Seq<char>| #[trigger] self@.dom().contains(k) implies
                        m2.dom().contains(k) && self@[k] == m2[k] by {
                        let a = choose|a: int|
                            0 <= a < self.rows@.len() && (#[trigger] self.rows@[a]).id@ == k;
                        self.lemma_view_at(a);
                        let a2 = if a < i as int {
                            a
                        } else {
                            a + 1
                        };
                        assert(self.rows@[a] == oldself.rows@[a2]);
                        oldself.lemma_view_at(a2);
                        assert(k != key);
                    }
                    assert forall|k: Seq<char>| #[trigger] m2.dom().contains(k) implies
                        self@.dom().contains(k) by {
                        let a2 = choose|a2: int|
                            0 <= a2 < oldself.rows@.len() && (#[trigger] oldself.rows@[a2]).id@
                                == k;
                        assert(a2 != i as int);
                        let a = if a2 < i as int {
                            a2
                        } else {
                            a2 - 1
                        };
                        assert(self.rows@[a] == oldself.rows@[a2]);
                        assert(self.rows@[a].id@ == k);
                    }
                    assert(self@ =~= m2);
                }
            },
        }
    }

    /// Creates a new paste: resolves the expiration and view-limit
    /// policy from the form, mints a fresh random identifier, and
    /// persists the record with a zero counter and `now` as its
    /// creation time. Fails only if the minted identifier collides
    /// with an existing row, which the store refuses to overwrite.
    pub fn create_paste(&mut self, form: &PasteForm, now: i64) -> (r: Result<String, AppError>)
        requires
            old(self).wf(),
            now >= 0,
        ensures
            final(self).wf(),
            match r {
                Ok(id) => {
                    &&& id@.len() == ID_LENGTH as nat
                    &&& forall|i: int| 0 <= i < id@.len() ==> id_char(#[trigger] id@[i])
                    &&& !old(self)@.dom().contains(id@)
                    &&& final(self)@ == old(self)@.insert(
                        id@,
                        fresh_snap(form.content@, form.expiration@, form.max_views@, now as int),
                    )
                },
                Err(e) => {
                    &&& final(self)@ == old(self)@
                    &&& e.kind is Storage
                    &&& exists|k: Seq<char>|
                        #[trigger] old(self)@.dom().contains(k) && k.len() == ID_LENGTH as nat
                            && (forall|i: int| 0 <= i < k.len() ==> id_char(#[trigger] k[i]))
                },
            },
    {
        let id = generate_id(ID_LENGTH);
        let expires_in_seconds = resolve_expiration(form.expiration.as_str());
        let max_views = resolve_max_views(form.max_views.as_str());
        let paste = Paste {
            id: id.clone(),
            content: form.content.clone(),
            created_at: now,
            expires_in_seconds,
            max_views,
            views: 0,
        };
        match self.insert_new(paste) {
            Ok(_) => Ok(id),
            Err(e) => Err(e),
        }
    }
}

} // verus!
