//! The paste record and the raw submission form.

use vstd::prelude::*;

verus! {

/// A stored paste: one row of the store, keyed by `id`.
///
/// `created_at` is a timestamp in whole seconds since the epoch.
/// `expires_in_seconds` absent means "never expires by time";
/// `max_views` absent means "unlimited views". A present `max_views`
/// is the exact number of successful views permitted, compared
/// exclusively against the raw counter (`views >= max_views` signals
/// exhaustion).
pub struct Paste {
    pub id: String,
    pub content: String,
    pub created_at: i64,
    pub expires_in_seconds: Option<i64>,
    pub max_views: Option<i64>,
    pub views: i64,
}

/// The mathematical value of a paste record, over sequences and
/// unbounded integers.
pub ghost struct PasteSnap {
    pub content: Seq<char>,
    pub created_at: int,
    pub expires_in_seconds: Option<int>,
    pub max_views: Option<int>,
    pub views: int,
}

impl Paste {
    /// The record as a mathematical value (the id is the store's key
    /// and is not repeated inside the snapshot).
    pub open spec fn snap(self) -> PasteSnap {
        PasteSnap {
            content: self.content@,
            created_at: self.created_at as int,
            expires_in_seconds: match self.expires_in_seconds {
                Some(e) => Some(e as int),
                None => None,
            },
            max_views: match self.max_views {
                Some(c) => Some(c as int),
                None => None,
            },
            views: self.views as int,
        }
    }

    /// Well-formedness: timestamps and counters are non-negative.
    pub open spec fn wf(self) -> bool {
        self.snap().wf()
    }

    /// A copy of the record, equal in value.
    pub fn duplicate(&self) -> (r: Paste)
        ensures
            r.snap() == self.snap(),
            r.id@ == self.id@,
    {
        Paste {
            id: self.id.clone(),
            content: self.content.clone(),
            created_at: self.created_at,
            expires_in_seconds: self.expires_in_seconds,
            max_views: self.max_views,
            views: self.views,
        }
    }
}

impl PasteSnap {
    /// The same record with the view counter at `v`.
    pub open spec fn with_views(self, v: int) -> PasteSnap {
        PasteSnap {
            content: self.content,
            created_at: self.created_at,
            expires_in_seconds: self.expires_in_seconds,
            max_views: self.max_views,
            views: v,
        }
    }

    /// One more successful view on the counter; the counter saturates
    /// at the machine maximum rather than wrapping.
    pub open spec fn bumped(self) -> PasteSnap {
        self.with_views(
            if self.views < i64::MAX {
                self.views + 1
            } else {
                self.views
            },
        )
    }

    /// Well-formedness: timestamps and counters are non-negative.
    pub open spec fn wf(self) -> bool {
        &&& self.created_at >= 0
        &&& self.views >= 0
        &&& (match self.expires_in_seconds {
            Some(e) => e >= 0,
            None => true,
        })
        &&& (match self.max_views {
            Some(c) => c >= 0,
            None => true,
        })
    }
}

/// An optional machine integer as an optional mathematical one.
pub open spec fn opt_int(o: Option<i64>) -> Option<int> {
    match o {
        Some(v) => Some(v as int),
        None => None,
    }
}

/// A raw paste submission, exactly as the user typed it: free-form
/// text for the content, the expiration token, and the view cap.
pub struct PasteForm {
    pub content: String,
    pub expiration: String,
    pub max_views: String,
}

} // verus!
