//! The directory source: what the root directories hold, merged into one
//! sequence of candidates.
//!
//! The caller lists each root directory, one level deep, and hands over what
//! it found. The source does not look into an entry, so an entry may be
//! whatever the caller lists with: a path of the operating system, or text.
//! A root that could not be listed fails the whole scan: to go on with the
//! other roots would report fewer devices than there are, in silence.

use crate::error::ScanError;
use crate::error::ScanErrorView;
use vstd::prelude::*;

verus! {

/// What a [`RootListing`] stands for in contracts.
pub struct RootListingView<T> {
    pub root: Seq<char>,
    pub entries: Option<Seq<T>>,
}

/// What listing one root directory gave.
#[derive(Debug, PartialEq, Eq)]
pub struct RootListing<T> {
    /// The root directory.
    pub root: String,
    /// The entries of the root, in the order in which the file system gave
    /// them, or `None` where the root could not be listed to its end.
    pub entries: Option<Vec<T>>,
}

impl<T> View for RootListing<T> {
    type V = RootListingView<T>;

    open spec fn view(&self) -> RootListingView<T> {
        RootListingView {
            root: self.root@,
            entries: match self.entries {
                Some(entries) => Some(entries@),
                None => None,
            },
        }
    }
}

impl<T> DeepView for RootListing<T> {
    type V = RootListingView<T>;

    open spec fn deep_view(&self) -> RootListingView<T> {
        self@
    }
}

/// Whether every root was listed.
pub open spec fn all_listed<T>(listings: Seq<RootListingView<T>>) -> bool {
    forall|i: int| 0 <= i < listings.len() ==> (#[trigger] listings[i]).entries is Some
}

/// How many roots were listed before the first that was not.
pub open spec fn listed_before_failure<T>(listings: Seq<RootListingView<T>>) -> int
    decreases listings.len(),
{
    if listings.len() == 0 || listings.first().entries is None {
        0
    } else {
        1 + listed_before_failure(listings.drop_first())
    }
}

/// The entries of the roots that were listed: root after root, and within a
/// root in the order of its listing.
pub open spec fn listed_entries<T>(listings: Seq<RootListingView<T>>) -> Seq<T>
    decreases listings.len(),
{
    if listings.len() == 0 {
        Seq::empty()
    } else {
        listed_entries(listings.drop_last()) + match listings.last().entries {
            Some(entries) => entries,
            None => Seq::empty(),
        }
    }
}

/// What the directory source gives for `listings`: the entries of all roots
/// where every root was listed, and else the first root that was not.
pub open spec fn candidate_dirs<T>(listings: Seq<RootListingView<T>>) -> Result<
    Seq<T>,
    ScanErrorView,
> {
    if all_listed(listings) {
        Ok(listed_entries(listings))
    } else {
        Err(ScanErrorView::RootUnreadable { path: listings[listed_before_failure(listings)].root })
    }
}

/// What the result of [`list_candidate_dirs`] stands for in contracts.
pub open spec fn candidates_view<T>(result: Result<Vec<T>, ScanError>) -> Result<
    Seq<T>,
    ScanErrorView,
> {
    match result {
        Ok(entries) => Ok(entries@),
        Err(error) => Err(error@),
    }
}

/// The root at `at` is the first that was not listed if it was not listed and
/// all before it were. The scan then fails with that root.
pub proof fn lemma_first_root_not_listed<T>(listings: Seq<RootListingView<T>>, at: int)
    requires
        0 <= at < listings.len(),
        listings[at].entries is None,
        forall|i: int| 0 <= i < at ==> (#[trigger] listings[i]).entries is Some,
    ensures
        listed_before_failure(listings) == at,
        candidate_dirs(listings) == Err::<Seq<T>, ScanErrorView>(
            ScanErrorView::RootUnreadable { path: listings[at].root },
        ),
    decreases at,
{
    if at > 0 {
        let rest = listings.drop_first();
        assert(listings[0].entries is Some);
        assert forall|i: int| 0 <= i < at - 1 implies (#[trigger] rest[i]).entries is Some by {
            assert(rest[i] == listings[i + 1]);
        }
        lemma_first_root_not_listed(rest, at - 1);
    }
}

/// Merges the listings of the root directories into one sequence of
/// candidates.
///
/// Where every root was listed, the result holds the entries of all roots:
/// root after root in the order given, and within a root in the order of its
/// listing. No listing gives no candidates. Where a root was not listed, the
/// result is [`ScanError::RootUnreadable`] with the first such root, whatever
/// the other roots hold.
pub fn list_candidate_dirs<T>(listings: Vec<RootListing<T>>) -> (result: Result<Vec<T>, ScanError>)
    ensures
        candidates_view(result) == candidate_dirs(listings.deep_view()),
{
    let ghost all = listings.deep_view();
    let mut at: usize = 0;
    while at < listings.len()
        invariant
            at <= listings.len(),
            all == listings.deep_view(),
            forall|i: int| 0 <= i < at ==> (#[trigger] all[i]).entries is Some,
        decreases listings.len() - at,
    {
        assert(all[at as int] == listings@[at as int]@);
        if listings[at].entries.is_none() {
            proof {
                lemma_first_root_not_listed(all, at as int);
            }
            return Err(ScanError::RootUnreadable { path: listings[at].root.clone() });
        }
        at += 1;
    }
    let mut merged: Vec<T> = Vec::new();
    assert(all.take(0) == Seq::<RootListingView<T>>::empty());
    for listing in roots: listings
        invariant
            roots.seq() == listings@,
            all == listings.deep_view(),
            merged@ == listed_entries(all.take(roots.index() as int)),
    {
        assert(all[roots.index() as int] == listing@);
        assert(all.take(roots.index() + 1).drop_last() == all.take(roots.index() as int));
        match listing.entries {
            None => {},
            Some(entries) => {
                let mut entries = entries;
                merged.append(&mut entries);
            },
        }
    }
    assert(all.take(all.len() as int) == all);
    Ok(merged)
}

} // verus!
