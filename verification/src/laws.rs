//! What holds of every scan.

use crate::attribute::attribute_value;
use crate::attribute::Attribute;
use crate::device::DeviceView;
use crate::device::LightDevice;
use crate::error::ScanError;
use crate::error::ScanErrorView;
use crate::loader::attribute_of;
use crate::loader::device_of;
use crate::loader::devices_of;
use crate::loader::devices_view;
use crate::loader::is_device_dir;
use crate::loader::lemma_failure_is_kept;
use crate::loader::loaded_of;
use crate::loader::skipped_of;
use crate::loader::Candidate;
use crate::loader::CandidateView;
use crate::loader::EntryPathView;
use crate::path::leaf_of;
use crate::source::all_listed;
use crate::source::candidate_dirs;
use crate::source::candidates_view;
use crate::source::listed_before_failure;
use crate::source::RootListing;
use crate::source::RootListingView;
use vstd::prelude::*;

verus! {

/// Whether `candidate` has all that a device directory must have: a path
/// that is text and has a leaf, and two attribute files that were read and
/// hold an integer each.
pub open spec fn well_formed(candidate: CandidateView) -> bool {
    &&& candidate.path matches EntryPathView::Text(path)
    &&& leaf_of(path) is Some
    &&& candidate.brightness matches Some(brightness)
    &&& attribute_value(brightness) is Some
    &&& candidate.max_brightness matches Some(max_brightness)
    &&& attribute_value(max_brightness) is Some
}

/// The device that a well-formed `candidate` describes: named by the leaf of
/// its path, with the integers that its attribute files hold.
pub open spec fn described_by(candidate: CandidateView) -> DeviceView
    recommends
        well_formed(candidate),
{
    DeviceView {
        name: leaf_of(candidate.path.shown()).unwrap(),
        device_full_path: candidate.path.shown(),
        brightness: attribute_value(candidate.brightness.unwrap()).unwrap() as int,
        max_brightness: attribute_value(candidate.max_brightness.unwrap()).unwrap() as int,
    }
}

/// The directories among `candidates`, in order.
pub open spec fn directories(candidates: Seq<CandidateView>) -> Seq<CandidateView> {
    candidates.filter(|candidate: CandidateView| is_device_dir(candidate))
}

/// A device directory gives its device exactly when it is well-formed, and
/// the device is the one it describes.
pub proof fn lemma_well_formed_directory_loads(candidate: CandidateView)
    ensures
        device_of(candidate) is Ok <==> well_formed(candidate),
        well_formed(candidate) ==> device_of(candidate) == Ok::<DeviceView, ScanErrorView>(
            described_by(candidate),
        ),
{
}

/// Where every directory among the candidates is well-formed, the scan gives
/// the devices that the directories describe, one for each and in their
/// order.
pub proof fn lemma_well_formed_directories_load(candidates: Seq<CandidateView>)
    requires
        forall|i: int|
            0 <= i < candidates.len() && is_device_dir(#[trigger] candidates[i]) ==> well_formed(
                candidates[i],
            ),
    ensures
        devices_of(candidates) == Ok::<Seq<DeviceView>, ScanErrorView>(
            directories(candidates).map_values(|candidate: CandidateView| described_by(candidate)),
        ),
    decreases candidates.len(),
{
    reveal(Seq::filter);
    let describe = |candidate: CandidateView| described_by(candidate);
    if candidates.len() == 0 {
        assert(directories(candidates).map_values(describe) == Seq::<DeviceView>::empty());
    } else {
        let rest = candidates.drop_last();
        assert forall|i: int|
            0 <= i < rest.len() && is_device_dir(#[trigger] rest[i]) implies well_formed(
            rest[i],
        ) by {
            assert(rest[i] == candidates[i]);
        }
        lemma_well_formed_directories_load(rest);
        if is_device_dir(candidates.last()) {
            lemma_well_formed_directory_loads(candidates.last());
            assert(directories(candidates) == directories(rest).push(candidates.last()));
            assert(directories(candidates).map_values(describe) == directories(rest).map_values(
                describe,
            ).push(described_by(candidates.last())));
        }
    }
}

/// Candidates that are no directories change nothing: the scan gives what it
/// gives for the directories alone, be it the devices or the failure.
pub proof fn lemma_non_directories_are_ignored(candidates: Seq<CandidateView>)
    ensures
        devices_of(candidates) == devices_of(directories(candidates)),
        loaded_of(candidates) == loaded_of(directories(candidates)),
        skipped_of(candidates) == skipped_of(directories(candidates)),
    decreases candidates.len(),
{
    reveal(Seq::filter);
    if candidates.len() > 0 {
        let rest = candidates.drop_last();
        lemma_non_directories_are_ignored(rest);
        if is_device_dir(candidates.last()) {
            let kept = directories(rest).push(candidates.last());
            assert(directories(candidates) == kept);
            assert(kept.drop_last() == directories(rest));
        }
    }
}

/// Candidates of which none is a directory give no device and no failure.
pub proof fn lemma_no_directory_gives_no_device(candidates: Seq<CandidateView>)
    requires
        forall|i: int| 0 <= i < candidates.len() ==> !is_device_dir(#[trigger] candidates[i]),
    ensures
        devices_of(candidates) == Ok::<Seq<DeviceView>, ScanErrorView>(Seq::empty()),
    decreases candidates.len(),
{
    if candidates.len() > 0 {
        let rest = candidates.drop_last();
        assert forall|i: int| 0 <= i < rest.len() implies !is_device_dir(#[trigger] rest[i]) by {
            assert(rest[i] == candidates[i]);
        }
        lemma_no_directory_gives_no_device(rest);
    }
}

/// A device directory whose path is text and has a leaf, and of which an
/// attribute file was not read or does not hold an integer, gives no device.
/// The failure is that of the first such attribute, brightness before the
/// maximum, and it names the directory's path.
pub proof fn lemma_bad_attribute_fails_the_device(candidate: CandidateView, path: Seq<char>)
    requires
        candidate.path == EntryPathView::Text(path),
        leaf_of(path) is Some,
        attribute_of(path, Attribute::Brightness, candidate.brightness) is Err || attribute_of(
            path,
            Attribute::MaxBrightness,
            candidate.max_brightness,
        ) is Err,
    ensures
        device_of(candidate) matches Err(error) && error.path() == path && (error
            is AttributeReadFailure || error is AttributeParseFailure),
        attribute_of(path, Attribute::Brightness, candidate.brightness) matches Err(error)
            ==> device_of(candidate) == Err::<DeviceView, ScanErrorView>(error),
        attribute_of(path, Attribute::Brightness, candidate.brightness) is Ok ==> (attribute_of(
            path,
            Attribute::MaxBrightness,
            candidate.max_brightness,
        ) matches Err(error) && device_of(candidate) == Err::<DeviceView, ScanErrorView>(error)),
{
}

/// An attribute file that was not read fails with
/// [`ScanErrorView::AttributeReadFailure`], and one that does not hold an
/// integer with [`ScanErrorView::AttributeParseFailure`], which carries what
/// the file holds.
pub proof fn lemma_attribute_failures(
    path: Seq<char>,
    attribute: Attribute,
    content: Option<Seq<char>>,
)
    ensures
        content is None ==> attribute_of(path, attribute, content) == Err::<i64, ScanErrorView>(
            ScanErrorView::AttributeReadFailure { path, attribute },
        ),
        content matches Some(text) ==> (attribute_value(text) is None ==> attribute_of(
            path,
            attribute,
            content,
        ) == Err::<i64, ScanErrorView>(
            ScanErrorView::AttributeParseFailure { path, attribute, content: text },
        )),
        content matches Some(text) ==> (attribute_value(text) matches Some(value) ==> attribute_of(
            path,
            attribute,
            content,
        ) == Ok::<i64, ScanErrorView>(value)),
{
}

/// Where every directory among the candidates gives a device, the scan
/// succeeds.
pub proof fn lemma_scan_succeeds(candidates: Seq<CandidateView>)
    requires
        forall|i: int|
            0 <= i < candidates.len() && is_device_dir(#[trigger] candidates[i]) ==> device_of(
                candidates[i],
            ) is Ok,
    ensures
        devices_of(candidates) == Ok::<Seq<DeviceView>, ScanErrorView>(loaded_of(candidates)),
        skipped_of(candidates).len() == 0,
    decreases candidates.len(),
{
    if candidates.len() > 0 {
        let rest = candidates.drop_last();
        assert forall|i: int|
            0 <= i < rest.len() && is_device_dir(#[trigger] rest[i]) implies device_of(
            rest[i],
        ) is Ok by {
            assert(rest[i] == candidates[i]);
        }
        lemma_scan_succeeds(rest);
    }
}

/// A directory that gives no device fails the whole scan: no device is
/// returned, whatever the other candidates hold.
pub proof fn lemma_any_failure_fails_the_scan(candidates: Seq<CandidateView>, at: int)
    requires
        0 <= at < candidates.len(),
        is_device_dir(candidates[at]),
        device_of(candidates[at]) is Err,
    ensures
        devices_of(candidates) is Err,
    decreases candidates.len(),
{
    if at < candidates.len() - 1 {
        let rest = candidates.drop_last();
        assert(rest[at] == candidates[at]);
        lemma_any_failure_fails_the_scan(rest, at);
    }
}

/// The scan fails with the failure of the first directory that gives no
/// device.
pub proof fn lemma_first_failure_fails_the_scan(candidates: Seq<CandidateView>, at: int)
    requires
        0 <= at < candidates.len(),
        is_device_dir(candidates[at]),
        device_of(candidates[at]) is Err,
        forall|i: int|
            0 <= i < at && is_device_dir(#[trigger] candidates[i]) ==> device_of(candidates[i])
                is Ok,
    ensures
        devices_of(candidates) matches Err(error) && device_of(candidates[at]) == Err::<
            DeviceView,
            ScanErrorView,
        >(error),
{
    let before = candidates.take(at);
    assert forall|i: int|
        0 <= i < before.len() && is_device_dir(#[trigger] before[i]) implies device_of(
        before[i],
    ) is Ok by {
        assert(before[i] == candidates[i]);
    }
    lemma_scan_succeeds(before);
    let upto = candidates.take(at + 1);
    assert(upto.drop_last() == before);
    assert(upto.last() == candidates[at]);
    lemma_failure_is_kept(candidates, at + 1);
}

/// The strict scan and the lenient scan agree: the strict scan succeeds
/// exactly when the lenient scan skips nothing, and then gives the same
/// devices; else it fails with the first failure that the lenient scan
/// reports.
pub proof fn lemma_strict_agrees_with_lenient(candidates: Seq<CandidateView>)
    ensures
        devices_of(candidates) is Ok <==> skipped_of(candidates).len() == 0,
        devices_of(candidates) matches Ok(devices) ==> devices == loaded_of(candidates),
        devices_of(candidates) matches Err(error) ==> error == skipped_of(candidates).first(),
    decreases candidates.len(),
{
    if candidates.len() > 0 {
        lemma_strict_agrees_with_lenient(candidates.drop_last());
    }
}

/// The lenient scan accounts for every directory: it gives a device or a
/// failure for each, and nothing for the other candidates.
pub proof fn lemma_lenient_accounts_for_every_directory(candidates: Seq<CandidateView>)
    ensures
        loaded_of(candidates).len() + skipped_of(candidates).len() == directories(
            candidates,
        ).len(),
    decreases candidates.len(),
{
    reveal(Seq::filter);
    if candidates.len() > 0 {
        lemma_lenient_accounts_for_every_directory(candidates.drop_last());
    }
}

/// Where the first root that was not listed stands, and that the scan fails
/// with it: all roots before it were listed, and it was not.
pub proof fn lemma_root_not_listed_fails_the_scan<T>(listings: Seq<RootListingView<T>>)
    requires
        !all_listed(listings),
    ensures
        0 <= listed_before_failure(listings) < listings.len(),
        listings[listed_before_failure(listings)].entries is None,
        forall|i: int|
            0 <= i < listed_before_failure(listings) ==> (#[trigger] listings[i]).entries is Some,
        candidate_dirs(listings) == Err::<Seq<T>, ScanErrorView>(
            ScanErrorView::RootUnreadable { path: listings[listed_before_failure(listings)].root },
        ),
    decreases listings.len(),
{
    if listings.len() > 0 && listings.first().entries is Some {
        let rest = listings.drop_first();
        let bad = choose|i: int|
            0 <= i < listings.len() && !((#[trigger] listings[i]).entries is Some);
        assert(rest[bad - 1] == listings[bad]);
        lemma_root_not_listed_fails_the_scan(rest);
        let first = listed_before_failure(rest);
        assert(listings[first + 1] == rest[first]);
        assert forall|i: int| 0 <= i < first + 1 implies (#[trigger] listings[i]).entries
            is Some by {
            if i > 0 {
                assert(listings[i] == rest[i - 1]);
            }
        }
    }
}

/// A root that was not listed fails the scan, wherever it stands among the
/// roots and whatever the other roots hold. The failure names a root that
/// was not listed: the first of them.
pub proof fn lemma_any_root_not_listed_fails_the_scan<T>(
    listings: Seq<RootListingView<T>>,
    at: int,
)
    requires
        0 <= at < listings.len(),
        listings[at].entries is None,
    ensures
        candidate_dirs(listings) matches Err(error) && error is RootUnreadable,
        listed_before_failure(listings) <= at,
        candidate_dirs(listings) == Err::<Seq<T>, ScanErrorView>(
            ScanErrorView::RootUnreadable { path: listings[listed_before_failure(listings)].root },
        ),
{
    lemma_root_not_listed_fails_the_scan(listings);
}

/// The directory source gives one result for one set of listings: two
/// results that both meet its contract, for listings that look the same, are
/// the same, entry for entry and in the same order.
pub proof fn lemma_candidates_are_determined<T>(
    first: Vec<RootListing<T>>,
    second: Vec<RootListing<T>>,
    first_result: Result<Vec<T>, ScanError>,
    second_result: Result<Vec<T>, ScanError>,
)
    requires
        first.deep_view() == second.deep_view(),
        candidates_view(first_result) == candidate_dirs(first.deep_view()),
        candidates_view(second_result) == candidate_dirs(second.deep_view()),
    ensures
        candidates_view(first_result) == candidates_view(second_result),
{
}

/// The loader gives one result for one set of candidates: two results that
/// both meet its contract, for candidates that look the same, are the same,
/// device for device and in the same order.
pub proof fn lemma_devices_are_determined(
    first: Vec<Candidate>,
    second: Vec<Candidate>,
    first_result: Result<Vec<LightDevice>, ScanError>,
    second_result: Result<Vec<LightDevice>, ScanError>,
)
    requires
        first.deep_view() == second.deep_view(),
        devices_view(first_result) == devices_of(first.deep_view()),
        devices_view(second_result) == devices_of(second.deep_view()),
    ensures
        devices_view(first_result) == devices_view(second_result),
{
}

} // verus!
