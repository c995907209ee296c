//! The device loader: from candidates to device records.
//!
//! A candidate is an entry of a root directory together with what the caller
//! saw of it: whether it is a directory, and what its two attribute files
//! hold. The loader passes over what is no directory and builds a device
//! from each directory.
//!
//! The strict loader, [`load_devices`], gives all devices or the first
//! failure, never a part of the list. The lenient loader,
//! [`load_devices_lenient`], gives the devices that could be built and, apart
//! from them, the failures.
//!
//! Two devices with one name, under different roots, are both reported, in
//! the order of the candidates. A caller that keys devices by name will keep
//! the later one.

use crate::attribute::attribute_value;
use crate::attribute::parse_attribute;
use crate::attribute::Attribute;
use crate::device::DeviceView;
use crate::device::LightDevice;
use crate::error::ScanError;
use crate::error::ScanErrorView;
use crate::path::leaf_name;
use crate::path::leaf_of;
use vstd::prelude::*;

verus! {

/// What an [`EntryPath`] stands for in contracts.
pub enum EntryPathView {
    Text(Seq<char>),
    NotText(Seq<char>),
}

/// The path of an entry of a root directory, as the file system gave it.
#[derive(Debug, PartialEq, Eq)]
pub enum EntryPath {
    /// The path, where the file system's name for the entry is text.
    Text(String),
    /// A path whose name is not text. What is held is fit for a message
    /// only: what could not be decoded is replaced in it.
    NotText(String),
}

impl View for EntryPath {
    type V = EntryPathView;

    open spec fn view(&self) -> EntryPathView {
        match self {
            EntryPath::Text(path) => EntryPathView::Text(path@),
            EntryPath::NotText(shown) => EntryPathView::NotText(shown@),
        }
    }
}

impl DeepView for EntryPath {
    type V = EntryPathView;

    open spec fn deep_view(&self) -> EntryPathView {
        self@
    }
}

impl EntryPathView {
    /// The path as a message shows it.
    pub open spec fn shown(self) -> Seq<char> {
        match self {
            EntryPathView::Text(path) => path,
            EntryPathView::NotText(shown) => shown,
        }
    }
}

/// What a [`Candidate`] stands for in contracts.
pub struct CandidateView {
    pub path: EntryPathView,
    pub is_dir: bool,
    pub brightness: Option<Seq<char>>,
    pub max_brightness: Option<Seq<char>>,
}

/// An entry of a root directory, and what was seen of it.
#[derive(Debug, PartialEq, Eq)]
pub struct Candidate {
    /// The path of the entry.
    pub path: EntryPath,
    /// Whether the entry is a directory. A plain file is none, and neither
    /// is a link that leads nowhere.
    pub is_dir: bool,
    /// What the file `brightness` in the entry holds, or `None` where it
    /// could not be read.
    pub brightness: Option<String>,
    /// What the file `max_brightness` in the entry holds, or `None` where it
    /// could not be read.
    pub max_brightness: Option<String>,
}

impl View for Candidate {
    type V = CandidateView;

    open spec fn view(&self) -> CandidateView {
        CandidateView {
            path: self.path@,
            is_dir: self.is_dir,
            brightness: match self.brightness {
                Some(content) => Some(content@),
                None => None,
            },
            max_brightness: match self.max_brightness {
                Some(content) => Some(content@),
                None => None,
            },
        }
    }
}

impl DeepView for Candidate {
    type V = CandidateView;

    open spec fn deep_view(&self) -> CandidateView {
        self@
    }
}

/// The value of an attribute of the device in the directory `path`, from what
/// was read of the attribute's file.
pub open spec fn attribute_of(
    path: Seq<char>,
    attribute: Attribute,
    content: Option<Seq<char>>,
) -> Result<i64, ScanErrorView> {
    match content {
        None => Err(ScanErrorView::AttributeReadFailure { path, attribute }),
        Some(text) => match attribute_value(text) {
            Some(value) => Ok(value),
            None => Err(ScanErrorView::AttributeParseFailure { path, attribute, content: text }),
        },
    }
}

/// The device in the directory `candidate`, or why there is none.
///
/// The name comes first, then the brightness, then the maximum: the first of
/// them that fails is the one reported.
pub open spec fn device_of(candidate: CandidateView) -> Result<DeviceView, ScanErrorView> {
    match candidate.path {
        EntryPathView::NotText(shown) => Err(ScanErrorView::NameDecodeFailure { path: shown }),
        EntryPathView::Text(path) => match leaf_of(path) {
            None => Err(ScanErrorView::NameDecodeFailure { path }),
            Some(name) => match attribute_of(path, Attribute::Brightness, candidate.brightness) {
                Err(error) => Err(error),
                Ok(brightness) => match attribute_of(
                    path,
                    Attribute::MaxBrightness,
                    candidate.max_brightness,
                ) {
                    Err(error) => Err(error),
                    Ok(max_brightness) => Ok(
                        DeviceView {
                            name,
                            device_full_path: path,
                            brightness: brightness as int,
                            max_brightness: max_brightness as int,
                        },
                    ),
                },
            },
        },
    }
}

/// Whether the loader builds a device from `candidate`: the others it passes
/// over.
pub open spec fn is_device_dir(candidate: CandidateView) -> bool {
    candidate.is_dir
}

/// The devices in `candidates`, in order, or the failure of the first
/// directory among them that gives no device.
pub open spec fn devices_of(candidates: Seq<CandidateView>) -> Result<
    Seq<DeviceView>,
    ScanErrorView,
>
    decreases candidates.len(),
{
    if candidates.len() == 0 {
        Ok(Seq::empty())
    } else {
        match devices_of(candidates.drop_last()) {
            Err(error) => Err(error),
            Ok(devices) => if !is_device_dir(candidates.last()) {
                Ok(devices)
            } else {
                match device_of(candidates.last()) {
                    Err(error) => Err(error),
                    Ok(device) => Ok(devices.push(device)),
                }
            },
        }
    }
}

/// The devices of the directories in `candidates` that give one, in order.
pub open spec fn loaded_of(candidates: Seq<CandidateView>) -> Seq<DeviceView>
    decreases candidates.len(),
{
    if candidates.len() == 0 {
        Seq::empty()
    } else if !is_device_dir(candidates.last()) {
        loaded_of(candidates.drop_last())
    } else {
        match device_of(candidates.last()) {
            Ok(device) => loaded_of(candidates.drop_last()).push(device),
            Err(_) => loaded_of(candidates.drop_last()),
        }
    }
}

/// The failures of the directories in `candidates` that give no device, in
/// order.
pub open spec fn skipped_of(candidates: Seq<CandidateView>) -> Seq<ScanErrorView>
    decreases candidates.len(),
{
    if candidates.len() == 0 {
        Seq::empty()
    } else if !is_device_dir(candidates.last()) {
        skipped_of(candidates.drop_last())
    } else {
        match device_of(candidates.last()) {
            Ok(_) => skipped_of(candidates.drop_last()),
            Err(error) => skipped_of(candidates.drop_last()).push(error),
        }
    }
}

/// What the result of [`read_attribute`] stands for in contracts.
pub open spec fn value_view(result: Result<i64, ScanError>) -> Result<i64, ScanErrorView> {
    match result {
        Ok(value) => Ok(value),
        Err(error) => Err(error@),
    }
}

/// What the result of [`load_device`] stands for in contracts.
pub open spec fn device_view(result: Result<LightDevice, ScanError>) -> Result<
    DeviceView,
    ScanErrorView,
> {
    match result {
        Ok(device) => Ok(device@),
        Err(error) => Err(error@),
    }
}

/// What the result of [`load_devices`] stands for in contracts.
pub open spec fn devices_view(result: Result<Vec<LightDevice>, ScanError>) -> Result<
    Seq<DeviceView>,
    ScanErrorView,
> {
    match result {
        Ok(devices) => Ok(devices.deep_view()),
        Err(error) => Err(error@),
    }
}

/// The value of an attribute of the device in the directory `path`, from what
/// was read of the attribute's file.
///
/// Fails with [`ScanError::AttributeReadFailure`] where the file was not
/// read, and with [`ScanError::AttributeParseFailure`] where it does not hold
/// an integer.
pub fn read_attribute(path: &str, attribute: Attribute, content: &Option<String>) -> (result:
    Result<i64, ScanError>)
    ensures
        value_view(result) == attribute_of(
            path@,
            attribute,
            match *content {
                Some(text) => Some(text@),
                None => None,
            },
        ),
{
    match content {
        None => Err(ScanError::AttributeReadFailure { path: path.to_owned(), attribute }),
        Some(text) => match parse_attribute(text.as_str()) {
            Some(value) => Ok(value),
            None => Err(
                ScanError::AttributeParseFailure {
                    path: path.to_owned(),
                    attribute,
                    content: text.clone(),
                },
            ),
        },
    }
}

/// Builds the device in the directory `candidate`.
///
/// The device is named by the leaf of the path. Whether the candidate is a
/// directory is not asked here.
pub fn load_device(candidate: &Candidate) -> (result: Result<LightDevice, ScanError>)
    ensures
        device_view(result) == device_of(candidate@),
{
    match &candidate.path {
        EntryPath::NotText(shown) => Err(ScanError::NameDecodeFailure { path: shown.clone() }),
        EntryPath::Text(path) => match leaf_name(path.as_str()) {
            None => Err(ScanError::NameDecodeFailure { path: path.clone() }),
            Some(name) => match read_attribute(
                path.as_str(),
                Attribute::Brightness,
                &candidate.brightness,
            ) {
                Err(error) => Err(error),
                Ok(brightness) => match read_attribute(
                    path.as_str(),
                    Attribute::MaxBrightness,
                    &candidate.max_brightness,
                ) {
                    Err(error) => Err(error),
                    Ok(max_brightness) => Ok(
                        LightDevice::new(name.as_str(), path.clone(), brightness, max_brightness),
                    ),
                },
            },
        },
    }
}

/// Builds the devices in `dir_entries`.
///
/// Candidates that are no directories are passed over: they are no devices,
/// and no failure either. Each directory gives one device, in the order of
/// the candidates. The first directory that gives none fails the whole scan
/// with its failure, and no device is returned.
pub fn load_devices(dir_entries: &Vec<Candidate>) -> (result: Result<Vec<LightDevice>, ScanError>)
    ensures
        devices_view(result) == devices_of(dir_entries.deep_view()),
{
    let ghost all = dir_entries.deep_view();
    let mut devices: Vec<LightDevice> = Vec::new();
    let mut at: usize = 0;
    assert(all.take(0) == Seq::<CandidateView>::empty());
    assert(devices.deep_view() == Seq::<DeviceView>::empty());
    while at < dir_entries.len()
        invariant
            at <= dir_entries.len(),
            all == dir_entries.deep_view(),
            devices_of(all.take(at as int)) == Ok::<Seq<DeviceView>, ScanErrorView>(
                devices.deep_view(),
            ),
        decreases dir_entries.len() - at,
    {
        proof {
            assert(all.take(at + 1).drop_last() == all.take(at as int));
            assert(all.take(at + 1).last() == dir_entries@[at as int]@);
        }
        if dir_entries[at].is_dir {
            match load_device(&dir_entries[at]) {
                Err(error) => {
                    proof {
                        lemma_failure_is_kept(all, at + 1);
                    }
                    return Err(error);
                },
                Ok(device) => {
                    let ghost held = devices.deep_view();
                    devices.push(device);
                    assert(devices.deep_view() =~= held.push(device@));
                },
            }
        }
        at += 1;
    }
    assert(all.take(at as int) == all);
    Ok(devices)
}

/// Builds the devices in `dir_entries` that can be built, and reports the
/// others.
///
/// Candidates that are no directories are passed over, as in
/// [`load_devices`]. The first part of the result holds the device of each
/// directory that gives one, the second the failure of each directory that
/// gives none, both in the order of the candidates. Each failure names the
/// path of its directory.
pub fn load_devices_lenient(dir_entries: &Vec<Candidate>) -> (result: (
    Vec<LightDevice>,
    Vec<ScanError>,
))
    ensures
        result.0.deep_view() == loaded_of(dir_entries.deep_view()),
        result.1.deep_view() == skipped_of(dir_entries.deep_view()),
{
    let ghost all = dir_entries.deep_view();
    let mut devices: Vec<LightDevice> = Vec::new();
    let mut skipped: Vec<ScanError> = Vec::new();
    let mut at: usize = 0;
    assert(all.take(0) == Seq::<CandidateView>::empty());
    assert(devices.deep_view() == Seq::<DeviceView>::empty());
    assert(skipped.deep_view() == Seq::<ScanErrorView>::empty());
    while at < dir_entries.len()
        invariant
            at <= dir_entries.len(),
            all == dir_entries.deep_view(),
            devices.deep_view() == loaded_of(all.take(at as int)),
            skipped.deep_view() == skipped_of(all.take(at as int)),
        decreases dir_entries.len() - at,
    {
        proof {
            assert(all.take(at + 1).drop_last() == all.take(at as int));
            assert(all.take(at + 1).last() == dir_entries@[at as int]@);
        }
        if dir_entries[at].is_dir {
            match load_device(&dir_entries[at]) {
                Err(error) => {
                    let ghost held = skipped.deep_view();
                    skipped.push(error);
                    assert(skipped.deep_view() =~= held.push(error@));
                },
                Ok(device) => {
                    let ghost held = devices.deep_view();
                    devices.push(device);
                    assert(devices.deep_view() =~= held.push(device@));
                },
            }
        }
        at += 1;
    }
    assert(all.take(at as int) == all);
    (devices, skipped)
}

/// A scan that has failed on the candidates up to `n` fails in the same way
/// on all of them.
pub proof fn lemma_failure_is_kept(candidates: Seq<CandidateView>, n: int)
    requires
        0 <= n <= candidates.len(),
        devices_of(candidates.take(n)) is Err,
    ensures
        devices_of(candidates) == devices_of(candidates.take(n)),
    decreases candidates.len(),
{
    if n < candidates.len() {
        assert(candidates.drop_last().take(n) == candidates.take(n));
        lemma_failure_is_kept(candidates.drop_last(), n);
    } else {
        assert(candidates.take(n) == candidates);
    }
}

} // verus!
