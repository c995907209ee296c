//! Why a scan failed.

use crate::attribute::Attribute;
use vstd::prelude::*;
use vstd::string::StringExecFns;

verus! {

/// What a [`ScanError`] stands for in contracts.
pub enum ScanErrorView {
    RootUnreadable { path: Seq<char> },
    NameDecodeFailure { path: Seq<char> },
    AttributeReadFailure { path: Seq<char>, attribute: Attribute },
    AttributeParseFailure { path: Seq<char>, attribute: Attribute, content: Seq<char> },
}

/// Why a scan failed. Each error names the path at fault.
#[derive(Debug, PartialEq, Eq)]
pub enum ScanError {
    /// A root directory could not be listed: it is missing, it is no
    /// directory, or it may not be read.
    RootUnreadable {
        /// The root directory.
        path: String,
    },
    /// The path of a device directory has no leaf to name the device by, or
    /// the file system's name for the directory is not text.
    NameDecodeFailure {
        /// The device directory. Where its name is not text, what could not
        /// be decoded is replaced.
        path: String,
    },
    /// An attribute file of a device could not be read. A device that went
    /// away between the listing and the read fails this way.
    AttributeReadFailure {
        /// The device directory.
        path: String,
        /// The attribute whose file could not be read.
        attribute: Attribute,
    },
    /// An attribute file of a device does not hold an integer.
    AttributeParseFailure {
        /// The device directory.
        path: String,
        /// The attribute whose file was read.
        attribute: Attribute,
        /// What the file holds, as it was read.
        content: String,
    },
}

impl View for ScanError {
    type V = ScanErrorView;

    open spec fn view(&self) -> ScanErrorView {
        match self {
            ScanError::RootUnreadable { path } => ScanErrorView::RootUnreadable { path: path@ },
            ScanError::NameDecodeFailure { path } => ScanErrorView::NameDecodeFailure {
                path: path@,
            },
            ScanError::AttributeReadFailure { path, attribute } => {
                ScanErrorView::AttributeReadFailure { path: path@, attribute: *attribute }
            },
            ScanError::AttributeParseFailure { path, attribute, content } => {
                ScanErrorView::AttributeParseFailure {
                    path: path@,
                    attribute: *attribute,
                    content: content@,
                }
            },
        }
    }
}

impl DeepView for ScanError {
    type V = ScanErrorView;

    open spec fn deep_view(&self) -> ScanErrorView {
        self@
    }
}

impl ScanErrorView {
    /// The path that the error names: a root directory or a device
    /// directory.
    pub open spec fn path(self) -> Seq<char> {
        match self {
            ScanErrorView::RootUnreadable { path } => path,
            ScanErrorView::NameDecodeFailure { path } => path,
            ScanErrorView::AttributeReadFailure { path, .. } => path,
            ScanErrorView::AttributeParseFailure { path, .. } => path,
        }
    }

    /// The message that describes the error.
    pub open spec fn message(self) -> Seq<char> {
        match self {
            ScanErrorView::RootUnreadable { path } => "could not list the directory '"@ + path
                + "'"@,
            ScanErrorView::NameDecodeFailure { path } => {
                "could not get a device name from the path '"@ + path + "'"@
            },
            ScanErrorView::AttributeReadFailure { path, attribute } => "could not read '"@
                + attribute.file_path_text(path) + "'"@,
            ScanErrorView::AttributeParseFailure { path, attribute, content } => "'"@
                + attribute.file_path_text(path) + "' does not hold an integer: '"@ + content
                + "'"@,
        }
    }
}

impl ScanError {
    /// The path that the error names: a root directory or a device
    /// directory.
    pub fn path(&self) -> (path: &str)
        ensures
            path@ == self@.path(),
    {
        match self {
            ScanError::RootUnreadable { path } => path.as_str(),
            ScanError::NameDecodeFailure { path } => path.as_str(),
            ScanError::AttributeReadFailure { path, .. } => path.as_str(),
            ScanError::AttributeParseFailure { path, .. } => path.as_str(),
        }
    }

    /// A message for the user. It names the path at fault and, for a file
    /// that does not hold an integer, what the file holds.
    pub fn describe(&self) -> (message: String)
        ensures
            message@ == self@.message(),
    {
        match self {
            ScanError::RootUnreadable { path } => {
                let mut message: String = String::from_str("could not list the directory '");
                message.append(path.as_str());
                message.append("'");
                message
            },
            ScanError::NameDecodeFailure { path } => {
                let mut message: String = String::from_str(
                    "could not get a device name from the path '",
                );
                message.append(path.as_str());
                message.append("'");
                message
            },
            ScanError::AttributeReadFailure { path, attribute } => {
                let file: String = attribute.file_path(path.as_str());
                let mut message: String = String::from_str("could not read '");
                message.append(file.as_str());
                message.append("'");
                message
            },
            ScanError::AttributeParseFailure { path, attribute, content } => {
                let file: String = attribute.file_path(path.as_str());
                let mut message: String = String::from_str("'");
                message.append(file.as_str());
                message.append("' does not hold an integer: '");
                message.append(content.as_str());
                message.append("'");
                message
            },
        }
    }
}

} // verus!
