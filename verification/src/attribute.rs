//! The two attribute files of a device directory and what they hold.
//!
//! Each file holds one integer in base ten, with white space around it at
//! will: the kernel ends the number with a line feed.

use crate::number::parse_i64_between;
use crate::number::parsed_i64;
use crate::path::child_of;
use crate::path::child_path;
use crate::path::is_entry_name;
use crate::path::leaf_of;
use crate::path::lemma_leaf_of_child;
use crate::path::separator;
use crate::text::all_white_space;
use crate::text::lemma_trimmed_ignores_white_space_around;
use crate::text::to_chars;
use crate::text::trim_bounds;
use crate::text::trimmed;
use vstd::prelude::*;

verus! {

/// An attribute of a device that the scan reads.
#[derive(Clone, Copy, Debug, PartialEq, Eq)]
pub enum Attribute {
    /// The current brightness, in the file `brightness`.
    Brightness,
    /// The largest brightness that the device takes, in the file
    /// `max_brightness`.
    MaxBrightness,
}

impl Attribute {
    /// The name of the file that holds the attribute.
    pub open spec fn file_name_text(self) -> Seq<char> {
        match self {
            Attribute::Brightness => "brightness"@,
            Attribute::MaxBrightness => "max_brightness"@,
        }
    }

    /// The path of the attribute's file for the device in the directory
    /// `dir`.
    pub open spec fn file_path_text(self, dir: Seq<char>) -> Seq<char> {
        child_of(dir, self.file_name_text())
    }

    /// The name of the file that holds the attribute.
    pub fn file_name(self) -> (name: &'static str)
        ensures
            name@ == self.file_name_text(),
    {
        match self {
            Attribute::Brightness => "brightness",
            Attribute::MaxBrightness => "max_brightness",
        }
    }

    /// The path of the attribute's file for the device in the directory
    /// `dir`.
    pub fn file_path(self, dir: &str) -> (path: String)
        ensures
            path@ == self.file_path_text(dir@),
    {
        child_path(dir, self.file_name())
    }
}

/// The file of an attribute lies in the device's directory under the
/// attribute's own name, whatever the directory is.
pub proof fn lemma_attribute_file_lies_in_the_directory(attribute: Attribute, dir: Seq<char>)
    ensures
        is_entry_name(attribute.file_name_text()),
        leaf_of(attribute.file_path_text(dir)) == Some(attribute.file_name_text()),
{
    reveal_strlit("brightness");
    reveal_strlit("max_brightness");
    let name = attribute.file_name_text();
    assert forall|i: int| 0 <= i < name.len() implies name[i] != separator() by {
        if attribute == Attribute::Brightness {
            assert(name[i] == "brightness"@[i]);
        } else {
            assert(name[i] == "max_brightness"@[i]);
        }
    }
    assert(name[0] != '.');
    assert(seq!['.'][0] == '.');
    assert(seq!['.', '.'][0] == '.');
    lemma_leaf_of_child(dir, name);
}

/// The integer that the content of an attribute file spells, if it spells
/// one: the content is trimmed, and what is left is read as an integer of 64
/// bits.
pub open spec fn attribute_value(content: Seq<char>) -> Option<i64> {
    parsed_i64(trimmed(content))
}

/// White space before and after the content of an attribute file does not
/// change what the content is read as.
pub proof fn lemma_attribute_value_ignores_white_space_around(
    before: Seq<char>,
    text: Seq<char>,
    after: Seq<char>,
)
    requires
        all_white_space(before),
        all_white_space(after),
    ensures
        attribute_value(before + text + after) == attribute_value(text),
{
    lemma_trimmed_ignores_white_space_around(before, text, after);
}

/// Reads the content of an attribute file as an integer.
///
/// Gives `None` where the trimmed content is not an integer, or is one that
/// 64 bits cannot hold.
pub fn parse_attribute(content: &str) -> (value: Option<i64>)
    ensures
        value == attribute_value(content@),
{
    let chars: Vec<char> = to_chars(content);
    let bounds: (usize, usize) = trim_bounds(&chars);
    parse_i64_between(&chars, bounds.0, bounds.1)
}

} // verus!
