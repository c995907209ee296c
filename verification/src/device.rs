//! The record that describes one discovered device.

use crate::number::decimal_text;
use crate::number::i64_text;
use vstd::prelude::*;
use vstd::string::StringExecFns;

verus! {

/// What a [`LightDevice`] stands for in contracts.
pub struct DeviceView {
    pub name: Seq<char>,
    pub device_full_path: Seq<char>,
    pub brightness: int,
    pub max_brightness: int,
}

/// One light-emitting device: an LED or a display backlight.
///
/// The record is a snapshot. It holds what the file system reported when the
/// device was read, and nothing keeps it in step afterwards. In particular
/// `brightness` is passed through as found: it may lie outside
/// `0..=max_brightness` while a device is in transition.
#[derive(Debug, PartialEq, Eq)]
pub struct LightDevice {
    /// Name of the device: the last component of its directory's path.
    pub name: String,
    /// The full path to the device's directory.
    pub device_full_path: String,
    /// Current brightness.
    pub brightness: i64,
    /// Maximum brightness.
    pub max_brightness: i64,
}

impl DeviceView {
    /// The line that shows the device to the user: its name, its path, its
    /// brightness and its maximum brightness.
    pub open spec fn line(self) -> Seq<char> {
        "The device consists of the following: "@ + self.name + " "@ + self.device_full_path + " "@
            + decimal_text(self.brightness) + " "@ + decimal_text(self.max_brightness)
    }
}

impl View for LightDevice {
    type V = DeviceView;

    open spec fn view(&self) -> DeviceView {
        DeviceView {
            name: self.name@,
            device_full_path: self.device_full_path@,
            brightness: self.brightness as int,
            max_brightness: self.max_brightness as int,
        }
    }
}

impl DeepView for LightDevice {
    type V = DeviceView;

    open spec fn deep_view(&self) -> DeviceView {
        self@
    }
}

impl LightDevice {
    /// Assembles a device record from its four parts.
    pub fn new(
        name: &str,
        device_full_path: String,
        brightness: i64,
        max_brightness: i64,
    ) -> (device: Self)
        ensures
            device@ == (DeviceView {
                name: name@,
                device_full_path: device_full_path@,
                brightness: brightness as int,
                max_brightness: max_brightness as int,
            }),
    {
        Self { name: name.to_owned(), device_full_path, brightness, max_brightness }
    }

    /// The line that shows the device to the user: its name, its path, its
    /// brightness and its maximum brightness, in base ten.
    pub fn describe(&self) -> (line: String)
        ensures
            line@ == self@.line(),
    {
        let brightness: String = i64_text(self.brightness);
        let max_brightness: String = i64_text(self.max_brightness);
        let mut line: String = String::from_str("The device consists of the following: ");
        line.append(self.name.as_str());
        line.append(" ");
        line.append(self.device_full_path.as_str());
        line.append(" ");
        line.append(brightness.as_str());
        line.append(" ");
        line.append(max_brightness.as_str());
        line
    }
}

} // verus!
