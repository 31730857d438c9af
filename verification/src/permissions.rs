//! Permissions on the devices and volumes of a container.

use vstd::prelude::*;
use vstd::string::StringExecFns;
use crate::errors::{InvalidValueError, InvalidValueErrorView};
use crate::merge_override::Duplicate;
use crate::raw_or::{parse_result, InterpolatableValue};
use crate::text::{chars_of, same_text};

verus! {

/// Permissions on devices that are mapped into a container.
#[derive(Debug, Eq, PartialEq, Clone, Copy)]
pub struct DevicePermissions {
    /// Can the container read from this device?
    pub read: bool,
    /// Can the container write to this device?
    pub write: bool,
    /// Can the container call `mknod` for this device?
    pub mknod: bool,
}

impl DeepView for DevicePermissions {
    type V = DevicePermissions;

    open spec fn deep_view(&self) -> DevicePermissions {
        *self
    }
}

impl Default for DevicePermissions {
    fn default() -> (r: DevicePermissions)
        ensures
            r == (DevicePermissions { read: true, write: true, mknod: true }),
    {
        DevicePermissions { read: true, write: true, mknod: true }
    }
}

/// `c` if `present`, else nothing.
pub open spec fn letter_if(present: bool, c: char) -> Seq<char> {
    if present {
        seq![c]
    } else {
        Seq::empty()
    }
}

/// Does `s` hold the letter `c` at index `at`?
pub open spec fn has_letter_at(s: Seq<char>, at: int, c: char) -> bool {
    0 <= at < s.len() && s[at] == c
}

/// The permissions that the start of `s` grants: an `r`, then a `w`, then
/// an `m`, each of which may be missing.  What follows is not looked at.
pub open spec fn device_permissions_at_start(s: Seq<char>) -> DevicePermissions {
    let read = has_letter_at(s, 0, 'r');
    let after_read: int = if read {
        1
    } else {
        0
    };
    let write = has_letter_at(s, after_read, 'w');
    let after_write: int = if write {
        after_read + 1
    } else {
        after_read
    };
    let mknod = has_letter_at(s, after_write, 'm');
    DevicePermissions { read, write, mknod }
}

impl DevicePermissions {
    /// Parse permissions from the letters `r`, `w` and `m` at the start of
    /// `s`.  This never fails: a letter that is missing is a permission
    /// that is not granted.
    pub fn from_str(s: &str) -> (r: Result<DevicePermissions, InvalidValueError>)
        ensures
            parse_result(r) == Self::parse_model(s@),
    {
        let chars = chars_of(s);
        let mut at: usize = 0;
        let read = at < chars.len() && chars[at] == 'r';
        if read {
            at += 1;
        }
        let write = at < chars.len() && chars[at] == 'w';
        if write {
            at += 1;
        }
        let mknod = at < chars.len() && chars[at] == 'm';
        Ok(DevicePermissions { read, write, mknod })
    }

    /// The letters of the permissions that are granted.
    pub fn to_string(&self) -> (r: String)
        ensures
            r@ == Self::formatted(*self),
    {
        let mut out = String::new();
        if self.read {
            out.push('r');
        }
        if self.write {
            out.push('w');
        }
        if self.mknod {
            out.push('m');
        }
        assert(out@ == Self::formatted(*self));
        out
    }
}

impl Duplicate for DevicePermissions {
    fn duplicate(&self) -> (r: DevicePermissions) {
        *self
    }
}

impl InterpolatableValue for DevicePermissions {
    open spec fn valid(v: DevicePermissions) -> bool {
        true
    }

    open spec fn parse_model(s: Seq<char>) -> Result<DevicePermissions, InvalidValueErrorView> {
        Ok(device_permissions_at_start(s))
    }

    open spec fn formatted(v: DevicePermissions) -> Seq<char> {
        letter_if(v.read, 'r') + letter_if(v.write, 'w') + letter_if(v.mknod, 'm')
    }

    proof fn lemma_parse_formatted(v: DevicePermissions) {
        let s = Self::formatted(v);
        let p = device_permissions_at_start(s);
        assert(p.read == v.read);
        assert(p.write == v.write);
        assert(p.mknod == v.mknod);
    }

    fn iv_from_str(s: &str) -> (r: Result<DevicePermissions, InvalidValueError>) {
        DevicePermissions::from_str(s)
    }

    fn fmt_iv(&self) -> (r: String) {
        self.to_string()
    }

    fn is_valid(&self) -> (r: bool) {
        true
    }
}

/// Permissions on volumes that are mapped into a container.
#[derive(Debug, Eq, PartialEq, Clone, Copy)]
pub enum VolumePermissions {
    /// This volume can be read and written (the default).
    ReadWrite,
    /// This volume is read-only.
    ReadOnly,
}

impl DeepView for VolumePermissions {
    type V = VolumePermissions;

    open spec fn deep_view(&self) -> VolumePermissions {
        *self
    }
}

impl Default for VolumePermissions {
    fn default() -> (r: VolumePermissions)
        ensures
            r == VolumePermissions::ReadWrite,
    {
        VolumePermissions::ReadWrite
    }
}

impl VolumePermissions {
    /// Parse permissions from the word that names them.
    pub fn from_str(s: &str) -> (r: Result<VolumePermissions, InvalidValueError>)
        ensures
            parse_result(r) == Self::parse_model(s@),
    {
        if same_text(s, "rw") {
            Ok(VolumePermissions::ReadWrite)
        } else if same_text(s, "ro") {
            Ok(VolumePermissions::ReadOnly)
        } else {
            Err(InvalidValueError::new("volume permissions", s))
        }
    }

    /// The word that names these permissions.
    pub fn to_string(&self) -> (r: String)
        ensures
            r@ == Self::formatted(*self),
    {
        match self {
            VolumePermissions::ReadWrite => String::from_str("rw"),
            VolumePermissions::ReadOnly => String::from_str("ro"),
        }
    }

    /// Is this the default, which is left out when writing?
    pub fn is_default(&self) -> (r: bool)
        ensures
            r == (*self == VolumePermissions::ReadWrite),
    {
        match self {
            VolumePermissions::ReadWrite => true,
            _ => false,
        }
    }
}

impl Duplicate for VolumePermissions {
    fn duplicate(&self) -> (r: VolumePermissions) {
        *self
    }
}

impl InterpolatableValue for VolumePermissions {
    open spec fn valid(v: VolumePermissions) -> bool {
        true
    }

    open spec fn parse_model(s: Seq<char>) -> Result<VolumePermissions, InvalidValueErrorView> {
        if s == "rw"@ {
            Ok(VolumePermissions::ReadWrite)
        } else if s == "ro"@ {
            Ok(VolumePermissions::ReadOnly)
        } else {
            Err(InvalidValueErrorView { wanted: "volume permissions"@, input: s })
        }
    }

    open spec fn formatted(v: VolumePermissions) -> Seq<char> {
        match v {
            VolumePermissions::ReadWrite => "rw"@,
            VolumePermissions::ReadOnly => "ro"@,
        }
    }

    proof fn lemma_parse_formatted(v: VolumePermissions) {
        reveal_strlit("rw");
        reveal_strlit("ro");
        assert("rw"@.len() == 2);
        assert("ro"@.len() == 2);
        assert("rw"@[1] != "ro"@[1]);
    }

    fn iv_from_str(s: &str) -> (r: Result<VolumePermissions, InvalidValueError>) {
        VolumePermissions::from_str(s)
    }

    fn fmt_iv(&self) -> (r: String) {
        self.to_string()
    }

    fn is_valid(&self) -> (r: bool) {
        true
    }
}

} // verus!
