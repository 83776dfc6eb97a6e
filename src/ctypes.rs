//! Layout-transparent wrappers of the C scalar types, for use as fields
//! of mirrored types.

use vstd::prelude::*;
use vstd::std_specs::convert::FromSpecImpl;
use vstd::string::StringSliceAdditionalSpecFns;

verus! {

/// C's `char`.
#[allow(non_camel_case_types)]
#[derive(Copy, Clone, Default, Debug, PartialEq, Eq, PartialOrd, Ord, Hash, Structural)]
pub struct c_char {
    pub value: core::ffi::c_char,
}

impl From<core::ffi::c_char> for c_char {
    fn from(value: core::ffi::c_char) -> (r: c_char) {
        c_char { value }
    }
}

impl FromSpecImpl<core::ffi::c_char> for c_char {
    open spec fn obeys_from_spec() -> bool {
        true
    }

    open spec fn from_spec(v: core::ffi::c_char) -> c_char {
        c_char { value: v }
    }
}

impl From<c_char> for core::ffi::c_char {
    fn from(wrapper: c_char) -> (r: core::ffi::c_char) {
        wrapper.value
    }
}

impl FromSpecImpl<c_char> for core::ffi::c_char {
    open spec fn obeys_from_spec() -> bool {
        true
    }

    open spec fn from_spec(v: c_char) -> core::ffi::c_char {
        v.value
    }
}

impl From<char> for c_char {
    fn from(value: char) -> (r: c_char) {
        c_char { value: value as core::ffi::c_char }
    }
}

impl FromSpecImpl<char> for c_char {
    open spec fn obeys_from_spec() -> bool {
        true
    }

    open spec fn from_spec(v: char) -> c_char {
        c_char { value: v as core::ffi::c_char }
    }
}

impl From<c_char> for char {
    fn from(wrapper: c_char) -> (r: char) {
        wrapper.value as u8 as char
    }
}

impl FromSpecImpl<c_char> for char {
    open spec fn obeys_from_spec() -> bool {
        true
    }

    open spec fn from_spec(v: c_char) -> char {
        v.value as u8 as char
    }
}

impl c_char {
    /// The C characters of a byte string, one per byte.
    pub fn from_bytes(bytes: &[u8]) -> (r: Vec<c_char>)
        ensures
            r@.len() == bytes@.len(),
            forall|i: int| 0 <= i < bytes@.len() ==> #[trigger] r@[i].value == bytes@[i] as core::ffi::c_char,
    {
        let mut r: Vec<c_char> = Vec::new();
        let mut i: usize = 0;
        while i < bytes.len()
            invariant
                i <= bytes@.len(),
                r@.len() == i,
                forall|j: int| 0 <= j < i ==> #[trigger] r@[j].value == bytes@[j] as core::ffi::c_char,
            decreases bytes.len() - i,
        {
            r.push(c_char { value: bytes[i] as core::ffi::c_char });
            i += 1;
        }
        r
    }

    /// The bytes of a string of C characters, one per character.
    pub fn into_bytes(slice: &[c_char]) -> (r: Vec<u8>)
        ensures
            r@.len() == slice@.len(),
            forall|i: int| 0 <= i < slice@.len() ==> #[trigger] r@[i] == slice@[i].value as u8,
    {
        let mut r: Vec<u8> = Vec::new();
        let mut i: usize = 0;
        while i < slice.len()
            invariant
                i <= slice@.len(),
                r@.len() == i,
                forall|j: int| 0 <= j < i ==> #[trigger] r@[j] == slice@[j].value as u8,
            decreases slice.len() - i,
        {
            r.push(slice[i].value as u8);
            i += 1;
        }
        r
    }

    /// The C characters of the UTF-8 encoding of `str`, one per byte.
    pub fn from_str(str: &str) -> (r: Vec<c_char>)
        ensures
            r@.len() == str.spec_bytes().len(),
            forall|i: int| 0 <= i < str.spec_bytes().len() ==> #[trigger] r@[i].value == str.spec_bytes()[i] as core::ffi::c_char,
    {
        Self::from_bytes(str.as_bytes())
    }
}

/// C's `int`.
#[allow(non_camel_case_types)]
#[derive(Copy, Clone, Default, Debug, PartialEq, Eq, PartialOrd, Ord, Hash, Structural)]
pub struct c_int {
    pub(crate) value: core::ffi::c_int,
}

/// C's `long`.
#[allow(non_camel_case_types)]
#[derive(Copy, Clone, Default, Debug, PartialEq, Eq, PartialOrd, Ord, Hash, Structural)]
pub struct c_long {
    pub(crate) value: core::ffi::c_long,
}

/// C's `long long`.
#[allow(non_camel_case_types)]
#[derive(Copy, Clone, Default, Debug, PartialEq, Eq, PartialOrd, Ord, Hash, Structural)]
pub struct c_longlong {
    pub(crate) value: core::ffi::c_longlong,
}

/// C's `signed char`.
#[allow(non_camel_case_types)]
#[derive(Copy, Clone, Default, Debug, PartialEq, Eq, PartialOrd, Ord, Hash, Structural)]
pub struct c_schar(pub core::ffi::c_schar);

impl From<c_schar> for core::ffi::c_schar {
    fn from(value: c_schar) -> (r: core::ffi::c_schar) {
        value.0
    }
}

impl FromSpecImpl<c_schar> for core::ffi::c_schar {
    open spec fn obeys_from_spec() -> bool {
        true
    }

    open spec fn from_spec(v: c_schar) -> core::ffi::c_schar {
        v.0
    }
}

impl From<core::ffi::c_schar> for c_schar {
    fn from(value: core::ffi::c_schar) -> (r: c_schar) {
        c_schar(value)
    }
}

impl FromSpecImpl<core::ffi::c_schar> for c_schar {
    open spec fn obeys_from_spec() -> bool {
        true
    }

    open spec fn from_spec(v: core::ffi::c_schar) -> c_schar {
        c_schar(v)
    }
}

/// C's `short`.
#[allow(non_camel_case_types)]
#[derive(Copy, Clone, Default, Debug, PartialEq, Eq, PartialOrd, Ord, Hash, Structural)]
pub struct c_short {
    pub(crate) value: core::ffi::c_short,
}

/// C's `unsigned char`.
#[allow(non_camel_case_types)]
#[derive(Copy, Clone, Default, Debug, PartialEq, Eq, PartialOrd, Ord, Hash, Structural)]
pub struct c_uchar {
    pub(crate) value: core::ffi::c_uchar,
}

/// C's `unsigned int`.
#[allow(non_camel_case_types)]
#[derive(Copy, Clone, Default, Debug, PartialEq, Eq, PartialOrd, Ord, Hash, Structural)]
pub struct c_uint {
    pub(crate) value: core::ffi::c_uint,
}

/// C's `unsigned long`.
#[allow(non_camel_case_types)]
#[derive(Copy, Clone, Default, Debug, PartialEq, Eq, PartialOrd, Ord, Hash, Structural)]
pub struct c_ulong {
    pub(crate) value: core::ffi::c_ulong,
}

/// C's `unsigned long long`.
#[allow(non_camel_case_types)]
#[derive(Copy, Clone, Default, Debug, PartialEq, Eq, PartialOrd, Ord, Hash, Structural)]
pub struct c_ulonglong {
    pub(crate) value: core::ffi::c_ulonglong,
}

/// C's `unsigned short`.
#[allow(non_camel_case_types)]
#[derive(Copy, Clone, Default, Debug, PartialEq, Eq, PartialOrd, Ord, Hash, Structural)]
pub struct c_ushort {
    pub(crate) value: core::ffi::c_ushort,
}

/// Declares `core::ffi::c_void` to the verifier as an opaque type: it is
/// only carried, never looked into.
#[verifier::external_type_specification]
#[verifier::external_body]
pub struct ExCVoid(core::ffi::c_void);

/// C's `void`, to stand behind pointers only.
#[allow(non_camel_case_types)]
pub struct c_void(pub core::ffi::c_void);

impl From<core::ffi::c_void> for c_void {
    fn from(value: core::ffi::c_void) -> (r: c_void) {
        c_void(value)
    }
}

impl FromSpecImpl<core::ffi::c_void> for c_void {
    open spec fn obeys_from_spec() -> bool {
        true
    }

    open spec fn from_spec(v: core::ffi::c_void) -> c_void {
        c_void(v)
    }
}

impl From<c_void> for core::ffi::c_void {
    fn from(value: c_void) -> (r: core::ffi::c_void) {
        value.0
    }
}

impl FromSpecImpl<c_void> for core::ffi::c_void {
    open spec fn obeys_from_spec() -> bool {
        true
    }

    open spec fn from_spec(v: c_void) -> core::ffi::c_void {
        v.0
    }
}

/// C's `off_t`.
#[allow(non_camel_case_types)]
#[derive(Copy, Clone, Default, Debug, PartialEq, Eq, PartialOrd, Ord, Hash, Structural)]
pub struct c_off_t {
    pub(crate) value: libc::off_t,
}

/// C's `time_t`.
#[allow(non_camel_case_types)]
#[derive(Copy, Clone, Default, Debug, PartialEq, Eq, PartialOrd, Ord, Hash, Structural)]
pub struct c_time_t {
    pub(crate) value: libc::time_t,
}

} // verus!
