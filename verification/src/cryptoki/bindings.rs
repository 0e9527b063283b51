//! Plain-value counterparts of the Cryptoki C types: status codes, mechanism
//! and attribute identifiers, and the records that entry points exchange.
use vstd::prelude::*;

verus! {

/// Status code returned by every entry point.
pub type CK_RV = u64;

/// Handle of a session.
pub type CK_SESSION_HANDLE = u64;

/// Handle of an object.
pub type CK_OBJECT_HANDLE = u64;

/// An unsigned count or length as it crosses the boundary.
pub type CK_ULONG = u64;

/// The address that an untyped pointer holds.
pub type CK_VOID_PTR = usize;

/// The address of the null pointer.
pub const NULL_PTR: CK_VOID_PTR = 0;

/// Bit flags.
pub type CK_FLAGS = u64;

/// Identifier of a slot, and of the token in it.
pub type CK_SLOT_ID = u64;

/// Identifier of a mechanism.
pub type CK_MECHANISM_TYPE = u64;

/// Identifier of an attribute kind.
pub type CK_ATTRIBUTE_TYPE = u64;

pub const CKR_OK: CK_RV = 0x0000_0000;

pub const CKR_HOST_MEMORY: CK_RV = 0x0000_0002;

pub const CKR_GENERAL_ERROR: CK_RV = 0x0000_0005;

pub const CKR_ARGUMENTS_BAD: CK_RV = 0x0000_0007;

pub const CKR_FUNCTION_NOT_SUPPORTED: CK_RV = 0x0000_0054;

pub const CKR_KEY_SIZE_RANGE: CK_RV = 0x0000_0062;

pub const CKR_OBJECT_HANDLE_INVALID: CK_RV = 0x0000_0082;

pub const CKR_SESSION_HANDLE_INVALID: CK_RV = 0x0000_00B3;

pub const CKR_SESSION_EXISTS: CK_RV = 0x0000_00B6;

pub const CKR_WRAPPED_KEY_INVALID: CK_RV = 0x0000_0110;

pub const CKR_CRYPTOKI_NOT_INITIALIZED: CK_RV = 0x0000_0190;

pub const CKR_CRYPTOKI_ALREADY_INITIALIZED: CK_RV = 0x0000_0191;

/// The one key-generation mechanism the token offers.
pub const CKM_AES_KEY_GEN: CK_MECHANISM_TYPE = 0x0000_1080;

/// AES in CBC mode with PKCS padding, the wrapping mechanism.
pub const CKM_AES_CBC_PAD: CK_MECHANISM_TYPE = 0x0000_1085;

/// The handle that never names a live session or object.
pub const CK_INVALID_HANDLE: u64 = 0;

/// A mechanism as a caller names it: its identifier and its parameter bytes.
pub struct CK_MECHANISM {
    pub mechanism: CK_MECHANISM_TYPE,
    pub parameter: Vec<u8>,
}

/// One attribute record of a caller's template: the kind and the value bytes,
/// copied out of the caller's memory.
pub struct CK_ATTRIBUTE {
    pub kind: CK_ATTRIBUTE_TYPE,
    pub value: Vec<u8>,
}

impl View for CK_ATTRIBUTE {
    type V = (CK_ATTRIBUTE_TYPE, Seq<u8>);

    /// The kind, and the value as a sequence of bytes.
    open spec fn view(&self) -> (CK_ATTRIBUTE_TYPE, Seq<u8>) {
        (self.kind, self.value@)
    }
}

/// A version number, major and minor.
#[derive(Clone, Copy, Debug, PartialEq, Eq, Structural)]
pub struct CK_VERSION {
    pub major: u8,
    pub minor: u8,
}

/// General information about the library.
pub struct CK_INFO {
    pub cryptokiVersion: CK_VERSION,
    pub manufacturerID: [u8; 32],
    pub flags: u64,
    pub libraryDescription: [u8; 32],
    pub libraryVersion: CK_VERSION,
}

/// The head of the table of entry points that the library hands to its
/// callers: the version of the interface that the entries follow.
pub struct CK_FUNCTION_LIST {
    pub version: CK_VERSION,
}

} // verus!
