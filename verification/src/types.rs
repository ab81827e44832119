//! Simple types.
//!
//! This module defines simple HBM-specific types.

use vstd::prelude::*;

use crate::formats;

verus! {

/// The error type for HBM operations.
#[derive(Clone, Copy, Debug)]
pub enum Error {
    /// A generic error with a descriptive message to provide the context.
    Context(&'static str),
    /// A validation error indicating a bad user input.
    User,
    /// Indicates an unsupported operation.
    Unsupported,
    /// A runtime device error that may or may not be persistent.
    Device,
    /// A generic OS error, as a raw errno value.
    Io(i32),
    /// A backend-specific opaque error code.
    Code(i32),
    /// A validation error indicating a bad integer.
    IntegerConversion,
    /// A validation error indicating a bad string.
    StringConversion,
}

impl Error {
    pub(crate) fn ctx<T>(s: &'static str) -> (r: Result<T, Error>)
        ensures
            r matches Err(e) && e matches Error::Context(m) && m == s,
    {
        Err(Error::Context(s))
    }

    pub(crate) fn user<T>() -> (r: Result<T, Error>)
        ensures
            r matches Err(e) && e is User,
    {
        Err(Error::User)
    }

    pub(crate) fn unsupported<T>() -> (r: Result<T, Error>)
        ensures
            r matches Err(e) && e is Unsupported,
    {
        Err(Error::Unsupported)
    }

    pub(crate) fn device<T>() -> (r: Result<T, Error>)
        ensures
            r matches Err(e) && e is Device,
    {
        Err(Error::Device)
    }
}

/// The type for the BO size.
pub type Size = u64;

/// A 32-bit DRM format.
#[derive(Clone, Copy, Debug, Eq, Hash, PartialEq, Structural)]
pub struct Format(pub u32);

impl Format {
    /// Returns whether this is the invalid format, which denotes a buffer rather than an image.
    pub fn is_invalid(&self) -> (r: bool)
        ensures
            r == (self.0 == formats::DRM_FORMAT_INVALID),
    {
        self.0 == formats::DRM_FORMAT_INVALID
    }
}

impl Default for Format {
    fn default() -> (r: Self)
        ensures
            r.0 == formats::DRM_FORMAT_INVALID,
    {
        Format(formats::DRM_FORMAT_INVALID)
    }
}

/// A 64-bit DRM format modifier.
#[derive(Clone, Copy, Debug, Eq, Hash, PartialEq, Structural)]
pub struct Modifier(pub u64);

impl Modifier {
    /// Returns whether this is the invalid modifier, which denotes an implicit layout.
    pub fn is_invalid(&self) -> (r: bool)
        ensures
            r == (self.0 == formats::DRM_FORMAT_MOD_INVALID),
    {
        self.0 == formats::DRM_FORMAT_MOD_INVALID
    }

    /// Returns whether this is the linear modifier.
    pub fn is_linear(&self) -> (r: bool)
        ensures
            r == (self.0 == formats::DRM_FORMAT_MOD_LINEAR),
    {
        self.0 == formats::DRM_FORMAT_MOD_LINEAR
    }
}

impl Default for Modifier {
    fn default() -> (r: Self)
        ensures
            r.0 == formats::DRM_FORMAT_MOD_INVALID,
    {
        Modifier(formats::DRM_FORMAT_MOD_INVALID)
    }
}

/// A file descriptor, carried as a plain number.
///
/// The library never performs I/O on a descriptor; ownership and lifetime are the embedder's
/// responsibility.
#[derive(Clone, Copy, Debug, Eq, Hash, PartialEq, Structural)]
pub struct Fd(pub i32);

/// A memory mapping, as a base address and a length in bytes.
///
/// The embedder establishes the mapping and interprets the address; the library only records it.
#[derive(Clone, Copy, Debug, Eq, PartialEq, Structural)]
pub struct Mapping {
    /// Base address of the mapping.
    pub addr: usize,
    /// Size of the mapping in bytes.
    pub len: usize,
}

} // verus!
