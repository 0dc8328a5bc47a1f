//! What generated service code builds on: the conversion of a method's result
//! into the `Result<T, String>` that travels on the wire.

use vstd::prelude::*;

verus! {

/// Helper trait to normalize method return types for wire serialization.
/// Converts a method's `Result<T, E>` to `Result<T, String>`; a method that
/// returns a plain `T` has no impl, since one for every `T` would overlap the
/// one for `Result`.
pub trait IntoWireResult<T>: Sized {
    /// Whether `wire` is this value in wire form.
    spec fn wire_form_of(&self, wire: Result<T, String>) -> bool;

    /// Convert into the form that travels on the wire.
    fn into_wire_result(self) -> (r: Result<T, String>)
        ensures
            self.wire_form_of(r),
    ;
}

impl<T, E: std::fmt::Display> IntoWireResult<T> for Result<T, E> {
    /// An `Ok` keeps its value; an `Err` becomes the error's `Display` text.
    open spec fn wire_form_of(&self, wire: Result<T, String>) -> bool {
        match self {
            Ok(v) => wire == Ok::<T, String>(*v),
            Err(e) => wire matches Err(text) && vstd::string::to_string_from_display_ensures::<E>(e, text),
        }
    }

    fn into_wire_result(self) -> (r: Result<T, String>)
        ensures
            self matches Ok(v) ==> r == Ok::<T, String>(v),
            self matches Err(e) ==> (r matches Err(text)
                && vstd::string::to_string_from_display_ensures::<E>(&e, text)),
    {
        match self {
            Ok(v) => Ok(v),
            Err(e) => Err(e.to_string()),
        }
    }
}

/// The wire form of a result keeps an `Ok` value as it is and turns an
/// `Err` into the error's whole `Display` text: what `to_string` gives for
/// that error, not a part or a rewrite of it.
pub proof fn lemma_wire_form_keeps_value_and_error_text<T, E: std::fmt::Display>(
    result: Result<T, E>,
    wire: Result<T, String>,
)
    requires
        result.wire_form_of(wire),
    ensures
        result matches Ok(v) ==> wire == Ok::<T, String>(v),
        result matches Err(e) ==> (wire matches Err(text)
            && vstd::string::to_string_from_display_ensures::<E>(&e, text)),
        result is Ok <==> wire is Ok,
{
}

/// A connection driver for `Client`; it has no methods.
pub trait ClientDriver {

}

/// A worker that manages virtual machines on a macOS host.
pub struct VmManagerMacosWorker {}

} // verus!
