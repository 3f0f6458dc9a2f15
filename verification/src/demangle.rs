//! The demangling collaborator: a pure `raw name -> friendly name` function,
//! injected into the loader as a strategy so that a build without the
//! capability can pass a no-op.

use vstd::prelude::*;

verus! {

/// What demangling returns for a raw symbol name: the friendly C++ name, or
/// nothing when the name does not demangle; a function of the name alone.
pub uninterp spec fn demangled_of(s: Seq<char>) -> Option<Seq<char>>;

/// Demangles a Microsoft C++ symbol name.
///
/// Relies on `msvc_demangler::demangle` with the LLVM flag set: a pure
/// parser of the name, whose outcome depends on the name alone.
#[verifier::external_body]
pub fn demangle_cpp_name(input: &str) -> (r: Result<String, String>)
    ensures
        r matches Ok(f) ==> demangled_of(input@) == Some(f@),
        r is Err ==> demangled_of(input@) is None,
{
    msvc_demangler::demangle(input, msvc_demangler::DemangleFlags::llvm()).map_err(|e| e.to_string(
    ))
}

/// Attempts to demangle a symbol name, yielding nothing when it is not a
/// mangled name — a valid, expected outcome.
pub fn try_demangle(symbol: &str) -> (r: Option<String>)
    ensures
        r.deep_view() == demangled_of(symbol@),
{
    match demangle_cpp_name(symbol) {
        Ok(f) => Some(f),
        Err(_) => None,
    }
}

/// A strategy for turning a raw symbol name into a friendly name.  The
/// loader invokes it once, when a named symbol is first created, and never
/// again for an existing row.
pub trait Demangler {
    /// What this strategy answers for a given raw name.
    spec fn spec_demangle(&self, raw: Seq<char>) -> Option<Seq<char>>;

    /// Attempts to demangle `raw`.
    fn demangle(&self, raw: &str) -> (r: Option<String>)
        ensures
            r.deep_view() == self.spec_demangle(raw@),
    ;
}

/// The strategy's answer, as a function value, for stating what a whole run
/// stores.
pub open spec fn demangler_fn<D: Demangler>(d: &D) -> spec_fn(Seq<char>) -> Option<Seq<char>> {
    |n: Seq<char>| d.spec_demangle(n)
}

/// The Microsoft C++ demangling capability.
pub struct MsvcDemangler;

impl Demangler for MsvcDemangler {
    open spec fn spec_demangle(&self, raw: Seq<char>) -> Option<Seq<char>> {
        demangled_of(raw)
    }

    fn demangle(&self, raw: &str) -> (r: Option<String>) {
        try_demangle(raw)
    }
}

/// The no-op strategy for builds without the demangling capability: every
/// name is left without a friendly name.
pub struct NoDemangler;

impl Demangler for NoDemangler {
    open spec fn spec_demangle(&self, raw: Seq<char>) -> Option<Seq<char>> {
        None
    }

    fn demangle(&self, raw: &str) -> (r: Option<String>) {
        None
    }
}

} // verus!
