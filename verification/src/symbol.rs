//! A symbol as presentation code reads it back from the store: either named,
//! or identified by bare DLL filename and ordinal.

use vstd::prelude::*;
use vstd::string::StringExecFns;
use crate::text::{push_char, u64_to_string, u64_dec};

verus! {

/// A symbol, polymorphic over its two mutually exclusive variants.
pub enum SymbolPart {
    /// A symbol keyed by its raw name.
    Named { raw_name: String, friendly_name: Option<String> },
    /// A symbol keyed by bare DLL filename and ordinal.
    DllOrdinal { dll_name: String, ordinal: u64, friendly_name: Option<String> },
}

/// The friendly name stored on either variant.
pub open spec fn spec_friendly(s: SymbolPart) -> Option<Seq<char>> {
    match s {
        SymbolPart::Named { friendly_name, .. } => friendly_name.deep_view(),
        SymbolPart::DllOrdinal { friendly_name, .. } => friendly_name.deep_view(),
    }
}

/// The name shown for a symbol: its friendly name when it has one, else the
/// raw name, else `dll_name#ordinal`.
pub open spec fn spec_friendly_or_generate(s: SymbolPart) -> Seq<char> {
    match s {
        SymbolPart::Named { raw_name, friendly_name } => {
            if friendly_name is Some {
                friendly_name->Some_0@
            } else {
                raw_name@
            }
        },
        SymbolPart::DllOrdinal { dll_name, ordinal, friendly_name } => {
            if friendly_name is Some {
                friendly_name->Some_0@
            } else {
                dll_name@ + seq!['#'] + u64_dec(ordinal as int)
            }
        },
    }
}

impl SymbolPart {
    /// The stored friendly name, if any.
    pub fn friendly_name(&self) -> (r: Option<&str>)
        ensures
            r.deep_view() == spec_friendly(*self),
    {
        match self {
            Self::Named { friendly_name, .. } => {
                match friendly_name {
                    Some(f) => Some(f.as_str()),
                    None => None,
                }
            },
            Self::DllOrdinal { friendly_name, .. } => {
                match friendly_name {
                    Some(f) => Some(f.as_str()),
                    None => None,
                }
            },
        }
    }

    /// The name to show: the friendly name when stored, else the raw name
    /// for a named symbol, else `dll_name#ordinal`.
    pub fn friendly_name_or_generate(&self) -> (r: String)
        ensures
            r@ == spec_friendly_or_generate(*self),
    {
        match self {
            Self::Named { friendly_name: Some(f), .. } => f.clone(),
            Self::Named { friendly_name: None, raw_name } => raw_name.clone(),
            Self::DllOrdinal { friendly_name: Some(f), .. } => f.clone(),
            Self::DllOrdinal { friendly_name: None, dll_name, ordinal } => {
                let mut s = dll_name.clone();
                push_char(&mut s, '#');
                let o = u64_to_string(*ordinal);
                s.append(o.as_str());
                proof {
                    assert(s@ =~= dll_name@ + seq!['#'] + u64_dec(*ordinal as int));
                }
                s
            },
        }
    }

    /// The raw name of a named symbol.
    pub fn raw_name(&self) -> (r: Option<&str>)
        ensures
            self matches SymbolPart::Named { raw_name, .. } ==> r matches Some(n) && n@
                == raw_name@,
            self is DllOrdinal ==> r is None,
    {
        match self {
            Self::Named { raw_name, .. } => Some(raw_name.as_str()),
            Self::DllOrdinal { .. } => None,
        }
    }

    /// The bare DLL filename and ordinal of an ordinal-only symbol.
    pub fn dll_pair(&self) -> (r: Option<(&str, u64)>)
        ensures
            self is Named ==> r is None,
            self matches SymbolPart::DllOrdinal { dll_name, ordinal, .. } ==> r matches Some(p)
                && p.0@ == dll_name@ && p.1 == ordinal,
    {
        match self {
            Self::Named { .. } => None,
            Self::DllOrdinal { dll_name, ordinal, .. } => Some((dll_name.as_str(), *ordinal)),
        }
    }
}

} // verus!
