//! The line parser: one raw record is three tab-separated fields, the first
//! a JSON array holding exactly one path.

use vstd::prelude::*;
use crate::errors::MalformedKind;
use crate::norm::{NormPath, normalize_path, path_ok, os_key_of, dll_key_of, bare_dll_of};
use crate::text::{SepKind, split_by, split_chars, str_to_chars, chars_to_string, trim_crlf,
    trim_line_ending, parse_u64_spec, parse_u64_chars};

verus! {

/// What `serde_json::from_str::<Vec<String>>` returns: the list of strings
/// denoted by a JSON array, or nothing when the text is not such an array; a
/// function of the characters alone.
pub uninterp spec fn json_string_list_of(s: Seq<char>) -> Option<Seq<Seq<char>>>;

/// Relies on `serde_json::from_str::<Vec<String>>`: deserializes a JSON
/// array of strings, depending on the input characters alone.
#[verifier::external_body]
fn parse_json_string_list(s: &str) -> (r: Option<Vec<String>>)
    ensures
        r.deep_view() == json_string_list_of(s@),
{
    serde_json::from_str::<Vec<String>>(s).ok()
}

/// A record as the parser hands it on: the three keys of its normalized
/// path, the observed ordinal, and the symbol name, both optional.
#[derive(Debug)]
pub struct ParsedRecord {
    /// The normalized path keys of the DLL the symbol ships in.
    pub path: NormPath,
    /// The ordinal as observed on this line, independent of symbol identity.
    pub ordinal: Option<u64>,
    /// The raw symbol name, exactly as encountered, never normalized.
    pub name: Option<String>,
}

/// The identity a record gives its symbol: the raw name when one is present
/// (the name takes priority over an ordinal), else the pair of bare DLL
/// filename and ordinal.
pub enum SymKeySpec {
    Named(Seq<char>),
    Ordinal(Seq<char>, u64),
}

/// What one line of input means.
pub enum LineSpec {
    /// An empty line, skipped silently.
    Blank,
    /// A malformed record, fatal for the whole run.
    Bad(MalformedKind),
    /// A well-formed record.
    Rec {
        os_key: Seq<char>,
        dll_key: Seq<char>,
        bare_dll: Seq<char>,
        ordinal: Option<u64>,
        name: Option<Seq<char>>,
    },
}

impl LineSpec {
    /// The symbol identity of a well-formed record.
    pub open spec fn sym_key(self) -> SymKeySpec
        recommends
            self is Rec,
    {
        match self {
            LineSpec::Rec { bare_dll, ordinal, name, .. } => {
                if name is Some {
                    SymKeySpec::Named(name->Some_0)
                } else {
                    SymKeySpec::Ordinal(bare_dll, ordinal->Some_0)
                }
            },
            _ => SymKeySpec::Named(Seq::empty()),
        }
    }
}

/// The meaning of one raw input line, after stripping trailing line-ending
/// characters: blank, malformed in a particular way, or a record.
pub open spec fn classify_line(line: Seq<char>) -> LineSpec {
    let t = trim_crlf(line);
    if t.len() == 0 {
        LineSpec::Blank
    } else {
        let fields = split_by(SepKind::Tab, t);
        if fields.len() != 3 {
            LineSpec::Bad(MalformedKind::FieldCount)
        } else {
            match json_string_list_of(fields[0]) {
                None => LineSpec::Bad(MalformedKind::BadJson),
                Some(paths) => {
                    if paths.len() != 1 {
                        LineSpec::Bad(MalformedKind::PathArity)
                    } else if fields[1].len() > 0 && parse_u64_spec(fields[1]) is None {
                        LineSpec::Bad(MalformedKind::BadOrdinal)
                    } else {
                        let ordinal = if fields[1].len() > 0 {
                            parse_u64_spec(fields[1])
                        } else {
                            None
                        };
                        let name = if fields[2].len() > 0 {
                            Some(fields[2])
                        } else {
                            None
                        };
                        let p = paths[0];
                        if !path_ok(p) {
                            LineSpec::Bad(MalformedKind::ShortPath)
                        } else if name is None && ordinal is None {
                            LineSpec::Bad(MalformedKind::NoIdentity)
                        } else {
                            LineSpec::Rec {
                                os_key: os_key_of(p),
                                dll_key: dll_key_of(p),
                                bare_dll: bare_dll_of(p),
                                ordinal,
                                name,
                            }
                        }
                    }
                },
            }
        }
    }
}

/// Whether a parsed record agrees with a line's classification.
pub open spec fn record_matches(rec: ParsedRecord, l: LineSpec) -> bool {
    &&& l matches LineSpec::Rec { os_key, dll_key, bare_dll, ordinal, name }
    &&& rec.path.os_key@ == os_key
    &&& rec.path.dll_key@ == dll_key
    &&& rec.path.bare_dll@ == bare_dll
    &&& rec.ordinal == ordinal
    &&& rec.name.deep_view() == name
}

/// Parses one raw line.  Blank lines yield nothing; a malformed record
/// yields exactly the defect `classify_line` assigns it; a well-formed
/// record yields its normalized keys, name and ordinal.
pub fn parse_line(line: &str) -> (r: Result<Option<ParsedRecord>, MalformedKind>)
    ensures
        r matches Ok(None) ==> classify_line(line@) is Blank,
        r matches Err(k) ==> classify_line(line@) == LineSpec::Bad(k),
        r matches Ok(Some(rec)) ==> record_matches(rec, classify_line(line@)),
{
    let mut chars = str_to_chars(line);
    trim_line_ending(&mut chars);
    if chars.len() == 0 {
        return Ok(None);
    }
    let fields = split_chars(SepKind::Tab, chars.as_slice());
    proof {
        assert(fields.deep_view().len() == fields@.len());
    }
    if fields.len() != 3 {
        return Err(MalformedKind::FieldCount);
    }
    proof {
        assert(fields@[0]@ =~= fields.deep_view()[0]);
        assert(fields@[1]@ =~= fields.deep_view()[1]);
        assert(fields@[2]@ =~= fields.deep_view()[2]);
    }
    let f0 = chars_to_string(fields[0].as_slice());
    proof {
        assert(f0@ == split_by(SepKind::Tab, trim_crlf(line@))[0]);
    }
    let paths = match parse_json_string_list(f0.as_str()) {
        Some(p) => p,
        None => {
            return Err(MalformedKind::BadJson);
        },
    };
    proof {
        assert(paths.deep_view().len() == paths@.len());
    }
    if paths.len() != 1 {
        return Err(MalformedKind::PathArity);
    }
    let ordinal: Option<u64> = if fields[1].len() > 0 {
        match parse_u64_chars(fields[1].as_slice()) {
            Some(o) => Some(o),
            None => {
                return Err(MalformedKind::BadOrdinal);
            },
        }
    } else {
        None
    };
    let name: Option<String> = if fields[2].len() > 0 {
        Some(chars_to_string(fields[2].as_slice()))
    } else {
        None
    };
    proof {
        assert(paths@[0]@ =~= paths.deep_view()[0]);
    }
    let path = match normalize_path(paths[0].as_str()) {
        Some(np) => np,
        None => {
            return Err(MalformedKind::ShortPath);
        },
    };
    if name.is_none() && ordinal.is_none() {
        return Err(MalformedKind::NoIdentity);
    }
    Ok(Some(ParsedRecord { path, ordinal, name }))
}

/// A record with a non-empty name field is treated as a named symbol even
/// when it also carries an ordinal: the name takes priority.  A record with
/// neither a name nor an ordinal is fatal.
pub proof fn lemma_name_takes_priority(line: Seq<char>)
    ensures
        classify_line(line) is Rec && classify_line(line)->Rec_name is Some ==> classify_line(
            line,
        ).sym_key() == SymKeySpec::Named(classify_line(line)->Rec_name->Some_0),
        classify_line(line) is Rec && classify_line(line)->Rec_name is None ==> classify_line(
            line,
        )->Rec_ordinal is Some && classify_line(line).sym_key() == SymKeySpec::Ordinal(
            classify_line(line)->Rec_bare_dll,
            classify_line(line)->Rec_ordinal->Some_0,
        ),
{
}

} // verus!
