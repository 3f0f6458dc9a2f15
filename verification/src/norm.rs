//! Path normalization: lower-casing, separator unification, and the split
//! into operating-system key, DLL path and bare DLL filename.

use vstd::prelude::*;
use crate::text::{SepKind, split_by, join_bs, split_chars, str_to_chars, chars_to_string, join_from,
    is_sep, first_sep};

verus! {

/// What `str::to_lowercase` returns: the Unicode lowercase equivalent of a
/// string, a function of its characters alone.
pub uninterp spec fn lower_of(s: Seq<char>) -> Seq<char>;

/// Relies on `str::to_lowercase`: returns the lowercase equivalent of the
/// string, as defined by Unicode; the result depends on the characters alone.
#[verifier::external_body]
fn lowercase(s: &str) -> (r: String)
    ensures
        r@ == lower_of(s@),
        s@.len() == 0 ==> r@.len() == 0,
{
    s.to_lowercase()
}

/// The segments of a lowered path, cut at both separator styles.  Cutting on
/// either slash directly is the same as first replacing forward slashes with
/// backslashes and then cutting on backslashes alone.
pub open spec fn norm_pieces_of_lowered(s: Seq<char>) -> Seq<Seq<char>> {
    split_by(SepKind::PathSep, s)
}

/// The segments of a path after case normalization.
pub open spec fn norm_pieces(p: Seq<char>) -> Seq<Seq<char>> {
    norm_pieces_of_lowered(lower_of(p))
}

/// A path is usable when it has at least two segments: one for the operating
/// system, at least one for the DLL.
pub open spec fn path_ok(p: Seq<char>) -> bool {
    norm_pieces(p).len() >= 2
}

/// The operating-system key: the first normalized segment.
pub open spec fn os_key_of(p: Seq<char>) -> Seq<char> {
    norm_pieces(p)[0]
}

/// The DLL path key: all segments after the first, joined with backslashes.
pub open spec fn dll_key_of(p: Seq<char>) -> Seq<char> {
    join_bs(norm_pieces(p).skip(1))
}

/// The bare DLL filename: the last normalized segment alone.  It scopes
/// ordinal-only symbols, deliberately more narrowly than the DLL path.
pub open spec fn bare_dll_of(p: Seq<char>) -> Seq<char> {
    norm_pieces(p).last()
}

/// A normalized path: the three keys the loader resolves entities by.
#[derive(Debug)]
pub struct NormPath {
    /// First segment, lower-cased: the operating-system natural key.
    pub os_key: String,
    /// Remaining segments joined with backslashes: the DLL natural key.
    pub dll_key: String,
    /// Last segment alone: the scope of ordinal-only symbols.
    pub bare_dll: String,
}

/// The three keys of an already lower-cased path, or nothing when it has
/// fewer than two segments.
pub open spec fn norm_of_lowered(s: Seq<char>) -> Option<(Seq<char>, Seq<char>, Seq<char>)> {
    let pieces = norm_pieces_of_lowered(s);
    if pieces.len() >= 2 {
        Some((pieces[0], join_bs(pieces.skip(1)), pieces.last()))
    } else {
        None
    }
}

/// Splits an already lower-cased path into its three keys.
pub fn split_lowered(s: &str) -> (r: Option<NormPath>)
    ensures
        r matches Some(np) ==> norm_of_lowered(s@) == Some((np.os_key@, np.dll_key@, np.bare_dll@)),
        r is None ==> norm_of_lowered(s@) is None,
{
    let chars = str_to_chars(s);
    let pieces = split_chars(SepKind::PathSep, chars.as_slice());
    proof {
        assert(pieces.deep_view().len() == pieces@.len());
    }
    if pieces.len() < 2 {
        return None;
    }
    let os_key = chars_to_string(pieces[0].as_slice());
    let dll_chars = join_from(&pieces, 1);
    let dll_key = chars_to_string(dll_chars.as_slice());
    let bare_dll = chars_to_string(pieces[pieces.len() - 1].as_slice());
    proof {
        let ps = norm_pieces_of_lowered(s@);
        assert(os_key@ == ps[0]);
        assert(dll_key@ == join_bs(ps.skip(1)));
        assert(bare_dll@ == ps.last());
    }
    Some(NormPath { os_key, dll_key, bare_dll })
}

/// Lower-cases a path and splits it into its three keys; nothing when the
/// path has fewer than two segments.
pub fn normalize_path(p: &str) -> (r: Option<NormPath>)
    ensures
        r matches Some(np) ==> path_ok(p@) && np.os_key@ == os_key_of(p@) && np.dll_key@
            == dll_key_of(p@) && np.bare_dll@ == bare_dll_of(p@),
        r is None ==> !path_ok(p@),
{
    let low = lowercase(p);
    split_lowered(low.as_str())
}

/// Forward slashes rewritten to backslashes; all other characters kept.
pub open spec fn swap_sep(s: Seq<char>) -> Seq<char> {
    s.map_values(|c: char| if c == '/' {
        '\\'
    } else {
        c
    })
}

proof fn lemma_first_sep_swap(s: Seq<char>)
    ensures
        first_sep(SepKind::PathSep, swap_sep(s)) == first_sep(SepKind::PathSep, s),
    decreases s.len(),
{
    let k = SepKind::PathSep;
    if s.len() > 0 {
        assert(swap_sep(s)[0] == (if s[0] == '/' {
            '\\'
        } else {
            s[0]
        }));
        assert(is_sep(k, swap_sep(s)[0]) == is_sep(k, s[0]));
        if !is_sep(k, s[0]) {
            assert(swap_sep(s).drop_first() =~= swap_sep(s.drop_first()));
            lemma_first_sep_swap(s.drop_first());
        }
    } else {
        assert(swap_sep(s).len() == 0);
    }
}

proof fn lemma_first_sep_all_before(k: SepKind, s: Seq<char>)
    ensures
        first_sep(k, s) matches Some(i) ==> forall|j: int| 0 <= j < i ==> !is_sep(k, s[j]),
        first_sep(k, s) is None ==> forall|j: int| 0 <= j < s.len() ==> !is_sep(k, s[j]),
    decreases s.len(),
{
    if s.len() > 0 && !is_sep(k, s[0]) {
        lemma_first_sep_all_before(k, s.drop_first());
        match first_sep(k, s.drop_first()) {
            Some(t) => {
                crate::text::lemma_first_sep_props(k, s.drop_first());
                assert forall|j: int| 0 <= j < t + 1 implies !is_sep(k, s[j]) by {
                    if j >= 1 {
                        assert(s[j] == s.drop_first()[j - 1]);
                    }
                }
            },
            None => {
                assert forall|j: int| 0 <= j < s.len() implies !is_sep(k, s[j]) by {
                    if j >= 1 {
                        assert(s[j] == s.drop_first()[j - 1]);
                    }
                }
            },
        }
    }
}

/// Splitting a lowered path treats the two separator styles alike: rewriting
/// every forward slash to a backslash first changes nothing.
pub proof fn lemma_split_swap(s: Seq<char>)
    ensures
        norm_pieces_of_lowered(swap_sep(s)) == norm_pieces_of_lowered(s),
    decreases s.len(),
{
    let k = SepKind::PathSep;
    lemma_first_sep_swap(s);
    crate::text::lemma_first_sep_props(k, s);
    lemma_first_sep_all_before(k, s);
    match first_sep(k, s) {
        None => {
            assert(swap_sep(s) =~= s);
        },
        Some(i) => {
            assert(swap_sep(s).take(i) =~= s.take(i)) by {
                assert(forall|j: int| 0 <= j < i ==> !is_sep(k, s[j]));
                assert(forall|j: int|
                    0 <= j < i ==> swap_sep(s)[j] == (if s[j] == '/' {
                        '\\'
                    } else {
                        s[j]
                    }));
            }
            assert(swap_sep(s).skip(i + 1) =~= swap_sep(s.skip(i + 1)));
            lemma_split_swap(s.skip(i + 1));
            assert(split_by(k, swap_sep(s)) == seq![swap_sep(s).take(i)] + split_by(
                k,
                swap_sep(s).skip(i + 1),
            ));
        },
    }
}

/// Case and separator normalization scope entity identity: two paths whose
/// lower-cased forms agree once forward slashes are rewritten to backslashes
/// resolve to the same operating system, the same DLL path and the same bare
/// DLL filename.
pub proof fn lemma_normalization_insensitive(a: Seq<char>, b: Seq<char>)
    requires
        swap_sep(lower_of(a)) == swap_sep(lower_of(b)),
    ensures
        norm_pieces(a) == norm_pieces(b),
        path_ok(a) ==> path_ok(b) && os_key_of(a) == os_key_of(b) && dll_key_of(a) == dll_key_of(b)
            && bare_dll_of(a) == bare_dll_of(b),
{
    lemma_split_swap(lower_of(a));
    lemma_split_swap(lower_of(b));
}

} // verus!
