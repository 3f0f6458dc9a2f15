//! Character-level utilities: conversions between strings and character
//! vectors, trimming of line endings, separator splitting, joining, and
//! decimal numerals.

use vstd::prelude::*;

verus! {

/// Relies on `String::push`: appends the given character to the end of the
/// string.
#[verifier::external_body]
pub(crate) fn push_char(s: &mut String, c: char)
    ensures
        final(s)@ == old(s)@.push(c),
{
    s.push(c);
}

/// The characters of `s`, in order, as a vector.
pub fn str_to_chars(s: &str) -> (v: Vec<char>)
    ensures
        v@ == s@,
{
    let n = s.unicode_len();
    let mut v: Vec<char> = Vec::new();
    let mut i: usize = 0;
    while i < n
        invariant
            n == s@.len(),
            i <= n,
            v@ == s@.take(i as int),
        decreases n - i,
    {
        let c = s.get_char(i);
        v.push(c);
        i = i + 1;
        proof {
            assert(v@ =~= s@.take(i as int));
        }
    }
    proof {
        assert(v@ =~= s@);
    }
    v
}

/// The characters of `v`, in order, as a string.
pub fn chars_to_string(v: &[char]) -> (s: String)
    ensures
        s@ == v@,
{
    let mut s = String::new();
    let mut i: usize = 0;
    while i < v.len()
        invariant
            i <= v@.len(),
            s@ == v@.take(i as int),
        decreases v@.len() - i,
    {
        push_char(&mut s, v[i]);
        i = i + 1;
        proof {
            assert(s@ =~= v@.take(i as int));
        }
    }
    proof {
        assert(s@ =~= v@);
    }
    s
}

/// `s` with every trailing carriage return or line feed removed.
pub open spec fn trim_crlf(s: Seq<char>) -> Seq<char>
    decreases s.len(),
{
    if s.len() > 0 && (s.last() == '\r' || s.last() == '\n') {
        trim_crlf(s.drop_last())
    } else {
        s
    }
}

/// Removes every trailing carriage return or line feed from `v`.
pub fn trim_line_ending(v: &mut Vec<char>)
    ensures
        final(v)@ == trim_crlf(old(v)@),
{
    while v.len() > 0 && (v[v.len() - 1] == '\r' || v[v.len() - 1] == '\n')
        invariant
            trim_crlf(v@) == trim_crlf(old(v)@),
        decreases v@.len(),
    {
        v.pop();
    }
    proof {
        assert(trim_crlf(v@) == v@);
    }
}

/// The separator classes a line is cut on: tab stops between record fields,
/// and the two path separators.
#[derive(Clone, Copy, PartialEq, Eq, Structural)]
pub enum SepKind {
    Tab,
    PathSep,
}

/// Whether `c` is a separator of class `k`.
pub open spec fn is_sep(k: SepKind, c: char) -> bool {
    match k {
        SepKind::Tab => c == '\t',
        SepKind::PathSep => c == '/' || c == '\\',
    }
}

fn is_sep_exec(k: SepKind, c: char) -> (b: bool)
    ensures
        b == is_sep(k, c),
{
    match k {
        SepKind::Tab => c == '\t',
        SepKind::PathSep => c == '/' || c == '\\',
    }
}

/// The index of the first separator of class `k` in `s`, if any.
pub open spec fn first_sep(k: SepKind, s: Seq<char>) -> Option<int>
    decreases s.len(),
{
    if s.len() == 0 {
        None
    } else if is_sep(k, s[0]) {
        Some(0)
    } else {
        match first_sep(k, s.drop_first()) {
            None => None,
            Some(j) => Some(j + 1),
        }
    }
}

pub proof fn lemma_first_sep_none(k: SepKind, s: Seq<char>)
    requires
        forall|j: int| 0 <= j < s.len() ==> !is_sep(k, s[j]),
    ensures
        first_sep(k, s) is None,
    decreases s.len(),
{
    if s.len() > 0 {
        lemma_first_sep_none(k, s.drop_first());
    }
}

pub proof fn lemma_first_sep_at(k: SepKind, s: Seq<char>, i: int)
    requires
        0 <= i < s.len(),
        is_sep(k, s[i]),
        forall|j: int| 0 <= j < i ==> !is_sep(k, s[j]),
    ensures
        first_sep(k, s) == Some(i),
    decreases s.len(),
{
    if i > 0 {
        lemma_first_sep_at(k, s.drop_first(), i - 1);
    }
}

pub proof fn lemma_first_sep_props(k: SepKind, s: Seq<char>)
    ensures
        first_sep(k, s) matches Some(i) ==> 0 <= i < s.len() && is_sep(k, s[i]),
    decreases s.len(),
{
    if s.len() > 0 && !is_sep(k, s[0]) {
        lemma_first_sep_props(k, s.drop_first());
    }
}

/// `s` cut at every separator of class `k`.  A string with `n` separators
/// yields `n + 1` pieces; empty pieces are kept.
pub open spec fn split_by(k: SepKind, s: Seq<char>) -> Seq<Seq<char>>
    decreases s.len(),
{
    match first_sep(k, s) {
        None => seq![s],
        Some(i) => {
            if 0 <= i < s.len() {
                seq![s.take(i)] + split_by(k, s.skip(i + 1))
            } else {
                seq![s]
            }
        },
    }
}

/// The subrange `v[from..to]` as a fresh vector.
pub fn subvec(v: &[char], from: usize, to: usize) -> (r: Vec<char>)
    requires
        from <= to <= v@.len(),
    ensures
        r@ == v@.subrange(from as int, to as int),
{
    let mut r: Vec<char> = Vec::new();
    let mut i: usize = from;
    while i < to
        invariant
            from <= i <= to <= v@.len(),
            r@ == v@.subrange(from as int, i as int),
        decreases to - i,
    {
        r.push(v[i]);
        i = i + 1;
        proof {
            assert(r@ =~= v@.subrange(from as int, i as int));
        }
    }
    r
}

/// Cuts `v` at every separator of class `k`, keeping empty pieces.
pub fn split_chars(k: SepKind, v: &[char]) -> (r: Vec<Vec<char>>)
    ensures
        r.deep_view() == split_by(k, v@),
{
    let mut r: Vec<Vec<char>> = Vec::new();
    let mut start: usize = 0;
    let mut i: usize = 0;
    proof {
        assert(v@.skip(0) =~= v@);
        assert(r.deep_view() =~~= Seq::<Seq<char>>::empty());
        assert(r.deep_view() + split_by(k, v@) =~= split_by(k, v@));
    }
    while i < v.len()
        invariant
            start <= i <= v@.len(),
            split_by(k, v@) == r.deep_view() + split_by(k, v@.skip(start as int)),
            forall|j: int| start <= j < i ==> !is_sep(k, v@[j]),
        decreases v@.len() - i,
    {
        if is_sep_exec(k, v[i]) {
            let piece = subvec(v, start, i);
            proof {
                let rest = v@.skip(start as int);
                lemma_first_sep_at(k, rest, i - start);
                assert(rest.take(i - start) =~= v@.subrange(start as int, i as int));
                assert(rest.skip(i - start + 1) =~= v@.skip(i + 1));
                assert(split_by(k, rest) == seq![piece@] + split_by(k, v@.skip(i + 1)));
            }
            let ghost old_r = r.deep_view();
            r.push(piece);
            proof {
                assert(r.deep_view() =~~= old_r + seq![piece@]);
                assert(r.deep_view() + split_by(k, v@.skip(i + 1)) =~= old_r + (seq![piece@]
                    + split_by(k, v@.skip(i + 1))));
            }
            start = i + 1;
        }
        i = i + 1;
    }
    let piece = subvec(v, start, v.len());
    proof {
        let rest = v@.skip(start as int);
        lemma_first_sep_none(k, rest);
        assert(rest =~= v@.subrange(start as int, v@.len() as int));
        assert(split_by(k, rest) == seq![piece@]);
    }
    let ghost old_r = r.deep_view();
    r.push(piece);
    proof {
        assert(r.deep_view() =~~= old_r + seq![piece@]);
        assert(r.deep_view() =~= split_by(k, v@));
    }
    r
}

/// The pieces joined with a single backslash between them.
pub open spec fn join_bs(pieces: Seq<Seq<char>>) -> Seq<char>
    decreases pieces.len(),
{
    if pieces.len() == 0 {
        Seq::empty()
    } else if pieces.len() == 1 {
        pieces[0]
    } else {
        pieces[0] + seq!['\\'] + join_bs(pieces.drop_first())
    }
}

proof fn lemma_join_bs_push(pieces: Seq<Seq<char>>, p: Seq<char>)
    requires
        pieces.len() > 0,
    ensures
        join_bs(pieces.push(p)) == join_bs(pieces) + seq!['\\'] + p,
    decreases pieces.len(),
{
    let whole = pieces.push(p);
    assert(whole.len() >= 2);
    if pieces.len() == 1 {
        assert(whole.drop_first() =~= seq![p]);
        assert(join_bs(whole) == whole[0] + seq!['\\'] + join_bs(whole.drop_first()));
        assert(whole[0] == pieces[0]);
    } else {
        assert(whole.drop_first() =~= pieces.drop_first().push(p));
        lemma_join_bs_push(pieces.drop_first(), p);
        assert(join_bs(whole) == whole[0] + seq!['\\'] + join_bs(pieces.drop_first().push(p)));
        assert((pieces[0] + seq!['\\'] + (join_bs(pieces.drop_first()) + seq!['\\'] + p)) =~= (
        pieces[0] + seq!['\\'] + join_bs(pieces.drop_first())) + seq!['\\'] + p);
    }
}

/// Joins `pieces[from..]` with single backslashes.
pub fn join_from(pieces: &Vec<Vec<char>>, from: usize) -> (r: Vec<char>)
    requires
        from < pieces@.len(),
    ensures
        r@ == join_bs(pieces.deep_view().skip(from as int)),
{
    let mut r: Vec<char> = Vec::new();
    let mut i: usize = from;
    let ghost tail = pieces.deep_view().skip(from as int);
    while i < pieces.len()
        invariant
            from <= i <= pieces@.len(),
            from < pieces@.len(),
            tail == pieces.deep_view().skip(from as int),
            i > from ==> r@ == join_bs(pieces.deep_view().subrange(from as int, i as int)),
            i == from ==> r@ == Seq::<char>::empty(),
        decreases pieces@.len() - i,
    {
        let ghost done = pieces.deep_view().subrange(from as int, i as int);
        if i > from {
            r.push('\\');
        }
        let piece = &pieces[i];
        let mut j: usize = 0;
        let ghost base = r@;
        while j < piece.len()
            invariant
                j <= piece@.len(),
                r@ == base + piece@.take(j as int),
            decreases piece@.len() - j,
        {
            r.push(piece[j]);
            j = j + 1;
            proof {
                assert(r@ =~= base + piece@.take(j as int));
            }
        }
        proof {
            assert(r@ =~= base + piece@);
            let done2 = pieces.deep_view().subrange(from as int, i + 1);
            assert(done2 =~= done.push(pieces.deep_view()[i as int]));
            if i == from {
                assert(done2 =~= seq![pieces.deep_view()[i as int]]);
                assert(r@ =~= join_bs(done2));
            } else {
                lemma_join_bs_push(done, pieces.deep_view()[i as int]);
                assert(r@ =~= join_bs(done) + seq!['\\'] + pieces.deep_view()[i as int]);
            }
        }
        i = i + 1;
    }
    proof {
        assert(pieces.deep_view().subrange(from as int, pieces@.len() as int) =~= tail);
    }
    r
}

/// The numeric value of a decimal digit character, or `-1`.
pub open spec fn digit_of(c: char) -> int {
    match c {
        '0' => 0,
        '1' => 1,
        '2' => 2,
        '3' => 3,
        '4' => 4,
        '5' => 5,
        '6' => 6,
        '7' => 7,
        '8' => 8,
        '9' => 9,
        _ => -1,
    }
}

pub open spec fn is_digit(c: char) -> bool {
    digit_of(c) >= 0
}

fn digit_of_exec(c: char) -> (r: Option<u8>)
    ensures
        r matches Some(d) ==> digit_of(c) == d as int,
        r is None ==> !is_digit(c),
{
    match c {
        '0' => Some(0),
        '1' => Some(1),
        '2' => Some(2),
        '3' => Some(3),
        '4' => Some(4),
        '5' => Some(5),
        '6' => Some(6),
        '7' => Some(7),
        '8' => Some(8),
        '9' => Some(9),
        _ => None,
    }
}

/// The value of a digit string read as a decimal numeral.
pub open spec fn digits_val(s: Seq<char>) -> int
    decreases s.len(),
{
    if s.len() == 0 {
        0
    } else {
        digits_val(s.drop_last()) * 10 + digit_of(s.last())
    }
}

pub open spec fn all_digits(s: Seq<char>) -> bool {
    forall|i: int| 0 <= i < s.len() ==> is_digit(s[i])
}

pub proof fn lemma_digits_val_nonneg(s: Seq<char>)
    requires
        all_digits(s),
    ensures
        digits_val(s) >= 0,
    decreases s.len(),
{
    if s.len() > 0 {
        assert(all_digits(s.drop_last())) by {
            assert(forall|i: int| 0 <= i < s.len() - 1 ==> s.drop_last()[i] == s[i]);
        }
        lemma_digits_val_nonneg(s.drop_last());
    }
}

/// Reading more digits can only grow the value.
pub proof fn lemma_digits_val_grows(s: Seq<char>, k: int)
    requires
        all_digits(s),
        0 <= k <= s.len(),
    ensures
        digits_val(s.take(k)) <= digits_val(s),
    decreases s.len(),
{
    if k == s.len() {
        assert(s.take(k) =~= s);
    } else {
        assert(all_digits(s.drop_last())) by {
            assert(forall|i: int| 0 <= i < s.len() - 1 ==> s.drop_last()[i] == s[i]);
        }
        assert(s.drop_last().take(k) =~= s.take(k));
        lemma_digits_val_grows(s.drop_last(), k);
        lemma_digits_val_nonneg(s.drop_last());
        assert(digits_val(s) == digits_val(s.drop_last()) * 10 + digit_of(s.last()));
        assert(digits_val(s.drop_last()) * 10 >= digits_val(s.drop_last())) by (nonlinear_arith)
            requires
                digits_val(s.drop_last()) >= 0,
        ;
    }
}

/// The value denoted by a decimal numeral in the style of `u64` parsing: an
/// optional leading plus sign, then one or more digits, with a value that
/// fits in a `u64`.
pub open spec fn parse_u64_spec(s: Seq<char>) -> Option<u64> {
    parse_u64_spec_body(
        if s.len() > 0 && s[0] == '+' {
            s.drop_first()
        } else {
            s
        },
    )
}

/// Parses a decimal numeral, exactly as `u64` parsing accepts it.
pub fn parse_u64_chars(v: &[char]) -> (r: Option<u64>)
    ensures
        r == parse_u64_spec(v@),
{
    let start: usize = if v.len() > 0 && v[0] == '+' {
        1
    } else {
        0
    };
    let ghost body = if v@.len() > 0 && v@[0] == '+' {
        v@.drop_first()
    } else {
        v@
    };
    proof {
        assert(body =~= v@.skip(start as int));
    }
    if v.len() == start {
        proof {
            assert(body.len() == 0);
            assert(parse_u64_spec(v@) == parse_u64_spec_body(body));
        }
        return None;
    }
    let mut acc: u64 = 0;
    let mut i: usize = start;
    while i < v.len()
        invariant
            start <= i <= v@.len(),
            start < v@.len(),
            body == v@.skip(start as int),
            body == (if v@.len() > 0 && v@[0] == '+' {
                v@.drop_first()
            } else {
                v@
            }),
            all_digits(body.take(i - start)),
            acc as int == digits_val(body.take(i - start)),
        decreases v@.len() - i,
    {
        let d = match digit_of_exec(v[i]) {
            Some(d) => d,
            None => {
                proof {
                    assert(body[i - start] == v@[i as int]);
                    assert(!all_digits(body));
                }
                return None;
            },
        };
        proof {
            let pre = body.take(i - start);
            let now = body.take(i - start + 1);
            assert(now.drop_last() =~= pre);
            assert(now.last() == v@[i as int]);
            assert(all_digits(now)) by {
                assert(forall|j: int| 0 <= j < now.len() - 1 ==> now[j] == pre[j]);
            }
            assert(digits_val(now) == acc as int * 10 + d);
        }
        let acc10 = match acc.checked_mul(10) {
            Some(a) => a,
            None => {
                proof {
                    overflow_means_none(body, i - start + 1, acc as int * 10 + d);
                }
                return None;
            },
        };
        let acc2 = match acc10.checked_add(d as u64) {
            Some(a) => a,
            None => {
                proof {
                    overflow_means_none(body, i - start + 1, acc as int * 10 + d);
                }
                return None;
            },
        };
        acc = acc2;
        i = i + 1;
    }
    proof {
        assert(body.take(v@.len() - start) =~= body);
    }
    Some(acc)
}

/// When the running value exceeds `u64::MAX` at some prefix, the whole
/// numeral denotes no `u64`.
proof fn overflow_means_none(body: Seq<char>, k: int, val: int)
    requires
        0 < k <= body.len(),
        all_digits(body.take(k)),
        digits_val(body.take(k)) == val,
        val > u64::MAX,
    ensures
        parse_u64_spec_body(body) is None,
{
    if all_digits(body) {
        lemma_digits_val_grows(body, k);
        assert(digits_val(body) >= digits_val(body.take(k)));
    }
}

/// The numeral's value with the sign already stripped.
pub open spec fn parse_u64_spec_body(body: Seq<char>) -> Option<u64> {
    if body.len() > 0 && all_digits(body) && digits_val(body) <= u64::MAX {
        Some(digits_val(body) as u64)
    } else {
        None
    }
}

/// The decimal numeral of a nonnegative number.
pub open spec fn dec_digit_char(d: int) -> char {
    if d == 0 {
        '0'
    } else if d == 1 {
        '1'
    } else if d == 2 {
        '2'
    } else if d == 3 {
        '3'
    } else if d == 4 {
        '4'
    } else if d == 5 {
        '5'
    } else if d == 6 {
        '6'
    } else if d == 7 {
        '7'
    } else if d == 8 {
        '8'
    } else {
        '9'
    }
}

pub open spec fn u64_dec(n: int) -> Seq<char>
    decreases n,
{
    if n < 10 {
        seq![dec_digit_char(n)]
    } else {
        u64_dec(n / 10).push(dec_digit_char(n % 10))
    }
}

fn dec_digit_char_exec(d: u64) -> (c: char)
    requires
        d < 10,
    ensures
        c == dec_digit_char(d as int),
{
    match d {
        0 => '0',
        1 => '1',
        2 => '2',
        3 => '3',
        4 => '4',
        5 => '5',
        6 => '6',
        7 => '7',
        8 => '8',
        _ => '9',
    }
}

/// Renders `n` as a decimal numeral.
pub fn u64_to_string(n: u64) -> (s: String)
    ensures
        s@ == u64_dec(n as int),
    decreases n,
{
    let d = dec_digit_char_exec(n % 10);
    if n < 10 {
        let mut s = String::new();
        push_char(&mut s, d);
        proof {
            assert(s@ =~= u64_dec(n as int));
        }
        s
    } else {
        let mut s = u64_to_string(n / 10);
        push_char(&mut s, d);
        s
    }
}

} // verus!
