//! Verified helpers over strings and character sequences: search, equality,
//! splitting, joining, decimal formatting and parsing.

use vstd::prelude::*;
use vstd::string::StrSliceExecFns;
use vstd::string::StringExecFns;

verus! {

/// True when `needle` occurs in `hay` starting at character position `at`.
pub open spec fn matches_at(hay: Seq<char>, needle: Seq<char>, at: int) -> bool {
    &&& 0 <= at
    &&& at + needle.len() <= hay.len()
    &&& hay.subrange(at, at + needle.len()) == needle
}

/// True when `needle` occurs somewhere in `hay`.
pub open spec fn contains_seq(hay: Seq<char>, needle: Seq<char>) -> bool {
    exists|at: int| matches_at(hay, needle, at)
}

/// True when `s` begins with `prefix`.
pub open spec fn starts_with_seq(s: Seq<char>, prefix: Seq<char>) -> bool {
    prefix.len() <= s.len() && s.subrange(0, prefix.len() as int) == prefix
}

/// True when `s` ends with `suffix`.
pub open spec fn ends_with_seq(s: Seq<char>, suffix: Seq<char>) -> bool {
    suffix.len() <= s.len() && s.subrange(s.len() - suffix.len(), s.len() as int) == suffix
}

/// Every character is seven-bit.
pub open spec fn ascii_seq(s: Seq<char>) -> bool {
    forall|i: int| 0 <= i < s.len() ==> #[trigger] (s[i] as u32) < 128
}

/// Character-for-character equality of two string slices.
pub fn str_eq(a: &str, b: &str) -> (r: bool)
    ensures
        r == (a@ == b@),
{
    let x: String = a.to_owned();
    let y: String = b.to_owned();
    x == y
}

/// Substring search by characters.
pub fn str_contains(hay: &str, needle: &str) -> (r: bool)
    ensures
        r == contains_seq(hay@, needle@),
{
    let hl = hay.unicode_len();
    let nl = needle.unicode_len();
    if nl == 0 {
        assert(hay@.subrange(0, 0) =~= needle@);
        assert(matches_at(hay@, needle@, 0));
        return true;
    }
    if nl > hl {
        assert(forall|at: int| !matches_at(hay@, needle@, at));
        return false;
    }
    let mut i: usize = 0;
    while i <= hl - nl
        invariant
            hl == hay@.len(),
            nl == needle@.len(),
            1 <= nl <= hl,
            0 <= i <= hl - nl + 1,
            forall|at: int| 0 <= at < i ==> !matches_at(hay@, needle@, at),
        decreases hl - nl - i + 1,
    {
        let sub = hay.substring_char(i, i + nl);
        if str_eq(sub, needle) {
            assert(matches_at(hay@, needle@, i as int));
            return true;
        }
        i = i + 1;
    }
    assert(forall|at: int| at > hl - nl ==> !matches_at(hay@, needle@, at));
    false
}

/// True when `s` begins with `prefix`.
pub fn str_starts_with(s: &str, prefix: &str) -> (r: bool)
    ensures
        r == starts_with_seq(s@, prefix@),
{
    let sl = s.unicode_len();
    let pl = prefix.unicode_len();
    if pl > sl {
        return false;
    }
    let head = s.substring_char(0, pl);
    str_eq(head, prefix)
}

/// True when `s` ends with `suffix`.
pub fn str_ends_with(s: &str, suffix: &str) -> (r: bool)
    ensures
        r == ends_with_seq(s@, suffix@),
{
    let sl = s.unicode_len();
    let xl = suffix.unicode_len();
    if xl > sl {
        return false;
    }
    let tail = s.substring_char(sl - xl, sl);
    str_eq(tail, suffix)
}

/// Relies on `String::push`: appends exactly the given character.
#[verifier::external_body]
pub(crate) fn push_char(s: &mut String, c: char)
    ensures
        final(s)@ == old(s)@.push(c),
{
    s.push(c)
}

/// The decimal digit character for `d % 10`.
pub open spec fn digit_char(d: u64) -> char {
    ((d % 10 + 48) as u8) as char
}

/// Decimal representation of `n`, most significant digit first.
pub open spec fn dec_rep(n: u64) -> Seq<char>
    decreases n,
{
    if n < 10 {
        seq![digit_char(n)]
    } else {
        dec_rep(n / 10).push(digit_char(n % 10))
    }
}

/// Formats `n` in decimal.
pub fn u64_to_string(n: u64) -> (r: String)
    ensures
        r@ == dec_rep(n),
    decreases n,
{
    if n < 10 {
        let mut s = String::new();
        push_char(&mut s, ((n % 10 + 48) as u8) as char);
        assert(s@ =~= dec_rep(n));
        s
    } else {
        let mut s = u64_to_string(n / 10);
        push_char(&mut s, ((n % 10 + 48) as u8) as char);
        s
    }
}

/// Formats `n` in decimal.
pub fn usize_to_string(n: usize) -> (r: String)
    ensures
        r@ == dec_rep(n as u64),
{
    u64_to_string(n as u64)
}

/// True for the characters `'0'` through `'9'`.
pub open spec fn is_digit(c: char) -> bool {
    48 <= c as u32 <= 57
}

/// The numeric value of a digit character.
pub open spec fn digit_val(c: char) -> int {
    c as u32 as int - 48
}

/// True when every character of `s` is a decimal digit.
pub open spec fn all_digits(s: Seq<char>) -> bool {
    forall|i: int| 0 <= i < s.len() ==> is_digit(#[trigger] s[i])
}

/// The number denoted by a sequence of decimal digits.
pub open spec fn digits_val(s: Seq<char>) -> int
    decreases s.len(),
{
    if s.len() == 0 {
        0
    } else {
        digits_val(s.drop_last()) * 10 + digit_val(s.last())
    }
}

/// The value of a digit string never shrinks when more digits follow.
proof fn lemma_digits_val_extend(s: Seq<char>, i: int)
    requires
        0 <= i <= s.len(),
        all_digits(s),
    ensures
        digits_val(s) >= digits_val(s.take(i)),
        digits_val(s.take(i)) >= 0,
    decreases s.len() - i,
{
    if i == s.len() {
        assert(s.take(i) =~= s);
        lemma_digits_val_nonneg(s);
    } else {
        assert(s.take(i + 1).drop_last() =~= s.take(i));
        assert(s.take(i + 1).last() == s[i]);
        lemma_digits_val_nonneg(s.take(i));
        lemma_digits_val_extend(s, i + 1);
    }
}

pub proof fn lemma_digits_val_nonneg(s: Seq<char>)
    requires
        all_digits(s),
    ensures
        digits_val(s) >= 0,
    decreases s.len(),
{
    if s.len() > 0 {
        assert(all_digits(s.drop_last()));
        lemma_digits_val_nonneg(s.drop_last());
    }
}

/// Parses a non-empty string of decimal digits whose value fits in a `u64`;
/// returns `None` on any other input.
pub fn parse_u64(s: &str) -> (r: Option<u64>)
    ensures
        r == (if all_digits(s@) && s@.len() >= 1 && digits_val(s@) <= u64::MAX {
            Some(digits_val(s@) as u64)
        } else {
            None::<u64>
        }),
{
    let n = s.unicode_len();
    if n == 0 {
        return None;
    }
    let mut acc: u64 = 0;
    let mut i: usize = 0;
    while i < n
        invariant
            n == s@.len(),
            0 <= i <= n,
            all_digits(s@.take(i as int)),
            acc == digits_val(s@.take(i as int)),
        decreases n - i,
    {
        let c = s.get_char(i);
        let cv = c as u32;
        if cv < 48 || cv > 57 {
            assert(!is_digit(s@[i as int]));
            return None;
        }
        let d: u64 = (cv - 48) as u64;
        assert(s@.take(i + 1).drop_last() =~= s@.take(i as int));
        assert(s@.take(i + 1).last() == s@[i as int]);
        let next = match acc.checked_mul(10) {
            Some(m) => m.checked_add(d),
            None => None,
        };
        match next {
            Some(v) => {
                acc = v;
            },
            None => {
                proof {
                    assert(all_digits(s@.take(i + 1)));
                    assert(digits_val(s@.take(i + 1)) > u64::MAX);
                    if all_digits(s@) {
                        lemma_digits_val_extend(s@, i + 1);
                    }
                }
                return None;
            },
        }
        i = i + 1;
    }
    assert(s@.take(n as int) =~= s@);
    Some(acc)
}

/// Index of the first occurrence of `c` in `s`, or `-1` when absent.
pub open spec fn find_first(s: Seq<char>, c: char) -> int
    decreases s.len(),
{
    if s.len() == 0 {
        -1
    } else if s[0] == c {
        0
    } else {
        let r = find_first(s.drop_first(), c);
        if r < 0 {
            -1
        } else {
            1 + r
        }
    }
}

/// What `find_first` returns: the position of the first occurrence.
pub proof fn lemma_find_first(s: Seq<char>, c: char)
    ensures
        find_first(s, c) == -1 ==> forall|j: int| 0 <= j < s.len() ==> s[j] != c,
        find_first(s, c) >= 0 ==> {
            &&& find_first(s, c) < s.len()
            &&& s[find_first(s, c)] == c
            &&& forall|j: int| 0 <= j < find_first(s, c) ==> s[j] != c
        },
    decreases s.len(),
{
    if s.len() > 0 && s[0] != c {
        let t = s.drop_first();
        lemma_find_first(t, c);
        let f = find_first(s, c);
        let ft = find_first(t, c);
        if ft < 0 {
            assert forall|j: int| 0 <= j < s.len() implies s[j] != c by {
                if j > 0 {
                    assert(t[j - 1] == s[j]);
                }
            }
        } else {
            assert(f == 1 + ft);
            assert(s[f] == t[ft]);
            assert forall|j: int| 0 <= j < f implies s[j] != c by {
                if j > 0 {
                    assert(t[j - 1] == s[j]);
                }
            }
        }
    }
}

/// The pieces of `s` between occurrences of the separator `c`.
pub open spec fn split_seq(s: Seq<char>, c: char) -> Seq<Seq<char>>
    decreases s.len(),
{
    let i = find_first(s, c);
    if 0 <= i < s.len() {
        seq![s.take(i)] + split_seq(s.skip(i + 1), c)
    } else {
        seq![s]
    }
}

/// Splits `s` at every occurrence of `c`.
pub fn split_char(s: &str, c: char) -> (r: Vec<String>)
    ensures
        r.deep_view() == split_seq(s@, c),
{
    let n = s.unicode_len();
    let mut pieces: Vec<String> = Vec::new();
    let mut start: usize = 0;
    proof {
        assert(s@.skip(0) =~= s@);
        assert(pieces.deep_view() =~= Seq::<Seq<char>>::empty());
        assert(pieces.deep_view() + split_seq(s@, c) =~= split_seq(s@, c));
    }
    loop
        invariant
            n == s@.len(),
            0 <= start <= n,
            split_seq(s@, c) =~= pieces.deep_view() + split_seq(s@.skip(start as int), c),
        decreases n - start,
    {
        // scan for the next separator at or after `start`
        let ghost rest = s@.skip(start as int);
        let ghost old_dv = pieces.deep_view();
        let mut j: usize = start;
        let mut found = false;
        while j < n && !found
            invariant
                n == s@.len(),
                start <= j <= n,
                forall|k: int| start <= k < j ==> s@[k] != c,
                found ==> j < n && s@[j as int] == c,
            decreases n - j, (if found { 0int } else { 1int }),
        {
            if s.get_char(j) == c {
                found = true;
            } else {
                j = j + 1;
            }
        }
        proof {
            lemma_find_first(rest, c);
            let f = find_first(rest, c);
            assert(forall|k: int| 0 <= k < j - start ==> rest[k] == s@[k + start] && rest[k] != c);
            if found {
                assert(rest[j - start] == c);
                if f < j - start {
                    assert(f >= 0 ==> rest[f] == c);
                    assert(f == j - start);
                } else if f > j - start {
                    assert(rest[j - start] != c);
                    assert(false);
                }
            } else {
                assert(j == n);
                assert(forall|k: int| 0 <= k < rest.len() ==> rest[k] != c);
                if f >= 0 {
                    assert(rest[f] == c);
                    assert(false);
                }
            }
        }
        let piece = s.substring_char(start, j);
        let piece_string = piece.to_owned();
        pieces.push(piece_string);
        proof {
            assert(pieces.deep_view() =~= old_dv.push(piece@));
        }
        if found {
            proof {
                assert(rest.take(j - start) =~= s@.subrange(start as int, j as int));
                assert(rest.skip(j - start + 1) =~= s@.skip(j + 1));
                assert(split_seq(rest, c) == seq![piece@] + split_seq(s@.skip(j + 1), c));
                assert(old_dv.push(piece@) + split_seq(s@.skip(j + 1), c) =~= old_dv + split_seq(
                    rest,
                    c,
                ));
            }
            start = j + 1;
        } else {
            proof {
                assert(rest =~= s@.subrange(start as int, j as int));
                assert(split_seq(rest, c) == seq![rest]);
                assert(old_dv.push(piece@) =~= old_dv + split_seq(rest, c));
            }
            return pieces;
        }
    }
}

/// The pieces joined with separator `sep` between them.
pub open spec fn seq_join(l: Seq<Seq<char>>, sep: Seq<char>) -> Seq<char>
    decreases l.len(),
{
    if l.len() == 0 {
        Seq::empty()
    } else if l.len() == 1 {
        l[0]
    } else {
        l[0] + sep + seq_join(l.drop_first(), sep)
    }
}

/// Adding one more piece appends a separator and the piece.
pub proof fn lemma_seq_join_push(l: Seq<Seq<char>>, sep: Seq<char>, x: Seq<char>)
    requires
        l.len() >= 1,
    ensures
        seq_join(l.push(x), sep) == seq_join(l, sep) + sep + x,
    decreases l.len(),
{
    if l.len() == 1 {
        assert(l.push(x).drop_first() =~= seq![x]);
        assert(seq_join(seq![x], sep) == x);
        assert(l.push(x)[0] == l[0]);
        assert(seq_join(l.push(x), sep) =~= l[0] + sep + x);
        assert(seq_join(l, sep) + sep + x =~= l[0] + sep + x);
    } else {
        lemma_seq_join_push(l.drop_first(), sep, x);
        assert(l.push(x).drop_first() =~= l.drop_first().push(x));
        assert(seq_join(l.push(x), sep) =~= l[0] + sep + seq_join(l.drop_first().push(x), sep));
        assert(seq_join(l, sep) + sep + x =~= l[0] + sep + (seq_join(l.drop_first(), sep) + sep
            + x));
    }
}

/// Joins the pieces with `sep` between them.
pub fn join_with(list: &Vec<String>, sep: &str) -> (r: String)
    ensures
        r@ == seq_join(list.deep_view(), sep@),
{
    let mut out = String::new();
    let mut i: usize = 0;
    while i < list.len()
        invariant
            0 <= i <= list.deep_view().len(),
            list.deep_view().len() == list.len(),
            out@ == seq_join(list.deep_view().take(i as int), sep@),
        decreases list.len() - i,
    {
        proof {
            assert(list.deep_view().take(i + 1) =~= list.deep_view().take(i as int).push(
                list.deep_view()[i as int],
            ));
            if i >= 1 {
                lemma_seq_join_push(list.deep_view().take(i as int), sep@, list.deep_view()[i as int]);
            }
        }
        if i > 0 {
            out.append(sep);
        }
        let piece: &String = &list[i];
        out.append(piece.as_str());
        proof {
            if i == 0 {
                assert(seq_join(list.deep_view().take(1), sep@) == list.deep_view()[0]);
            }
        }
        i = i + 1;
    }
    assert(list.deep_view().take(list.len() as int) =~= list.deep_view());
    out
}

/// Concatenation of two strings.
pub fn concat2(a: &str, b: &str) -> (r: String)
    ensures
        r@ == a@ + b@,
{
    let mut out = a.to_owned();
    out.append(b);
    out
}

/// Concatenation of three strings.
pub fn concat3(a: &str, b: &str, c: &str) -> (r: String)
    ensures
        r@ == a@ + b@ + c@,
{
    let mut out = a.to_owned();
    out.append(b);
    out.append(c);
    out
}

/// Lexicographic order on character sequences, by code point.
pub open spec fn lex_le(a: Seq<char>, b: Seq<char>) -> bool
    decreases a.len(),
{
    if a.len() == 0 {
        true
    } else if b.len() == 0 {
        false
    } else if (a[0] as u32) < (b[0] as u32) {
        true
    } else if (a[0] as u32) > (b[0] as u32) {
        false
    } else {
        lex_le(a.drop_first(), b.drop_first())
    }
}

/// The lexicographic order is reflexive.
pub proof fn lemma_lex_refl(a: Seq<char>)
    ensures
        lex_le(a, a),
    decreases a.len(),
{
    if a.len() > 0 {
        lemma_lex_refl(a.drop_first());
    }
}

/// The lexicographic order is total.
pub proof fn lemma_lex_total(a: Seq<char>, b: Seq<char>)
    ensures
        lex_le(a, b) || lex_le(b, a),
    decreases a.len(),
{
    if a.len() > 0 && b.len() > 0 && (a[0] as u32) == (b[0] as u32) {
        lemma_lex_total(a.drop_first(), b.drop_first());
    }
}

/// The lexicographic order is transitive.
pub proof fn lemma_lex_trans(a: Seq<char>, b: Seq<char>, c: Seq<char>)
    requires
        lex_le(a, b),
        lex_le(b, c),
    ensures
        lex_le(a, c),
    decreases a.len(),
{
    if a.len() > 0 && b.len() > 0 && c.len() > 0 && (a[0] as u32) == (b[0] as u32) && (b[0] as u32)
        == (c[0] as u32) {
        lemma_lex_trans(a.drop_first(), b.drop_first(), c.drop_first());
    }
}

/// Compares two strings in lexicographic order by code point.
pub fn str_le(a: &str, b: &str) -> (r: bool)
    ensures
        r == lex_le(a@, b@),
{
    let al = a.unicode_len();
    let bl = b.unicode_len();
    let mut i: usize = 0;
    proof {
        assert(a@.skip(0) =~= a@);
        assert(b@.skip(0) =~= b@);
    }
    loop
        invariant
            al == a@.len(),
            bl == b@.len(),
            0 <= i <= al,
            0 <= i <= bl,
            lex_le(a@, b@) == lex_le(a@.skip(i as int), b@.skip(i as int)),
        decreases al - i,
    {
        proof {
            if i < al && i < bl {
                assert(a@.skip(i as int)[0] == a@[i as int]);
                assert(b@.skip(i as int)[0] == b@[i as int]);
                assert(a@.skip(i as int).drop_first() =~= a@.skip(i + 1));
                assert(b@.skip(i as int).drop_first() =~= b@.skip(i + 1));
            }
        }
        if i == al {
            assert(a@.skip(i as int).len() == 0);
            return true;
        }
        if i == bl {
            assert(b@.skip(i as int).len() == 0);
            assert(a@.skip(i as int).len() > 0);
            return false;
        }
        let ca = a.get_char(i) as u32;
        let cb = b.get_char(i) as u32;
        if ca < cb {
            return true;
        }
        if ca > cb {
            return false;
        }
        i = i + 1;
    }
}

/// True when the vector holds a string equal to `x`.
pub fn vec_contains_str(v: &Vec<String>, x: &str) -> (r: bool)
    ensures
        r == v.deep_view().contains(x@),
{
    let mut i: usize = 0;
    while i < v.len()
        invariant
            0 <= i <= v.len(),
            v.deep_view().len() == v.len(),
            forall|j: int| 0 <= j < i ==> v.deep_view()[j] != x@,
        decreases v.len() - i,
    {
        if str_eq(v[i].as_str(), x) {
            assert(v.deep_view()[i as int] == x@);
            return true;
        }
        i = i + 1;
    }
    false
}


/// What Unicode lowercasing yields for this text; the mapping is a function
/// of the characters alone.
pub uninterp spec fn lower_of(s: Seq<char>) -> Seq<char>;

/// Relies on `str::to_lowercase`: the Unicode lowercase mapping, a function
/// of the characters alone; an empty text stays empty.
#[verifier::external_body]
pub(crate) fn lowercase(s: &str) -> (r: String)
    ensures
        r@ == lower_of(s@),
        s@.len() == 0 ==> r@.len() == 0,
{
    s.to_lowercase()
}

/// Whether this character counts as alphanumeric under Unicode.
pub uninterp spec fn is_alnum_char(c: char) -> bool;

/// Relies on `char::is_alphanumeric`: the Unicode alphanumeric property, a
/// function of the character alone.
#[verifier::external_body]
pub(crate) fn char_alnum(c: char) -> (r: bool)
    ensures
        r == is_alnum_char(c),
{
    c.is_alphanumeric()
}

/// Whether this character counts as white space under Unicode.
pub uninterp spec fn is_wspace_char(c: char) -> bool;

/// Relies on `char::is_whitespace`: the Unicode white-space property, a
/// function of the character alone.
#[verifier::external_body]
pub(crate) fn char_wspace(c: char) -> (r: bool)
    ensures
        r == is_wspace_char(c),
{
    c.is_whitespace()
}

/// Position of the first occurrence of `needle` in `hay`, or `-1`.
pub open spec fn find_at(hay: Seq<char>, needle: Seq<char>) -> int
    decreases hay.len(),
{
    if matches_at(hay, needle, 0) {
        0
    } else if hay.len() == 0 {
        -1
    } else {
        let r = find_at(hay.drop_first(), needle);
        if r < 0 {
            -1
        } else {
            1 + r
        }
    }
}

/// What `find_at` returns: the first match position, when one exists.
pub proof fn lemma_find_at(hay: Seq<char>, needle: Seq<char>)
    ensures
        find_at(hay, needle) == -1 ==> !contains_seq(hay, needle),
        find_at(hay, needle) >= 0 ==> {
            &&& matches_at(hay, needle, find_at(hay, needle))
            &&& forall|j: int| 0 <= j < find_at(hay, needle) ==> !matches_at(hay, needle, j)
        },
    decreases hay.len(),
{
    if !matches_at(hay, needle, 0) && hay.len() > 0 {
        let t = hay.drop_first();
        lemma_find_at(t, needle);
        let f = find_at(hay, needle);
        let ft = find_at(t, needle);
        assert forall|j: int| 1 <= j && matches_at(hay, needle, j) implies matches_at(
            t,
            needle,
            j - 1,
        ) by {
            assert(t.subrange(j - 1, j - 1 + needle.len() as int) =~= hay.subrange(
                j,
                j + needle.len() as int,
            ));
        }
        assert forall|j: int| 0 <= j && matches_at(t, needle, j) implies matches_at(
            hay,
            needle,
            j + 1,
        ) by {
            assert(hay.subrange(j + 1, j + 1 + needle.len() as int) =~= t.subrange(
                j,
                j + needle.len() as int,
            ));
        }
        if ft < 0 {
            assert forall|j: int| !matches_at(hay, needle, j) by {
                if j >= 1 && matches_at(hay, needle, j) {
                    assert(matches_at(t, needle, j - 1));
                }
            }
        }
    }
}

/// Finds the first occurrence of `needle` in `hay` by characters.
pub fn find_sub(hay: &str, needle: &str) -> (r: Option<usize>)
    ensures
        match r {
            Some(i) => i as int == find_at(hay@, needle@) && matches_at(hay@, needle@, i as int),
            None => find_at(hay@, needle@) == -1 && !contains_seq(hay@, needle@),
        },
{
    proof {
        lemma_find_at(hay@, needle@);
    }
    let hl = hay.unicode_len();
    let nl = needle.unicode_len();
    if nl == 0 {
        proof {
            assert(hay@.subrange(0, 0) =~= needle@);
            assert(matches_at(hay@, needle@, 0));
        }
        return Some(0);
    }
    if nl > hl {
        proof {
            if find_at(hay@, needle@) >= 0 {
                assert(matches_at(hay@, needle@, find_at(hay@, needle@)));
            }
        }
        return None;
    }
    let mut i: usize = 0;
    while i <= hl - nl
        invariant
            hl == hay@.len(),
            nl == needle@.len(),
            1 <= nl <= hl,
            0 <= i <= hl - nl + 1,
            forall|at: int| 0 <= at < i ==> !matches_at(hay@, needle@, at),
        decreases hl - nl - i + 1,
    {
        let sub = hay.substring_char(i, i + nl);
        if str_eq(sub, needle) {
            proof {
                assert(matches_at(hay@, needle@, i as int));
                lemma_find_at(hay@, needle@);
                let f = find_at(hay@, needle@);
                if f < 0 {
                    assert(false);
                } else if f < i {
                    assert(!matches_at(hay@, needle@, f));
                    assert(false);
                } else if f > i {
                    assert(!matches_at(hay@, needle@, i as int));
                    assert(false);
                }
            }
            return Some(i);
        }
        i = i + 1;
    }
    proof {
        assert(forall|at: int| at > hl - nl ==> !matches_at(hay@, needle@, at));
        if find_at(hay@, needle@) >= 0 {
            assert(matches_at(hay@, needle@, find_at(hay@, needle@)));
        }
    }
    None
}

/// The text with leading white space removed.
pub open spec fn ltrimmed(s: Seq<char>) -> Seq<char>
    decreases s.len(),
{
    if s.len() > 0 && is_wspace_char(s[0]) {
        ltrimmed(s.drop_first())
    } else {
        s
    }
}

/// The text with trailing white space removed.
pub open spec fn rtrimmed(s: Seq<char>) -> Seq<char>
    decreases s.len(),
{
    if s.len() > 0 && is_wspace_char(s.last()) {
        rtrimmed(s.drop_last())
    } else {
        s
    }
}

/// The text with white space removed from both ends.
pub open spec fn trimmed(s: Seq<char>) -> Seq<char> {
    rtrimmed(ltrimmed(s))
}

/// Removes leading white space.
pub fn ltrim(s: &str) -> (r: String)
    ensures
        r@ == ltrimmed(s@),
{
    let n = s.unicode_len();
    let mut i: usize = 0;
    proof {
        assert(s@.skip(0) =~= s@);
    }
    while i < n && char_wspace(s.get_char(i))
        invariant
            n == s@.len(),
            0 <= i <= n,
            ltrimmed(s@) == ltrimmed(s@.skip(i as int)),
        decreases n - i,
    {
        proof {
            assert(s@.skip(i as int)[0] == s@[i as int]);
            assert(s@.skip(i as int).drop_first() =~= s@.skip(i + 1));
        }
        i = i + 1;
    }
    let tail = s.substring_char(i, n);
    proof {
        if i < n {
            assert(s@.skip(i as int)[0] == s@[i as int]);
            assert(ltrimmed(s@.skip(i as int)) == s@.skip(i as int));
        } else {
            assert(s@.skip(i as int).len() == 0);
        }
        assert(tail@ =~= s@.skip(i as int));
    }
    tail.to_owned()
}

/// Removes white space from both ends.
pub fn trim(s: &str) -> (r: String)
    ensures
        r@ == trimmed(s@),
{
    let lt = ltrim(s);
    let n = lt.as_str().unicode_len();
    let mut e: usize = n;
    proof {
        assert(lt@.take(n as int) =~= lt@);
    }
    while e > 0 && char_wspace(lt.as_str().get_char(e - 1))
        invariant
            n == lt@.len(),
            0 <= e <= n,
            lt@ == ltrimmed(s@),
            rtrimmed(lt@) == rtrimmed(lt@.take(e as int)),
        decreases e,
    {
        proof {
            assert(lt@.take(e as int).last() == lt@[e - 1]);
            assert(lt@.take(e as int).drop_last() =~= lt@.take(e - 1));
        }
        e = e - 1;
    }
    let head = lt.as_str().substring_char(0, e);
    proof {
        if e > 0 {
            assert(lt@.take(e as int).last() == lt@[e - 1]);
            assert(rtrimmed(lt@.take(e as int)) == lt@.take(e as int));
        } else {
            assert(lt@.take(0).len() == 0);
        }
        assert(head@ =~= lt@.take(e as int));
    }
    head.to_owned()
}

} // verus!
