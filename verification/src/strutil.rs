//! Verified string helpers: splitting, trimming, case folding, digit and
//! hex-digit handling, and filename stem/extension derivation.

use vstd::prelude::*;

verus! {

// ---------------------------------------------------------------------------
// Character classes
// ---------------------------------------------------------------------------

/// Decimal digit.
pub open spec fn is_digit(c: char) -> bool {
    '0' <= c && c <= '9'
}

/// Value of a decimal digit.
pub open spec fn digit_val(c: char) -> int {
    c as int - '0' as int
}

/// Decimal digit test, executable.
pub fn is_digit_exec(c: char) -> (r: bool)
    ensures
        r == is_digit(c),
{
    let v = c as u32;
    48 <= v && v <= 57
}

/// Value of a decimal digit, executable.
pub fn digit_value(c: char) -> (r: u32)
    requires
        is_digit(c),
    ensures
        r == digit_val(c),
        r < 10,
{
    (c as u32) - 48
}

/// Hexadecimal digit, either case.
pub open spec fn is_hex_digit(c: char) -> bool {
    ('0' <= c && c <= '9') || ('a' <= c && c <= 'f') || ('A' <= c && c <= 'F')
}

/// Value of a hexadecimal digit.
pub open spec fn hex_val(c: char) -> int {
    if '0' <= c && c <= '9' {
        c as int - '0' as int
    } else if 'a' <= c && c <= 'f' {
        c as int - 'a' as int + 10
    } else {
        c as int - 'A' as int + 10
    }
}

/// Hexadecimal digit test, executable.
pub fn is_hex_digit_exec(c: char) -> (r: bool)
    ensures
        r == is_hex_digit(c),
{
    let v = c as u32;
    (48 <= v && v <= 57) || (97 <= v && v <= 102) || (65 <= v && v <= 70)
}

/// Value of a hexadecimal digit, executable.
pub fn hex_digit_value(c: char) -> (r: u32)
    requires
        is_hex_digit(c),
    ensures
        r == hex_val(c),
        r < 16,
{
    let v = c as u32;
    if v >= 97 {
        v - 87
    } else if v >= 65 {
        v - 55
    } else {
        v - 48
    }
}

/// The characters Rust's `char::is_whitespace` treats as white space.
pub open spec fn is_space(c: char) -> bool {
    c == ' ' || c == '\t' || c == '\n' || c == '\u{b}' || c == '\u{c}' || c == '\r' || c
        == '\u{85}' || c == '\u{a0}' || c == '\u{1680}' || ('\u{2000}' <= c && c <= '\u{200a}') || c
        == '\u{2028}' || c == '\u{2029}' || c == '\u{202f}' || c == '\u{205f}' || c == '\u{3000}'
}

fn is_space_exec(c: char) -> (r: bool)
    ensures
        r == is_space(c),
{
    c == ' ' || c == '\t' || c == '\n' || c == '\u{b}' || c == '\u{c}' || c == '\r' || c
        == '\u{85}' || c == '\u{a0}' || c == '\u{1680}' || ('\u{2000}' <= c && c <= '\u{200a}') || c
        == '\u{2028}' || c == '\u{2029}' || c == '\u{202f}' || c == '\u{205f}' || c == '\u{3000}'
}

/// ASCII lower-casing of one character.
pub open spec fn lower_char(c: char) -> char {
    if 'A' <= c && c <= 'Z' {
        ((c as u32) + 32) as char
    } else {
        c
    }
}

/// ASCII lower-casing of a character sequence.
pub open spec fn lower_seq(s: Seq<char>) -> Seq<char> {
    s.map_values(|c: char| lower_char(c))
}

fn lower_char_exec(c: char) -> (r: char)
    ensures
        r == lower_char(c),
{
    match c {
        'A' => 'a',
        'B' => 'b',
        'C' => 'c',
        'D' => 'd',
        'E' => 'e',
        'F' => 'f',
        'G' => 'g',
        'H' => 'h',
        'I' => 'i',
        'J' => 'j',
        'K' => 'k',
        'L' => 'l',
        'M' => 'm',
        'N' => 'n',
        'O' => 'o',
        'P' => 'p',
        'Q' => 'q',
        'R' => 'r',
        'S' => 's',
        'T' => 't',
        'U' => 'u',
        'V' => 'v',
        'W' => 'w',
        'X' => 'x',
        'Y' => 'y',
        'Z' => 'z',
        _ => c,
    }
}

/// Case-insensitive (ASCII) comparison of two strings.
pub fn eq_ignore_ascii_case(a: &str, b: &str) -> (r: bool)
    ensures
        r == (lower_seq(a@) == lower_seq(b@)),
{
    let alen = a.unicode_len();
    let blen = b.unicode_len();
    if alen != blen {
        proof {
            assert(lower_seq(a@).len() == a@.len());
            assert(lower_seq(b@).len() == b@.len());
        }
        return false;
    }
    let mut i: usize = 0;
    while i < alen
        invariant
            i <= alen,
            alen == a@.len(),
            alen == b@.len(),
            forall|j: int| 0 <= j < i ==> lower_char(a@[j]) == lower_char(b@[j]),
        decreases alen - i,
    {
        let ca = lower_char_exec(a.get_char(i));
        let cb = lower_char_exec(b.get_char(i));
        if ca != cb {
            proof {
                assert(lower_seq(a@)[i as int] != lower_seq(b@)[i as int]);
            }
            return false;
        }
        i += 1;
    }
    proof {
        assert(lower_seq(a@) =~= lower_seq(b@));
    }
    true
}

// ---------------------------------------------------------------------------
// Splitting on a separator character
// ---------------------------------------------------------------------------

/// The views of a sequence of strings.
pub open spec fn views_of(v: Seq<String>) -> Seq<Seq<char>> {
    v.map_values(|t: String| t@)
}

/// Split a character sequence on a separator: segments in order, empty
/// segments preserved, no trimming. The result always has at least one
/// element.
pub open spec fn split_char_spec(s: Seq<char>, sep: char) -> Seq<Seq<char>>
    decreases s.len(),
{
    if s.len() == 0 {
        seq![Seq::<char>::empty()]
    } else if s[0] == sep {
        seq![Seq::<char>::empty()] + split_char_spec(s.skip(1), sep)
    } else {
        let rest = split_char_spec(s.skip(1), sep);
        seq![seq![s[0]] + rest[0]] + rest.skip(1)
    }
}

pub proof fn lemma_split_len_pos(s: Seq<char>, sep: char)
    ensures
        split_char_spec(s, sep).len() >= 1,
    decreases s.len(),
{
    if s.len() != 0 {
        lemma_split_len_pos(s.skip(1), sep);
    }
}

/// A separator-free prefix followed by the separator contributes one segment.
proof fn lemma_split_head(x: Seq<char>, y: Seq<char>, sep: char)
    requires
        forall|j: int| 0 <= j < x.len() ==> x[j] != sep,
    ensures
        split_char_spec(x + seq![sep] + y, sep) == seq![x] + split_char_spec(y, sep),
    decreases x.len(),
{
    let s = x + seq![sep] + y;
    if x.len() == 0 {
        assert(s[0] == sep);
        assert(s.skip(1) =~= y);
        assert(x =~= Seq::<char>::empty());
        assert(split_char_spec(s, sep) =~~= seq![x] + split_char_spec(y, sep));
    } else {
        assert(s[0] == x[0]);
        assert(s[0] != sep);
        assert(s.skip(1) =~= x.skip(1) + seq![sep] + y);
        lemma_split_head(x.skip(1), y, sep);
        let rest = split_char_spec(s.skip(1), sep);
        lemma_split_len_pos(y, sep);
        assert(rest[0] == x.skip(1));
        assert(seq![s[0]] + rest[0] =~= x);
        assert(rest.skip(1) =~= split_char_spec(y, sep));
        assert(split_char_spec(s, sep) =~~= seq![x] + split_char_spec(y, sep));
    }
}

/// A separator-free sequence is one single segment.
proof fn lemma_split_whole(x: Seq<char>, sep: char)
    requires
        forall|j: int| 0 <= j < x.len() ==> x[j] != sep,
    ensures
        split_char_spec(x, sep) == seq![x],
    decreases x.len(),
{
    if x.len() != 0 {
        assert(x[0] != sep);
        lemma_split_whole(x.skip(1), sep);
        let rest = split_char_spec(x.skip(1), sep);
        assert(rest[0] == x.skip(1));
        assert(seq![x[0]] + rest[0] =~= x);
        assert(rest.skip(1) =~= Seq::<Seq<char>>::empty());
        assert(split_char_spec(x, sep) =~~= seq![x]);
    } else {
        assert(x =~= Seq::<char>::empty());
        assert(split_char_spec(x, sep) =~~= seq![x]);
    }
}

/// Split a string on a separator character: segments in order, empty
/// segments preserved, no trimming.
pub fn split_on_char(s: &str, sep: char) -> (r: Vec<String>)
    ensures
        views_of(r@) == split_char_spec(s@, sep),
{
    let len = s.unicode_len();
    let mut out: Vec<String> = Vec::new();
    let mut seg_start: usize = 0;
    let mut i: usize = 0;
    proof {
        assert(s@.skip(0) =~= s@);
        assert(views_of(out@) + split_char_spec(s@, sep) =~~= split_char_spec(s@, sep));
    }
    while i < len
        invariant
            len == s@.len(),
            seg_start <= i <= len,
            forall|j: int| seg_start <= j < i ==> s@[j] != sep,
            split_char_spec(s@, sep) == views_of(out@) + split_char_spec(
                s@.skip(seg_start as int),
                sep,
            ),
        decreases len - i,
    {
        if s.get_char(i) == sep {
            let seg = s.substring_char(seg_start, i).to_owned();
            proof {
                let tail = s@.skip(seg_start as int);
                let x = s@.subrange(seg_start as int, i as int);
                let y = s@.skip(i as int + 1);
                assert(forall|j: int| 0 <= j < x.len() ==> x[j] == s@[seg_start + j]);
                assert(tail =~= x + seq![sep] + y);
                lemma_split_head(x, y, sep);
                assert(views_of(out@.push(seg)) =~= views_of(out@).push(seg@));
                assert(views_of(out@) + (seq![x] + split_char_spec(y, sep)) =~~= views_of(
                    out@.push(seg),
                ) + split_char_spec(y, sep));
            }
            out.push(seg);
            seg_start = i + 1;
        }
        i += 1;
    }
    let seg = s.substring_char(seg_start, len).to_owned();
    proof {
        let x = s@.skip(seg_start as int);
        assert(forall|j: int| 0 <= j < x.len() ==> x[j] == s@[seg_start + j]);
        lemma_split_whole(x, sep);
        assert(seg@ =~= x);
        assert(views_of(out@.push(seg)) =~= views_of(out@).push(seg@));
        assert(views_of(out@.push(seg)) =~~= views_of(out@) + seq![x]);
    }
    out.push(seg);
    out
}

// ---------------------------------------------------------------------------
// Trailing-whitespace trimming
// ---------------------------------------------------------------------------

/// The sequence with trailing white space removed.
pub open spec fn trim_end_spec(s: Seq<char>) -> Seq<char>
    decreases s.len(),
{
    if s.len() > 0 && is_space(s[s.len() - 1]) {
        trim_end_spec(s.drop_last())
    } else {
        s
    }
}

fn char_at_is_space(s: &str, end: usize) -> (r: bool)
    requires
        1 <= end <= s@.len(),
    ensures
        r == is_space(s@[end - 1]),
{
    is_space_exec(s.get_char(end - 1))
}

/// Slice of `s` with trailing white space removed, as `str::trim_end` gives
/// it.
pub fn trim_end<'a>(s: &'a str) -> (r: &'a str)
    ensures
        r@ == trim_end_spec(s@),
{
    let len = s.unicode_len();
    let mut end: usize = len;
    proof {
        assert(s@.take(len as int) =~= s@);
    }
    while end > 0 && char_at_is_space(s, end)
        invariant
            end <= len,
            len == s@.len(),
            trim_end_spec(s@) == trim_end_spec(s@.take(end as int)),
        decreases end,
    {
        proof {
            assert(s@.take(end as int).drop_last() =~= s@.take(end - 1));
        }
        end = end - 1;
    }
    proof {
        if end > 0 {
            assert(trim_end_spec(s@.take(end as int)) == s@.take(end as int));
        } else {
            assert(s@.take(0) =~= Seq::<char>::empty());
        }
    }
    s.substring_char(0, end)
}

// ---------------------------------------------------------------------------
// Finding characters
// ---------------------------------------------------------------------------

/// Index of the first occurrence of `c` in `s`, if any.
pub open spec fn find_first(s: Seq<char>, c: char) -> Option<int>
    decreases s.len(),
{
    if s.len() == 0 {
        None
    } else if s[0] == c {
        Some(0int)
    } else {
        match find_first(s.skip(1), c) {
            Some(i) => Some(i + 1),
            None => None,
        }
    }
}

pub proof fn lemma_find_first(s: Seq<char>, c: char)
    ensures
        match find_first(s, c) {
            Some(i) => 0 <= i < s.len() && s[i] == c && (forall|j: int| 0 <= j < i ==> s[j] != c),
            None => forall|j: int| 0 <= j < s.len() ==> s[j] != c,
        },
    decreases s.len(),
{
    if s.len() > 0 && s[0] != c {
        lemma_find_first(s.skip(1), c);
        match find_first(s.skip(1), c) {
            Some(i) => {
                assert(s.skip(1)[i] == c);
                assert(s[i + 1] == c);
                assert forall|j: int| 0 <= j < i + 1 implies s[j] != c by {
                    if j >= 1 {
                        assert(s.skip(1)[j - 1] != c);
                        assert(s[j] == s.skip(1)[j - 1]);
                    }
                }
            },
            None => {
                assert forall|j: int| 0 <= j < s.len() implies s[j] != c by {
                    if j >= 1 {
                        assert(s.skip(1)[j - 1] != c);
                        assert(s[j] == s.skip(1)[j - 1]);
                    }
                }
            },
        }
    }
}

/// Converse direction: the first index with `c` is `find_first`.
pub proof fn lemma_find_first_at(s: Seq<char>, c: char, i: int)
    requires
        0 <= i < s.len(),
        s[i] == c,
        forall|j: int| 0 <= j < i ==> s[j] != c,
    ensures
        find_first(s, c) == Some(i),
    decreases s.len(),
{
    if i > 0 {
        assert(forall|j: int| 0 <= j < s.skip(1).len() ==> s.skip(1)[j] == s[j + 1]);
        lemma_find_first_at(s.skip(1), c, i - 1);
    }
}

/// The key part of a `KEY=VALUE` string: everything before the first `=`,
/// or the whole string without one.
pub open spec fn key_of(s: Seq<char>) -> Seq<char> {
    match find_first(s, '=') {
        Some(i) => s.take(i),
        None => s,
    }
}

/// The value part of a `KEY=VALUE` string: everything after the first `=`,
/// or empty without one.
pub open spec fn val_of(s: Seq<char>) -> Seq<char> {
    match find_first(s, '=') {
        Some(i) => s.skip(i + 1),
        None => Seq::<char>::empty(),
    }
}

/// Executable search for the first occurrence of `c`.
pub fn find_char(s: &str, c: char) -> (r: Option<usize>)
    ensures
        match r {
            Some(i) => find_first(s@, c) == Some(i as int),
            None => find_first(s@, c) is None,
        },
{
    let len = s.unicode_len();
    let mut i: usize = 0;
    while i < len
        invariant
            i <= len,
            len == s@.len(),
            forall|j: int| 0 <= j < i ==> s@[j] != c,
        decreases len - i,
    {
        if s.get_char(i) == c {
            proof {
                lemma_find_first_at(s@, c, i as int);
            }
            return Some(i);
        }
        i += 1;
    }
    proof {
        lemma_find_first(s@, c);
        if find_first(s@, c) is Some {
            let k = find_first(s@, c)->Some_0;
            assert(s@[k] == c);
            assert(false);
        }
    }
    None
}

/// Index of the last occurrence of `c` in `s`, if any.
pub open spec fn find_last(s: Seq<char>, c: char) -> Option<int>
    decreases s.len(),
{
    if s.len() == 0 {
        None
    } else if s[s.len() - 1] == c {
        Some(s.len() - 1)
    } else {
        find_last(s.drop_last(), c)
    }
}

pub proof fn lemma_find_last(s: Seq<char>, c: char)
    ensures
        match find_last(s, c) {
            Some(i) => 0 <= i < s.len() && s[i] == c && (forall|j: int|
                i < j < s.len() ==> s[j] != c),
            None => forall|j: int| 0 <= j < s.len() ==> s[j] != c,
        },
    decreases s.len(),
{
    if s.len() > 0 && s[s.len() - 1] != c {
        lemma_find_last(s.drop_last(), c);
        assert(forall|j: int| 0 <= j < s.drop_last().len() ==> s.drop_last()[j] == s[j]);
    }
}

/// Executable search for the last occurrence of `c`.
pub fn rfind_char(s: &str, c: char) -> (r: Option<usize>)
    ensures
        match r {
            Some(i) => find_last(s@, c) == Some(i as int),
            None => find_last(s@, c) is None,
        },
{
    let len = s.unicode_len();
    let mut j: usize = len;
    proof {
        assert(s@.take(len as int) =~= s@);
    }
    while j > 0
        invariant
            j <= len,
            len == s@.len(),
            find_last(s@, c) == find_last(s@.take(j as int), c),
        decreases j,
    {
        if s.get_char(j - 1) == c {
            proof {
                assert(s@.take(j as int)[j - 1] == s@[j - 1]);
            }
            return Some(j - 1);
        }
        proof {
            assert(s@.take(j as int)[j - 1] == s@[j - 1]);
            assert(s@.take(j as int).drop_last() =~= s@.take(j - 1));
        }
        j = j - 1;
    }
    proof {
        assert(s@.take(0) =~= Seq::<char>::empty());
    }
    None
}

// ---------------------------------------------------------------------------
// Filename stem and extension
// ---------------------------------------------------------------------------

/// Index where the final path component begins (after the last `/`).
pub open spec fn basename_start(s: Seq<char>) -> int {
    match find_last(s, '/') {
        Some(i) => i + 1,
        None => 0,
    }
}

/// The final path component.
pub open spec fn basename_of(s: Seq<char>) -> Seq<char> {
    s.skip(basename_start(s))
}

/// Stem of a final path component: everything before the last `.`, unless
/// that dot is the first character or there is none.
pub open spec fn stem_of_basename(b: Seq<char>) -> Seq<char> {
    match find_last(b, '.') {
        Some(i) => if i > 0 {
            b.take(i)
        } else {
            b
        },
        None => b,
    }
}

/// Stem of a path string: its final component with the extension stripped.
pub open spec fn stem_of(s: Seq<char>) -> Seq<char> {
    stem_of_basename(basename_of(s))
}

/// The path with the final component's extension replaced by (or, when there
/// is none, extended with) `.ext`; a path with an empty final component is
/// returned unchanged, as `PathBuf::set_extension` leaves it.
pub open spec fn with_extension_spec(s: Seq<char>, ext: Seq<char>) -> Seq<char> {
    if basename_of(s).len() == 0 {
        s
    } else {
        s.take(basename_start(s)) + stem_of_basename(basename_of(s)) + seq!['.'] + ext
    }
}

/// Executable stem extraction.
pub fn stem_str(s: &str) -> (r: String)
    ensures
        r@ == stem_of(s@),
{
    let len = s.unicode_len();
    let slash = rfind_char(s, '/');
    proof {
        lemma_find_last(s@, '/');
    }
    let bs: usize = match slash {
        Some(i) => i + 1,
        None => 0,
    };
    proof {
        assert(bs as int == basename_start(s@));
    }
    let base = s.substring_char(bs, len);
    proof {
        assert(base@ =~= basename_of(s@));
    }
    let blen = base.unicode_len();
    let dot = rfind_char(base, '.');
    proof {
        lemma_find_last(base@, '.');
    }
    let stem_end: usize = match dot {
        Some(i) => if i > 0 {
            i
        } else {
            blen
        },
        None => blen,
    };
    proof {
        assert(base@.take(blen as int) =~= base@);
        assert(base@.take(stem_end as int) == stem_of_basename(base@));
    }
    base.substring_char(0, stem_end).to_owned()
}

/// Executable extension replacement.
pub fn with_extension(s: &str, ext: &str) -> (r: String)
    ensures
        r@ == with_extension_spec(s@, ext@),
{
    let len = s.unicode_len();
    let slash = rfind_char(s, '/');
    proof {
        lemma_find_last(s@, '/');
    }
    let bs: usize = match slash {
        Some(i) => i + 1,
        None => 0,
    };
    proof {
        assert(bs as int == basename_start(s@));
    }
    if bs == len {
        proof {
            assert(basename_of(s@).len() == 0);
        }
        return s.to_owned();
    }
    let base = s.substring_char(bs, len);
    proof {
        assert(base@ =~= basename_of(s@));
    }
    let blen = base.unicode_len();
    let dot = rfind_char(base, '.');
    proof {
        lemma_find_last(base@, '.');
    }
    let stem_end: usize = match dot {
        Some(i) => if i > 0 {
            i
        } else {
            blen
        },
        None => blen,
    };
    proof {
        assert(base@.take(blen as int) =~= base@);
        assert(base@.take(stem_end as int) == stem_of_basename(base@));
    }
    let mut r = s.substring_char(0, bs).to_owned();
    r.append(base.substring_char(0, stem_end));
    r.append(".");
    r.append(ext);
    proof {
        reveal_strlit(".");
        assert("."@ =~= seq!['.']);
        assert(r@ =~= with_extension_spec(s@, ext@));
    }
    r
}

// ---------------------------------------------------------------------------
// Decimal digits
// ---------------------------------------------------------------------------

/// The character for a decimal digit value.
pub open spec fn digit_char(d: int) -> char {
    if d == 0 {
        '0'
    } else if d == 1 {
        '1'
    } else if d == 2 {
        '2'
    } else if d == 3 {
        '3'
    } else if d == 4 {
        '4'
    } else if d == 5 {
        '5'
    } else if d == 6 {
        '6'
    } else if d == 7 {
        '7'
    } else if d == 8 {
        '8'
    } else {
        '9'
    }
}

/// Append one decimal digit to a string.
pub fn append_digit(s: &mut String, d: u32)
    requires
        d < 10,
    ensures
        final(s)@ == old(s)@ + seq![digit_char(d as int)],
{
    proof {
        reveal_strlit("0");
        reveal_strlit("1");
        reveal_strlit("2");
        reveal_strlit("3");
        reveal_strlit("4");
        reveal_strlit("5");
        reveal_strlit("6");
        reveal_strlit("7");
        reveal_strlit("8");
        reveal_strlit("9");
        assert("0"@ =~= seq!['0']);
        assert("1"@ =~= seq!['1']);
        assert("2"@ =~= seq!['2']);
        assert("3"@ =~= seq!['3']);
        assert("4"@ =~= seq!['4']);
        assert("5"@ =~= seq!['5']);
        assert("6"@ =~= seq!['6']);
        assert("7"@ =~= seq!['7']);
        assert("8"@ =~= seq!['8']);
        assert("9"@ =~= seq!['9']);
    }
    match d {
        0 => s.append("0"),
        1 => s.append("1"),
        2 => s.append("2"),
        3 => s.append("3"),
        4 => s.append("4"),
        5 => s.append("5"),
        6 => s.append("6"),
        7 => s.append("7"),
        8 => s.append("8"),
        _ => s.append("9"),
    }
}

/// Two-digit zero-padded decimal rendering.
pub open spec fn two_digits(n: int) -> Seq<char> {
    seq![digit_char(n / 10), digit_char(n % 10)]
}

/// Append a number below 100 as two zero-padded digits.
pub fn append_two_digits(s: &mut String, n: u32)
    requires
        n < 100,
    ensures
        final(s)@ == old(s)@ + two_digits(n as int),
{
    append_digit(s, n / 10);
    append_digit(s, n % 10);
    proof {
        assert(final(s)@ =~= old(s)@ + two_digits(n as int));
    }
}

/// Four-digit zero-padded decimal rendering.
pub open spec fn four_digits(n: int) -> Seq<char> {
    seq![
        digit_char(n / 1000),
        digit_char((n / 100) % 10),
        digit_char((n / 10) % 10),
        digit_char(n % 10),
    ]
}

/// Append a number below 10000 as four zero-padded digits.
pub fn append_four_digits(s: &mut String, n: u32)
    requires
        n < 10000,
    ensures
        final(s)@ == old(s)@ + four_digits(n as int),
{
    append_digit(s, n / 1000);
    append_digit(s, (n / 100) % 10);
    append_digit(s, (n / 10) % 10);
    append_digit(s, n % 10);
    proof {
        assert(final(s)@ =~= old(s)@ + four_digits(n as int));
    }
}

} // verus!
