//! Character-level helpers shared by the parsers of this crate.

use vstd::prelude::*;

verus! {

/// `String::push` appends the given character at the end of the string and
/// leaves the rest untouched.
pub assume_specification[ String::push ](s: &mut String, c: char)
    ensures
        final(s)@ == old(s)@.push(c),
;

/// Whether `c` is one of the ASCII letters `A` to `Z`.
pub open spec fn is_upper(c: char) -> bool {
    'A' <= c && c <= 'Z'
}

/// Whether `c` is an ASCII letter of either case.
pub open spec fn is_alpha(c: char) -> bool {
    is_upper(c) || ('a' <= c && c <= 'z')
}

/// The lower-case form of an ASCII upper-case letter; any other character is
/// returned unchanged.
pub open spec fn lower(c: char) -> char {
    if is_upper(c) {
        ((c as u32) + 32) as char
    } else {
        c
    }
}

/// Whether `c` is one of the ASCII letters `A` to `Z`.
pub fn is_ascii_uppercase(c: char) -> (b: bool)
    ensures
        b == is_upper(c),
{
    'A' <= c && c <= 'Z'
}

/// Whether `c` is an ASCII letter of either case.
pub fn is_ascii_alphabetic(c: char) -> (b: bool)
    ensures
        b == is_alpha(c),
{
    ('A' <= c && c <= 'Z') || ('a' <= c && c <= 'z')
}

/// `c` in lower case where it is an ASCII upper-case letter, `c` itself
/// otherwise.
pub fn to_ascii_lowercase(c: char) -> (r: char)
    ensures
        r == lower(c),
{
    if 'A' <= c && c <= 'Z' {
        let code: u8 = c as u8;
        (code + 32) as char
    } else {
        c
    }
}

/// The characters of `s`, in order.
pub fn chars_of(s: &str) -> (v: Vec<char>)
    ensures
        v@ == s@,
{
    let mut v: Vec<char> = Vec::new();
    for c in it: s.chars()
        invariant
            v@ == it.seq().take(it.index() as int),
    {
        v.push(c);
    }
    v
}

/// The string made of the characters `v[from..to]`.
pub fn string_of(v: &Vec<char>, from: usize, to: usize) -> (s: String)
    requires
        from <= to <= v.len(),
    ensures
        s@ == v@.subrange(from as int, to as int),
{
    let mut s = String::new();
    let mut i: usize = from;
    while i < to
        invariant
            from <= i <= to <= v.len(),
            s@ == v@.subrange(from as int, i as int),
        decreases to - i,
    {
        s.push(v[i]);
        i += 1;
    }
    s
}

/// A copy of the characters `v[from..to]`.
pub fn slice_of(v: &Vec<char>, from: usize, to: usize) -> (r: Vec<char>)
    requires
        from <= to <= v.len(),
    ensures
        r@ == v@.subrange(from as int, to as int),
{
    let mut r: Vec<char> = Vec::new();
    let mut i: usize = from;
    while i < to
        invariant
            from <= i <= to <= v.len(),
            r@ == v@.subrange(from as int, i as int),
        decreases to - i,
    {
        r.push(v[i]);
        i += 1;
    }
    r
}

/// The index of the first `c` in `s`, or the length of `s` where it holds
/// none.
pub open spec fn index_of(s: Seq<char>, c: char) -> nat
    decreases s.len(),
{
    if s.len() == 0 || s[0] == c {
        0
    } else {
        1 + index_of(s.drop_first(), c)
    }
}

/// `index_of(s, c)` is the one index within `s`, its length included, that
/// has no `c` before it and, where it is an index into `s`, a `c` at it.
pub proof fn lemma_index_of(s: Seq<char>, c: char, i: int)
    requires
        0 <= i <= s.len(),
        forall|j: int| 0 <= j < i ==> s[j] != c,
        i < s.len() ==> s[i] == c,
    ensures
        index_of(s, c) == i,
    decreases s.len(),
{
    if s.len() == 0 || s[0] == c {
    } else {
        assert(i > 0);
        let t = s.drop_first();
        assert forall|j: int| 0 <= j < i - 1 implies t[j] != c by {
            assert(t[j] == s[j + 1]);
        }
        lemma_index_of(t, c, i - 1);
    }
}

/// `index_of(s, c)` lies within `s`, its length included; no `c` stands
/// before it, and where it is an index into `s` a `c` stands at it.
pub proof fn lemma_index_of_is_first(s: Seq<char>, c: char)
    ensures
        index_of(s, c) <= s.len(),
        forall|j: int| 0 <= j < index_of(s, c) ==> s[j] != c,
        index_of(s, c) < s.len() ==> s[index_of(s, c) as int] == c,
    decreases s.len(),
{
    if s.len() == 0 || s[0] == c {
    } else {
        let t = s.drop_first();
        lemma_index_of_is_first(t, c);
        assert forall|j: int| 0 <= j < index_of(s, c) implies s[j] != c by {
            if j > 0 {
                assert(s[j] == t[j - 1]);
            }
        }
    }
}

/// The index of the first `c` in `v`, or the length of `v` where it holds
/// none.
pub fn find(v: &Vec<char>, c: char) -> (i: usize)
    ensures
        i == index_of(v@, c),
        i <= v.len(),
{
    let mut i: usize = 0;
    while i < v.len() && v[i] != c
        invariant
            i <= v.len(),
            forall|j: int| 0 <= j < i ==> v@[j] != c,
        decreases v.len() - i,
    {
        i += 1;
    }
    proof {
        lemma_index_of(v@, c, i as int);
    }
    i
}

/// The pieces of `s` between the occurrences of `c`, in order: one more than
/// there are occurrences, empty pieces included.
pub open spec fn split(s: Seq<char>, c: char) -> Seq<Seq<char>>
    decreases s.len(),
{
    let i = index_of(s, c) as int;
    if i >= s.len() {
        seq![s]
    } else {
        seq![s.take(i)] + split(s.skip(i + 1), c)
    }
}

/// The contents of each of `pieces`, in the same order.
pub open spec fn piece_views(pieces: Seq<Vec<char>>) -> Seq<Seq<char>> {
    pieces.map_values(|p: Vec<char>| p@)
}

/// The pieces of `v` between the occurrences of `c`.
pub fn split_at_each(v: &Vec<char>, c: char) -> (pieces: Vec<Vec<char>>)
    ensures
        piece_views(pieces@) == split(v@, c),
{
    let mut pieces: Vec<Vec<char>> = Vec::new();
    let mut rest: Vec<char> = slice_of(v, 0, v.len());
    assert(rest@ =~= v@);
    assert(piece_views(pieces@) + split(rest@, c) =~= split(v@, c));
    loop
        invariant
            split(v@, c) == piece_views(pieces@) + split(rest@, c),
        decreases rest.len(),
    {
        let i = find(&rest, c);
        let ghost before = pieces@;
        if i >= rest.len() {
            pieces.push(rest);
            assert(piece_views(pieces@) =~= piece_views(before) + seq![rest@]);
            return pieces;
        }
        let piece = slice_of(&rest, 0, i);
        let after = slice_of(&rest, i + 1, rest.len());
        pieces.push(piece);
        proof {
            assert(piece@ =~= rest@.take(i as int));
            assert(after@ =~= rest@.skip(i + 1));
            assert(piece_views(pieces@) =~= piece_views(before).push(piece@));
            assert(piece_views(before) + (seq![piece@] + split(after@, c)) =~= piece_views(
                before,
            ).push(piece@) + split(after@, c));
        }
        rest = after;
    }
}


/// Whether `c` has the Unicode property `White_Space`: the answer of
/// `char::is_whitespace`.
pub uninterp spec fn is_whitespace(c: char) -> bool;

/// `char::is_whitespace` tells whether the character has the Unicode property
/// `White_Space`; the answer depends on the character alone. Among the ASCII
/// characters, those with the property are the space and the five from the
/// horizontal tab to the carriage return.
pub assume_specification[ char::is_whitespace ](c: char) -> (b: bool)
    ensures
        b == is_whitespace(c),
        c < '\u{80}' ==> b == (c == ' ' || ('\t' <= c && c <= '\r')),
;

/// `s` without the white space it begins with.
pub open spec fn trim_start(s: Seq<char>) -> Seq<char>
    decreases s.len(),
{
    if s.len() > 0 && is_whitespace(s[0]) {
        trim_start(s.drop_first())
    } else {
        s
    }
}

/// `s` without the white space it ends with.
pub open spec fn trim_end(s: Seq<char>) -> Seq<char>
    decreases s.len(),
{
    if s.len() > 0 && is_whitespace(s.last()) {
        trim_end(s.drop_last())
    } else {
        s
    }
}

/// `s` without the white space at either end.
pub open spec fn trim(s: Seq<char>) -> Seq<char> {
    trim_end(trim_start(s))
}

/// The index of the first character of `v` that is no white space, or the
/// length of `v`.
fn skip_whitespace(v: &Vec<char>) -> (i: usize)
    ensures
        i <= v.len(),
        v@.skip(i as int) == trim_start(v@),
{
    let mut i: usize = 0;
    assert(v@.skip(0) =~= v@);
    while i < v.len() && v[i].is_whitespace()
        invariant
            i <= v.len(),
            trim_start(v@.skip(i as int)) == trim_start(v@),
        decreases v.len() - i,
    {
        assert(v@.skip(i as int).drop_first() =~= v@.skip(i + 1));
        i += 1;
    }
    i
}

/// A copy of `v` without the white space it begins with.
pub fn trimmed_start(v: &Vec<char>) -> (r: Vec<char>)
    ensures
        r@ == trim_start(v@),
{
    let from = skip_whitespace(v);
    slice_of(v, from, v.len())
}

/// A copy of `v` without the white space at either end.
pub fn trimmed(v: &Vec<char>) -> (r: Vec<char>)
    ensures
        r@ == trim(v@),
{
    let from = skip_whitespace(v);
    let mut to: usize = v.len();
    assert(v@.subrange(from as int, to as int) =~= v@.skip(from as int));
    while to > from && v[to - 1].is_whitespace()
        invariant
            from <= to <= v.len(),
            trim_end(v@.subrange(from as int, to as int)) == trim(v@),
        decreases to - from,
    {
        assert(v@.subrange(from as int, to as int).drop_last() =~= v@.subrange(
            from as int,
            to - 1,
        ));
        to -= 1;
    }
    slice_of(v, from, to)
}

/// `s` with a line feed alone in place of every line feed that a carriage
/// return follows.
pub open spec fn fold_line_ends(s: Seq<char>) -> Seq<char>
    decreases s.len(),
{
    if s.len() == 0 {
        s
    } else if s.len() >= 2 && s[0] == '\n' && s[1] == '\r' {
        seq!['\n'] + fold_line_ends(s.skip(2))
    } else {
        seq![s[0]] + fold_line_ends(s.skip(1))
    }
}

/// A copy of `v` with a line feed alone in place of every line feed that a
/// carriage return follows.
pub fn folded_line_ends(v: &Vec<char>) -> (r: Vec<char>)
    ensures
        r@ == fold_line_ends(v@),
{
    let mut r: Vec<char> = Vec::new();
    let mut i: usize = 0;
    assert(v@.skip(0) =~= v@);
    assert(r@ + fold_line_ends(v@) =~= fold_line_ends(v@));
    while i < v.len()
        invariant
            i <= v.len(),
            fold_line_ends(v@) == r@ + fold_line_ends(v@.skip(i as int)),
        decreases v.len() - i,
    {
        let ghost s = v@.skip(i as int);
        let ghost before = r@;
        if v[i] == '\n' && v.len() - i >= 2 && v[i + 1] == '\r' {
            r.push('\n');
            proof {
                assert(s.skip(2) =~= v@.skip(i + 2));
                assert(before + (seq!['\n'] + fold_line_ends(s.skip(2))) =~= before.push('\n')
                    + fold_line_ends(s.skip(2)));
            }
            i += 2;
        } else {
            r.push(v[i]);
            proof {
                assert(s.skip(1) =~= v@.skip(i + 1));
                assert(before + (seq![s[0]] + fold_line_ends(s.skip(1))) =~= before.push(s[0])
                    + fold_line_ends(s.skip(1)));
            }
            i += 1;
        }
    }
    assert(r@ + fold_line_ends(v@.skip(i as int)) =~= r@);
    r
}

/// The index of the first line feed of `s` that another line feed follows at
/// once, or the length of `s` where it holds no such pair.
pub open spec fn blank_line(s: Seq<char>) -> nat
    decreases s.len(),
{
    if s.len() < 2 {
        s.len()
    } else if s[0] == '\n' && s[1] == '\n' {
        0
    } else {
        1 + blank_line(s.drop_first())
    }
}

/// `blank_line(s)` lies within `s`, its length included. No line feed
/// before it has another follow it at once, and where it is an index into
/// `s`, it and the next index hold line feeds.
pub proof fn lemma_blank_line_is_first(s: Seq<char>)
    ensures
        blank_line(s) <= s.len(),
        forall|j: int|
            0 <= j < blank_line(s) && j + 1 < s.len() ==> !(s[j] == '\n' && #[trigger] s[j + 1]
                == '\n'),
        blank_line(s) < s.len() ==> blank_line(s) + 1 < s.len() && s[blank_line(s) as int]
            == '\n' && s[blank_line(s) as int + 1] == '\n',
    decreases s.len(),
{
    if s.len() < 2 {
    } else if s[0] == '\n' && s[1] == '\n' {
    } else {
        let t = s.drop_first();
        lemma_blank_line_is_first(t);
        assert forall|j: int| 0 <= j < blank_line(s) && j + 1 < s.len() implies !(s[j] == '\n'
            && #[trigger] s[j + 1] == '\n') by {
            if j > 0 {
                assert(s[j] == t[j - 1]);
                assert(s[j + 1] == t[j - 1 + 1]);
            }
        }
    }
}

/// A text in which no line feed has another follow it at once has no blank
/// line.
pub proof fn lemma_no_blank_line(s: Seq<char>)
    requires
        forall|j: int| 0 <= j && j + 1 < s.len() ==> !(s[j] == '\n' && #[trigger] s[j + 1] == '\n'),
    ensures
        blank_line(s) == s.len(),
    decreases s.len(),
{
    if s.len() < 2 {
    } else {
        assert(!(s[0] == '\n' && s[0int + 1] == '\n'));
        let t = s.drop_first();
        assert forall|j: int| 0 <= j && j + 1 < t.len() implies !(t[j] == '\n' && #[trigger] t[j
            + 1] == '\n') by {
            assert(t[j] == s[j + 1]);
            assert(t[j + 1] == s[j + 1 + 1]);
        }
        lemma_no_blank_line(t);
    }
}

/// The index of the first line feed of `v` that another line feed follows at
/// once, or the length of `v`.
pub fn find_blank_line(v: &Vec<char>) -> (i: usize)
    ensures
        i == blank_line(v@),
        i < v.len() ==> i + 2 <= v.len(),
{
    let mut i: usize = 0;
    assert(v@.skip(0) =~= v@);
    while v.len() - i >= 2 && !(v[i] == '\n' && v[i + 1] == '\n')
        invariant
            i <= v.len(),
            blank_line(v@) == i + blank_line(v@.skip(i as int)),
        decreases v.len() - i,
    {
        assert(v@.skip(i as int).drop_first() =~= v@.skip(i + 1));
        i += 1;
    }
    if v.len() - i < 2 {
        v.len()
    } else {
        i
    }
}

/// Whether `c` is one of the digits `0` to `9`.
pub open spec fn is_digit(c: char) -> bool {
    '0' <= c && c <= '9'
}

/// The number that the decimal digits `s` write; 0 for no digits.
pub open spec fn digits_value(s: Seq<char>) -> nat
    decreases s.len(),
{
    if s.len() == 0 {
        0
    } else {
        10 * digits_value(s.drop_last()) + (s.last() as nat - '0' as nat) as nat
    }
}

/// Whether `s` holds digits only.
pub open spec fn all_digits(s: Seq<char>) -> bool {
    forall|i: int| 0 <= i < s.len() ==> is_digit(#[trigger] s[i])
}

/// `s` without the `+` it may begin with.
pub open spec fn unsigned_part(s: Seq<char>) -> Seq<char> {
    if s.len() > 0 && s[0] == '+' {
        s.drop_first()
    } else {
        s
    }
}

/// The number that `s` writes in decimal: an optional `+`, then at least one
/// digit and nothing else, the whole no greater than `u32::MAX`. `None` for
/// any other text.
pub open spec fn decimal_u32(s: Seq<char>) -> Option<u32> {
    let d = unsigned_part(s);
    if d.len() > 0 && all_digits(d) && digits_value(d) <= u32::MAX {
        Some(digits_value(d) as u32)
    } else {
        None
    }
}

/// Digits that begin a longer run of digits write no greater a number.
pub proof fn lemma_digits_value_grows(s: Seq<char>, k: int)
    requires
        0 <= k <= s.len(),
        all_digits(s),
    ensures
        digits_value(s.take(k)) <= digits_value(s),
    decreases s.len(),
{
    if k == s.len() {
        assert(s.take(k) =~= s);
    } else {
        let t = s.drop_last();
        assert(t.take(k) =~= s.take(k));
        assert(all_digits(t)) by {
            assert forall|i: int| 0 <= i < t.len() implies is_digit(#[trigger] t[i]) by {
                assert(t[i] == s[i]);
            }
        }
        lemma_digits_value_grows(t, k);
    }
}

/// The number that `v` writes in decimal, if it writes one that a `u32`
/// holds.
pub fn parse_u32(v: &Vec<char>) -> (r: Option<u32>)
    ensures
        r == decimal_u32(v@),
{
    let from: usize = if v.len() > 0 && v[0] == '+' {
        1
    } else {
        0
    };
    let ghost d = unsigned_part(v@);
    assert(d =~= v@.skip(from as int));
    if from == v.len() {
        return None;
    }
    let mut value: u64 = 0;
    let mut i: usize = from;
    assert(d.take(0) =~= Seq::<char>::empty());
    while i < v.len()
        invariant
            from <= i <= v.len(),
            d == unsigned_part(v@),
            d == v@.skip(from as int),
            all_digits(d.take(i - from)),
            value == digits_value(d.take(i - from)),
            value <= u32::MAX,
        decreases v.len() - i,
    {
        let c = v[i];
        assert(d[i - from] == c);
        if !('0' <= c && c <= '9') {
            assert(!is_digit(d[i - from]));
            return None;
        }
        let digit: u64 = (c as u32 - '0' as u32) as u64;
        let ghost prefix = d.take(i - from + 1);
        proof {
            assert(prefix.drop_last() =~= d.take(i - from));
            assert(prefix.last() == c);
            assert(all_digits(prefix)) by {
                assert forall|j: int| 0 <= j < prefix.len() implies is_digit(
                    #[trigger] prefix[j],
                ) by {
                    if j < i - from {
                        assert(prefix[j] == d.take(i - from)[j]);
                    }
                }
            }
        }
        let next: u64 = 10 * value + digit;
        assert(next == digits_value(prefix));
        if next > 0xffff_ffff {
            proof {
                if all_digits(d) {
                    lemma_digits_value_grows(d, i - from + 1);
                }
            }
            return None;
        }
        value = next;
        i += 1;
    }
    assert(d.take(i - from) =~= d);
    Some(value as u32)
}

/// A string with the characters of `v`.
pub fn string_from(v: &Vec<char>) -> (s: String)
    ensures
        s@ == v@,
{
    let s = string_of(v, 0, v.len());
    assert(v@.subrange(0, v.len() as int) =~= v@);
    s
}

} // verus!
