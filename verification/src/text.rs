//! Strings as sequences of characters: comparing, cutting, joining, trimming
//! and escaping them, and changing their case.

use vstd::prelude::*;
use vstd::utf8::*;

use crate::number::digit;
use crate::outside::{
    lowercase, lowercase_string, uppercase, uppercase_string, utf8_lossy, utf8_lossy_string,
};

verus! {

// ---------------------------------------------------------------------------
// Comparing
// ---------------------------------------------------------------------------

/// Whether two strings hold the same characters.
pub fn same(a: &str, b: &str) -> (r: bool)
    ensures
        r == (a@ == b@),
{
    let x = a.as_bytes();
    let y = b.as_bytes();
    proof {
        encode_utf8_decode_utf8(a@);
        encode_utf8_decode_utf8(b@);
    }
    if x.len() != y.len() {
        return false;
    }
    let mut i: usize = 0;
    while i < x.len()
        invariant
            i <= x@.len(),
            x@.len() == y@.len(),
            x@ == encode_utf8(a@),
            y@ == encode_utf8(b@),
            forall|j: int| 0 <= j < i ==> x@[j] == y@[j],
        decreases x@.len() - i,
    {
        if x[i] != y[i] {
            return false;
        }
        i += 1;
    }
    assert(x@ =~= y@);
    true
}

/// Whether an optional string is present and equal to `wanted`.
pub fn is_text(value: &Option<String>, wanted: &str) -> (r: bool)
    ensures
        r == (value is Some && value->0@ == wanted@),
{
    match value {
        Some(v) => same(v.as_str(), wanted),
        None => false,
    }
}

/// The view of an optional string.
pub open spec fn opt_view(value: Option<String>) -> Option<Seq<char>> {
    match value {
        Some(v) => Some(v@),
        None => None,
    }
}

/// A copy of an optional string.
pub fn copy_opt(value: &Option<String>) -> (r: Option<String>)
    ensures
        r == *value,
{
    match value {
        Some(v) => Some(v.clone()),
        None => None,
    }
}

/// Dictionary order from position `i` on: the first difference decides, and a
/// proper prefix comes first.
pub open spec fn precedes_from(a: Seq<char>, b: Seq<char>, i: int) -> bool
    decreases a.len() - i,
{
    if i < 0 || i >= b.len() {
        false
    } else if i >= a.len() {
        true
    } else if a[i] == b[i] {
        precedes_from(a, b, i + 1)
    } else {
        (a[i] as u32) < (b[i] as u32)
    }
}

/// Dictionary order of strings by code point, which is also the byte order of
/// their UTF-8 encodings.
pub open spec fn precedes(a: Seq<char>, b: Seq<char>) -> bool {
    precedes_from(a, b, 0)
}

proof fn precedes_from_total(a: Seq<char>, b: Seq<char>, i: int)
    requires
        0 <= i <= a.len(),
        i <= b.len(),
        a.take(i) == b.take(i),
    ensures
        precedes_from(a, b, i) || precedes_from(b, a, i) || a == b,
    decreases a.len() - i,
{
    if i < a.len() && i < b.len() && a[i] == b[i] {
        assert(a.take(i + 1) =~= a.take(i).push(a[i]));
        assert(b.take(i + 1) =~= b.take(i).push(b[i]));
        precedes_from_total(a, b, i + 1);
    } else if i < a.len() && i < b.len() {
        char_u32_cast(a[i], a[i] as u32);
        char_u32_cast(b[i], b[i] as u32);
    } else if i == a.len() && i == b.len() {
        assert(a.take(i) =~= a);
        assert(b.take(i) =~= b);
    }
}

proof fn precedes_from_asymmetric(a: Seq<char>, b: Seq<char>, i: int)
    ensures
        !(precedes_from(a, b, i) && precedes_from(b, a, i)),
    decreases a.len() - i,
{
    if 0 <= i < a.len() && i < b.len() && a[i] == b[i] {
        precedes_from_asymmetric(a, b, i + 1);
    }
}

proof fn precedes_from_transitive(a: Seq<char>, b: Seq<char>, c: Seq<char>, i: int)
    requires
        precedes_from(a, b, i),
        precedes_from(b, c, i),
    ensures
        precedes_from(a, c, i),
    decreases a.len() - i,
{
    if 0 <= i < a.len() && i < b.len() && i < c.len() && a[i] == b[i] && b[i] == c[i] {
        precedes_from_transitive(a, b, c, i + 1);
    }
}

/// Two strings are equal, or one of them comes first.
pub proof fn precedes_total(a: Seq<char>, b: Seq<char>)
    ensures
        precedes(a, b) || precedes(b, a) || a == b,
{
    assert(a.take(0) =~= b.take(0));
    precedes_from_total(a, b, 0);
}

/// No two strings come before each other; in particular, none comes before
/// itself.
pub proof fn precedes_asymmetric(a: Seq<char>, b: Seq<char>)
    ensures
        !(precedes(a, b) && precedes(b, a)),
        !precedes(a, a),
{
    precedes_from_asymmetric(a, b, 0);
    precedes_from_asymmetric(a, a, 0);
}

/// The order of strings is transitive.
pub proof fn precedes_transitive(a: Seq<char>, b: Seq<char>, c: Seq<char>)
    requires
        precedes(a, b),
        precedes(b, c),
    ensures
        precedes(a, c),
{
    precedes_from_transitive(a, b, c, 0);
}

/// Whether `a` comes before `b` in dictionary order.
pub fn comes_before(a: &str, b: &str) -> (r: bool)
    ensures
        r == precedes(a@, b@),
{
    let x = chars_of(a);
    let y = chars_of(b);
    let mut i: usize = 0;
    while i < x.len() && i < y.len() && x[i] == y[i]
        invariant
            x@ == a@,
            y@ == b@,
            i <= x@.len(),
            i <= y@.len(),
            precedes(a@, b@) == precedes_from(a@, b@, i as int),
        decreases x@.len() - i,
    {
        i += 1;
    }
    if i >= y.len() {
        false
    } else if i >= x.len() {
        true
    } else {
        (x[i] as u32) < (y[i] as u32)
    }
}

// ---------------------------------------------------------------------------
// Characters
// ---------------------------------------------------------------------------

/// The characters of a string.
pub fn chars_of(s: &str) -> (r: Vec<char>)
    ensures
        r@ == s@,
{
    let mut out: Vec<char> = Vec::new();
    for c in it: s.chars()
        invariant
            it.seq() == s@,
            out@ == s@.take(it.index() as int),
    {
        out.push(c);
        assert(out@ == s@.take(it.index() as int + 1));
    }
    assert(s@.take(s@.len() as int) == s@);
    out
}

/// The string made of the characters from position `from` up to `to`.
pub fn string_of(chars: &Vec<char>, from: usize, to: usize) -> (r: String)
    requires
        from <= to <= chars@.len(),
    ensures
        r@ == chars@.subrange(from as int, to as int),
{
    let mut out = String::new();
    let mut i: usize = from;
    while i < to
        invariant
            from <= i <= to <= chars@.len(),
            out@ == chars@.subrange(from as int, i as int),
        decreases to - i,
    {
        out.push(chars[i]);
        i += 1;
        assert(out@ =~= chars@.subrange(from as int, i as int));
    }
    out
}

/// Whether `c` occurs in `s`.
pub fn contains_char(s: &str, c: char) -> (r: bool)
    ensures
        r == s@.contains(c),
{
    let chars = chars_of(s);
    let mut i: usize = 0;
    while i < chars.len()
        invariant
            chars@ == s@,
            i <= chars@.len(),
            forall|j: int| 0 <= j < i ==> s@[j] != c,
        decreases chars@.len() - i,
    {
        if chars[i] == c {
            assert(s@[i as int] == c);
            return true;
        }
        i += 1;
    }
    false
}

/// Whether the first character of `s` is `c`.
pub fn starts_with_char(s: &str, c: char) -> (r: bool)
    ensures
        r == (s@.len() > 0 && s@[0] == c),
{
    let chars = chars_of(s);
    chars.len() > 0 && chars[0] == c
}

/// Whether the last character of `s` is `c`.
pub fn ends_with_char(s: &str, c: char) -> (r: bool)
    ensures
        r == (s@.len() > 0 && s@.last() == c),
{
    let chars = chars_of(s);
    chars.len() > 0 && chars[chars.len() - 1] == c
}

/// `tail` is the end of `s`.
pub open spec fn has_suffix(s: Seq<char>, tail: Seq<char>) -> bool {
    tail.len() <= s.len() && s.skip(s.len() - tail.len()) == tail
}

/// `s` without its last `tail.len()` characters.
pub open spec fn without_suffix(s: Seq<char>, tail: Seq<char>) -> Seq<char> {
    s.take(s.len() - tail.len())
}

/// What is left of `s` when `tail` is cut off its end, if it ends so.
pub fn strip_suffix(s: &str, tail: &str) -> (r: Option<String>)
    ensures
        r is Some == has_suffix(s@, tail@),
        r is Some ==> r->0@ == without_suffix(s@, tail@),
{
    let x = chars_of(s);
    let y = chars_of(tail);
    if y.len() > x.len() {
        return None;
    }
    let cut: usize = x.len() - y.len();
    let mut i: usize = 0;
    while i < y.len()
        invariant
            x@ == s@,
            y@ == tail@,
            cut + y@.len() == x.len(),
            i <= y@.len() <= x@.len(),
            forall|j: int| 0 <= j < i ==> x@[cut + j] == y@[j],
        decreases y@.len() - i,
    {
        if x[cut + i] != y[i] {
            assert(s@.skip(cut as int)[i as int] != tail@[i as int]);
            return None;
        }
        i += 1;
    }
    assert(s@.skip(cut as int) =~= tail@);
    let head = string_of(&x, 0, cut);
    assert(head@ =~= without_suffix(s@, tail@));
    Some(head)
}

/// `part` occurs in `s` at some position.
pub open spec fn has_part(s: Seq<char>, part: Seq<char>) -> bool {
    exists|i: int| part_at(s, part, i)
}

/// `part` occurs in `s` at position `i`.
pub open spec fn part_at(s: Seq<char>, part: Seq<char>, i: int) -> bool {
    0 <= i && i + part.len() <= s.len() && s.subrange(i, i + part.len()) == part
}

/// Whether `part` occurs in `s`.
pub fn contains_part(s: &str, part: &str) -> (r: bool)
    ensures
        r == has_part(s@, part@),
{
    let x = chars_of(s);
    let y = chars_of(part);
    if y.len() > x.len() {
        return false;
    }
    let last: usize = x.len() - y.len();
    let mut i: usize = 0;
    loop
        invariant
            x@ == s@,
            y@ == part@,
            last == x@.len() - y@.len(),
            y@.len() <= x@.len(),
            i <= last,
            forall|k: int| 0 <= k < i ==> !part_at(s@, part@, k),
        decreases last - i,
    {
        let mut j: usize = 0;
        while j < y.len() && x[i + j] == y[j]
            invariant
                x@ == s@,
                y@ == part@,
                i + y@.len() <= x.len(),
                j <= y@.len(),
                forall|k: int| 0 <= k < j ==> x@[i + k] == y@[k],
            decreases y@.len() - j,
        {
            j += 1;
        }
        if j == y.len() {
            assert(s@.subrange(i as int, i + part@.len()) =~= part@);
            assert(part_at(s@, part@, i as int));
            return true;
        }
        assert(!part_at(s@, part@, i as int)) by {
            if part_at(s@, part@, i as int) {
                assert(s@.subrange(i as int, i + part@.len())[j as int] == part@[j as int]);
            }
        }
        if i == last {
            return false;
        }
        i += 1;
    }
}

// ---------------------------------------------------------------------------
// Joining
// ---------------------------------------------------------------------------

/// Two strings in a row.
pub fn cat2(a: &str, b: &str) -> (r: String)
    ensures
        r@ == a@ + b@,
{
    let mut out = a.to_string();
    out.append(b);
    out
}

/// Three strings in a row.
pub fn cat3(a: &str, b: &str, c: &str) -> (r: String)
    ensures
        r@ == a@ + b@ + c@,
{
    let mut out = cat2(a, b);
    out.append(c);
    out
}

/// Four strings in a row.
pub fn cat4(a: &str, b: &str, c: &str, d: &str) -> (r: String)
    ensures
        r@ == a@ + b@ + c@ + d@,
{
    let mut out = cat3(a, b, c);
    out.append(d);
    out
}

/// Five strings in a row.
pub fn cat5(a: &str, b: &str, c: &str, d: &str, e: &str) -> (r: String)
    ensures
        r@ == a@ + b@ + c@ + d@ + e@,
{
    let mut out = cat4(a, b, c, d);
    out.append(e);
    out
}

// ---------------------------------------------------------------------------
// Splitting
// ---------------------------------------------------------------------------

/// The pieces of `s` between occurrences of `sep`: one more than `sep` occurs,
/// empty ones included.
pub open spec fn pieces(s: Seq<char>, sep: char) -> Seq<Seq<char>>
    decreases s.len(),
{
    if s.len() == 0 {
        seq![Seq::<char>::empty()]
    } else {
        let before = pieces(s.drop_last(), sep);
        if s.last() == sep {
            before.push(Seq::<char>::empty())
        } else {
            before.drop_last().push(before.last().push(s.last()))
        }
    }
}

/// `parts` with `sep` between neighbours.
pub open spec fn joined(parts: Seq<Seq<char>>, sep: char) -> Seq<char>
    decreases parts.len(),
{
    if parts.len() == 0 {
        Seq::empty()
    } else if parts.len() == 1 {
        parts[0]
    } else {
        joined(parts.drop_last(), sep).push(sep) + parts.last()
    }
}

/// Splitting loses nothing: there is at least one piece, no piece holds the
/// separator, and the pieces joined by it are the string again.
pub proof fn pieces_joined(s: Seq<char>, sep: char)
    ensures
        pieces(s, sep).len() > 0,
        joined(pieces(s, sep), sep) == s,
        forall|i: int| 0 <= i < pieces(s, sep).len() ==> !(#[trigger] pieces(s, sep)[i]).contains(sep),
    decreases s.len(),
{
    if s.len() == 0 {
        assert(joined(pieces(s, sep), sep) =~= s);
    } else {
        let init = s.drop_last();
        let before = pieces(init, sep);
        let now = pieces(s, sep);
        pieces_joined(init, sep);
        assert(s =~= init.push(s.last()));
        if s.last() == sep {
            assert(now.drop_last() =~= before);
            assert(joined(now, sep) =~= s);
        } else {
            assert(now.drop_last() =~= before.drop_last());
            assert(now.last() == before.last().push(s.last()));
            if before.len() == 1 {
                assert(joined(now, sep) =~= s);
            } else {
                assert(joined(before, sep) == joined(before.drop_last(), sep).push(sep) + before.last());
                assert(joined(now, sep) =~= s);
            }
            assert forall|i: int| 0 <= i < now.len() implies !(#[trigger] now[i]).contains(sep) by {
                if i < now.len() - 1 {
                    assert(now[i] == before[i]);
                } else {
                    let old_piece = before.last();
                    assert(!old_piece.contains(sep));
                    if now[i].contains(sep) {
                        let k = choose|k: int| 0 <= k < now[i].len() && now[i][k] == sep;
                        assert(old_piece[k] == sep);
                    }
                }
            }
        }
    }
}

/// The views of a list of strings.
pub open spec fn views(list: Seq<String>) -> Seq<Seq<char>> {
    list.map_values(|s: String| s@)
}

/// Splits `s` at every `sep`.
pub fn split(s: &str, sep: char) -> (r: Vec<String>)
    ensures
        views(r@) == pieces(s@, sep),
        r@.len() > 0,
{
    let chars = chars_of(s);
    let mut done: Vec<String> = Vec::new();
    let mut current = String::new();
    let mut i: usize = 0;
    assert(views(done@).push(current@) =~= pieces(s@.take(0), sep));
    while i < chars.len()
        invariant
            chars@ == s@,
            i <= chars@.len(),
            views(done@).push(current@) == pieces(s@.take(i as int), sep),
        decreases chars@.len() - i,
    {
        let c = chars[i];
        let ghost before = pieces(s@.take(i as int), sep);
        let ghost done_before = done@;
        let ghost current_before = current@;
        assert(s@.take(i + 1).drop_last() =~= s@.take(i as int));
        assert(s@.take(i + 1).last() == c);
        assert(before.drop_last() =~= views(done_before));
        assert(before.last() == current_before);
        if c == sep {
            done.push(current);
            current = String::new();
            assert(views(done@) =~= views(done_before).push(current_before));
        } else {
            current.push(c);
        }
        i += 1;
        assert(views(done@).push(current@) =~= pieces(s@.take(i as int), sep));
    }
    assert(s@.take(i as int) =~= s@);
    let ghost done_before = done@;
    done.push(current);
    assert(views(done@) =~= views(done_before).push(current@));
    done
}

/// The position of the first `c` in `s`, or its length if there is none.
pub open spec fn first_at(s: Seq<char>, c: char) -> int
    decreases s.len(),
{
    if s.len() == 0 {
        0
    } else if s[0] == c {
        0
    } else {
        1 + first_at(s.skip(1), c)
    }
}

/// `first_at` is the only position with no `c` before it at which `c` stands
/// or the string ends.
pub proof fn first_at_is_first(s: Seq<char>, c: char, n: int)
    requires
        0 <= n <= s.len(),
        forall|i: int| 0 <= i < n ==> s[i] != c,
        n < s.len() ==> s[n] == c,
    ensures
        first_at(s, c) == n,
    decreases s.len(),
{
    if s.len() > 0 && s[0] != c {
        assert forall|i: int| 0 <= i < n - 1 implies s.skip(1)[i] != c by {
            assert(s[i + 1] != c);
        }
        first_at_is_first(s.skip(1), c, n - 1);
    }
}

/// A string is cut at its first `c` in one way only.
pub proof fn cut_at_first(a1: Seq<char>, b1: Seq<char>, a2: Seq<char>, b2: Seq<char>, c: char)
    requires
        !a1.contains(c),
        !a2.contains(c),
        a1 + seq![c] + b1 == a2 + seq![c] + b2,
    ensures
        a1 == a2,
        b1 == b2,
{
    let s1 = a1 + seq![c] + b1;
    let s2 = a2 + seq![c] + b2;
    assert forall|i: int| 0 <= i < a1.len() implies s1[i] != c by {
        assert(s1[i] == a1[i]);
    }
    assert forall|i: int| 0 <= i < a2.len() implies s2[i] != c by {
        assert(s2[i] == a2[i]);
    }
    assert(s1[a1.len() as int] == c);
    assert(s2[a2.len() as int] == c);
    first_at_is_first(s1, c, a1.len() as int);
    first_at_is_first(s2, c, a2.len() as int);
    assert(s1.take(a1.len() as int) =~= a1);
    assert(s2.take(a2.len() as int) =~= a2);
    assert(s1.skip(a1.len() as int + 1) =~= b1);
    assert(s2.skip(a2.len() as int + 1) =~= b2);
}

/// The position of the first `c` among `chars`, or their number.
pub fn find_char(chars: &Vec<char>, c: char) -> (r: usize)
    ensures
        r == first_at(chars@, c),
        r <= chars@.len(),
        r < chars@.len() <==> chars@.contains(c),
        forall|i: int| 0 <= i < r ==> chars@[i] != c,
{
    let mut i: usize = 0;
    while i < chars.len() && chars[i] != c
        invariant
            i <= chars@.len(),
            forall|j: int| 0 <= j < i ==> chars@[j] != c,
        decreases chars@.len() - i,
    {
        i += 1;
    }
    proof {
        first_at_is_first(chars@, c, i as int);
    }
    i
}

// ---------------------------------------------------------------------------
// White space
// ---------------------------------------------------------------------------

/// The Unicode characters with the White_Space property.
pub open spec fn is_white(c: char) -> bool {
    let p = c as u32;
    ||| 0x9 <= p <= 0xd
    ||| p == 0x20
    ||| p == 0x85
    ||| p == 0xa0
    ||| p == 0x1680
    ||| 0x2000 <= p <= 0x200a
    ||| p == 0x2028
    ||| p == 0x2029
    ||| p == 0x202f
    ||| p == 0x205f
    ||| p == 0x3000
}

/// Whether `c` is white space.
pub fn white(c: char) -> (r: bool)
    ensures
        r == is_white(c),
{
    let p: u32 = c as u32;
    (0x9 <= p && p <= 0xd) || p == 0x20 || p == 0x85 || p == 0xa0 || p == 0x1680 || (0x2000 <= p && p
        <= 0x200a) || p == 0x2028 || p == 0x2029 || p == 0x202f || p == 0x205f || p == 0x3000
}

/// How many characters at the start of `s` are white space (or, with `w`
/// false, are not).
pub open spec fn run_length(s: Seq<char>, w: bool) -> nat
    decreases s.len(),
{
    if s.len() == 0 || is_white(s[0]) != w {
        0
    } else {
        1 + run_length(s.skip(1), w)
    }
}

/// How many characters at the end of `s` are white space.
pub open spec fn white_tail(s: Seq<char>) -> nat
    decreases s.len(),
{
    if s.len() == 0 || !is_white(s.last()) {
        0
    } else {
        1 + white_tail(s.drop_last())
    }
}

/// `s` without white space at its start.
pub open spec fn left_trimmed(s: Seq<char>) -> Seq<char> {
    s.skip(run_length(s, true) as int)
}

/// `s` without white space at either end.
pub open spec fn trimmed(s: Seq<char>) -> Seq<char> {
    let t = left_trimmed(s);
    t.take(t.len() - white_tail(t))
}

/// The end of the run of white space (or of its opposite) that starts at `from`.
fn run_end(chars: &Vec<char>, from: usize, w: bool) -> (r: usize)
    requires
        from <= chars@.len(),
    ensures
        from <= r <= chars@.len(),
        r - from == run_length(chars@.skip(from as int), w),
{
    let mut i: usize = from;
    assert(chars@.skip(i as int) =~= chars@.skip(from as int));
    while i < chars.len() && white(chars[i]) == w
        invariant
            from <= i <= chars@.len(),
            run_length(chars@.skip(from as int), w) == i - from + run_length(chars@.skip(i as int), w),
        decreases chars@.len() - i,
    {
        assert(chars@.skip(i as int).skip(1) =~= chars@.skip(i + 1));
        assert(chars@.skip(i as int)[0] == chars@[i as int]);
        i += 1;
    }
    assert(i < chars@.len() ==> chars@.skip(i as int)[0] == chars@[i as int]);
    i
}

/// `s` without white space at either end.
pub fn trim(s: &str) -> (r: String)
    ensures
        r@ == trimmed(s@),
{
    let chars = chars_of(s);
    assert(chars@.skip(0) =~= s@);
    let from: usize = run_end(&chars, 0, true);
    let mut to: usize = chars.len();
    let ghost t = left_trimmed(s@);
    assert(t.take(to - from) =~= t);
    while to > from && white(chars[to - 1])
        invariant
            chars@ == s@,
            t == s@.skip(from as int),
            from <= to <= chars@.len(),
            white_tail(t) == chars@.len() - to + white_tail(t.take(to - from)),
        decreases to,
    {
        assert(t.take(to - from).drop_last() =~= t.take(to - from - 1));
        assert(t.take(to - from).last() == chars@[to - 1]);
        to -= 1;
    }
    proof {
        assert(to > from ==> t.take(to - from).last() == chars@[to - 1]);
        assert(white_tail(t.take(to - from)) == 0);
        assert(s@.subrange(from as int, to as int) =~= trimmed(s@));
    }
    string_of(&chars, from, to)
}

/// The second word of `s`, words being separated by white space; empty if
/// there are fewer than two.
pub open spec fn second_word(s: Seq<char>) -> Seq<char> {
    let first = left_trimmed(s);
    let rest = left_trimmed(first.skip(run_length(first, false) as int));
    rest.take(run_length(rest, false) as int)
}

/// The second word of `s`.
pub fn word_after_first(s: &str) -> (r: String)
    ensures
        r@ == second_word(s@),
{
    let chars = chars_of(s);
    assert(chars@.skip(0) =~= s@);
    let a: usize = run_end(&chars, 0, true);
    let b: usize = run_end(&chars, a, false);
    let c: usize = run_end(&chars, b, true);
    let d: usize = run_end(&chars, c, false);
    proof {
        let first = left_trimmed(s@);
        assert(first == s@.skip(a as int));
        assert(first.skip(b - a) =~= s@.skip(b as int));
        let rest = left_trimmed(first.skip(b - a));
        assert(rest =~= s@.skip(c as int));
        assert(s@.subrange(c as int, d as int) =~= second_word(s@));
    }
    string_of(&chars, c, d)
}

/// `s` without any `c` at its end.
pub open spec fn right_stripped(s: Seq<char>, c: char) -> Seq<char>
    decreases s.len(),
{
    if s.len() > 0 && s.last() == c {
        right_stripped(s.drop_last(), c)
    } else {
        s
    }
}

/// `s` without any `c` at its end.
pub fn strip_end(s: &str, c: char) -> (r: String)
    ensures
        r@ == right_stripped(s@, c),
{
    let chars = chars_of(s);
    let mut to: usize = chars.len();
    assert(s@.take(to as int) =~= s@);
    while to > 0 && chars[to - 1] == c
        invariant
            chars@ == s@,
            to <= chars@.len(),
            right_stripped(s@, c) == right_stripped(s@.take(to as int), c),
        decreases to,
    {
        assert(s@.take(to as int).drop_last() =~= s@.take(to - 1));
        to -= 1;
    }
    assert(s@.subrange(0, to as int) =~= s@.take(to as int));
    string_of(&chars, 0, to)
}

// ---------------------------------------------------------------------------
// Escaping
// ---------------------------------------------------------------------------

/// The strings that `f` gives for the elements of `s`, in a row.
pub open spec fn each_char<A>(s: Seq<A>, f: spec_fn(A) -> Seq<char>) -> Seq<char>
    decreases s.len(),
{
    if s.len() == 0 {
        Seq::empty()
    } else {
        each_char(s.drop_last(), f) + f(s.last())
    }
}

/// If no replacement holds `c`, the result does not.
pub proof fn each_char_avoids<A>(s: Seq<A>, f: spec_fn(A) -> Seq<char>, c: char)
    requires
        forall|x: A| !(#[trigger] f(x)).contains(c),
    ensures
        !each_char(s, f).contains(c),
    decreases s.len(),
{
    if s.len() > 0 {
        let head = each_char(s.drop_last(), f);
        let tail = f(s.last());
        each_char_avoids(s.drop_last(), f, c);
        if (head + tail).contains(c) {
            let k = choose|k: int| 0 <= k < (head + tail).len() && (head + tail)[k] == c;
            if k < head.len() {
                assert(head[k] == c);
            } else {
                assert(tail[k - head.len()] == c);
            }
        }
    }
}

/// The replacements can be told apart from the front: none is empty, and none
/// begins as another does.
pub open spec fn is_code<A>(f: spec_fn(A) -> Seq<char>) -> bool {
    &&& forall|x: A| (#[trigger] f(x)).len() > 0
    &&& forall|x: A, y: A| (#[trigger] f(x)).is_prefix_of(#[trigger] f(y)) ==> x == y
}

proof fn each_char_from_front<A>(s: Seq<A>, f: spec_fn(A) -> Seq<char>)
    requires
        s.len() > 0,
    ensures
        each_char(s, f) == f(s[0]) + each_char(s.skip(1), f),
    decreases s.len(),
{
    if s.len() == 1 {
        assert(s.drop_last() =~= Seq::empty());
        assert(s.skip(1) =~= Seq::empty());
        assert(each_char(s, f) =~= f(s[0]) + each_char(s.skip(1), f));
    } else {
        let init = s.drop_last();
        each_char_from_front(init, f);
        assert(s.skip(1).drop_last() =~= init.skip(1));
        assert(s.skip(1).last() == s.last());
        assert(each_char(s, f) =~= f(s[0]) + each_char(s.skip(1), f));
    }
}

/// If the replacements can be told apart, so can the results.
pub proof fn each_char_differs<A>(a: Seq<A>, b: Seq<A>, f: spec_fn(A) -> Seq<char>)
    requires
        is_code(f),
        each_char(a, f) == each_char(b, f),
    ensures
        a == b,
    decreases a.len(),
{
    if a.len() > 0 {
        each_char_from_front(a, f);
        assert(f(a[0]).len() > 0);
    }
    if b.len() > 0 {
        each_char_from_front(b, f);
        assert(f(b[0]).len() > 0);
    }
    if a.len() > 0 && b.len() > 0 {
        let fa = f(a[0]);
        let fb = f(b[0]);
        let whole = each_char(a, f);
        assert(whole.take(fa.len() as int) =~= fa);
        assert(whole.take(fb.len() as int) =~= fb);
        if fa.len() <= fb.len() {
            assert(fb.take(fa.len() as int) =~= whole.take(fa.len() as int));
            assert(fa.is_prefix_of(fb));
        } else {
            assert(fa.take(fb.len() as int) =~= whole.take(fb.len() as int));
            assert(fb.is_prefix_of(fa));
        }
        assert(a[0] == b[0]);
        assert(whole.skip(fa.len() as int) =~= each_char(a.skip(1), f));
        assert(whole.skip(fa.len() as int) =~= each_char(b.skip(1), f));
        each_char_differs(a.skip(1), b.skip(1), f);
        assert(a =~= seq![a[0]] + a.skip(1));
        assert(b =~= seq![b[0]] + b.skip(1));
    } else {
        assert(a.len() == 0 ==> each_char(a, f).len() == 0);
        assert(b.len() == 0 ==> each_char(b, f).len() == 0);
        assert(a =~= b);
    }
}

// ---------------------------------------------------------------------------
// ASCII letters
// ---------------------------------------------------------------------------

/// An ASCII character, with letters in lower case.
pub open spec fn ascii_lower(c: char) -> char {
    if 'A' <= c <= 'Z' {
        (c as u32 + 32) as char
    } else {
        c
    }
}

/// An ASCII character, with letters in upper case.
pub open spec fn ascii_upper(c: char) -> char {
    if 'a' <= c <= 'z' {
        (c as u32 - 32) as char
    } else {
        c
    }
}

/// An ASCII string, with letters in lower case.
pub open spec fn ascii_lowered(s: Seq<char>) -> Seq<char> {
    s.map_values(|c: char| ascii_lower(c))
}

/// An ASCII string, with letters in upper case.
pub open spec fn ascii_raised(s: Seq<char>) -> Seq<char> {
    s.map_values(|c: char| ascii_upper(c))
}

// ---------------------------------------------------------------------------
// Upper and lower case, and lossy decoding
// ---------------------------------------------------------------------------

/// A string in lower case: in an ASCII string the letters from A to Z change,
/// and any other string is as Unicode has it.
pub open spec fn lowered(s: Seq<char>) -> Seq<char> {
    if is_ascii_chars(s) {
        ascii_lowered(s)
    } else {
        lowercase(s)
    }
}

/// A string in upper case: in an ASCII string the letters from a to z change,
/// and any other string is as Unicode has it.
pub open spec fn raised(s: Seq<char>) -> Seq<char> {
    if is_ascii_chars(s) {
        ascii_raised(s)
    } else {
        uppercase(s)
    }
}

/// Bytes as text: what they encode if they are valid UTF-8, and else that with
/// replacement characters.
pub open spec fn shown_bytes(bytes: Seq<u8>) -> Seq<char> {
    if valid_utf8(bytes) {
        decode_utf8(bytes)
    } else {
        utf8_lossy(bytes)
    }
}

/// A string in lower case.
pub fn in_lower_case(s: &str) -> (r: String)
    ensures
        r@ == lowered(s@),
{
    lowercase_string(s)
}

/// A string in upper case.
pub fn in_upper_case(s: &str) -> (r: String)
    ensures
        r@ == raised(s@),
{
    uppercase_string(s)
}

/// Bytes as text.
pub fn show_bytes(bytes: &[u8]) -> (r: String)
    ensures
        r@ == shown_bytes(bytes@),
{
    utf8_lossy_string(bytes)
}

// ---------------------------------------------------------------------------
// JSON
// ---------------------------------------------------------------------------

/// How a character stands in a JSON string.
pub open spec fn json_escape(c: char) -> Seq<char> {
    let p = c as u32;
    if c == '"' {
        seq!['\\', '"']
    } else if c == '\\' {
        seq!['\\', '\\']
    } else if p == 0x8 {
        seq!['\\', 'b']
    } else if p == 0x9 {
        seq!['\\', 't']
    } else if p == 0xa {
        seq!['\\', 'n']
    } else if p == 0xc {
        seq!['\\', 'f']
    } else if p == 0xd {
        seq!['\\', 'r']
    } else if p < 0x20 {
        seq!['\\', 'u', '0', '0', digit(p as nat / 16), digit(p as nat % 16)]
    } else {
        seq![c]
    }
}

/// A string in JSON notation.
pub open spec fn json_string(s: Seq<char>) -> Seq<char> {
    seq!['"'] + each_char(s, |c: char| json_escape(c)) + seq!['"']
}

proof fn json_escapes_differ(x: char, y: char)
    requires
        json_escape(x).is_prefix_of(json_escape(y)),
    ensures
        x == y,
{
    let fx = json_escape(x);
    let fy = json_escape(y);
    assert(fx =~= fy.take(fx.len() as int));
    assert(fx[0] == fy[0]);
    if fx.len() > 1 && fy.len() > 1 {
        assert(fx[1] == fy[1]);
    }
    if fx.len() == 6 && fy.len() == 6 {
        let p = (x as u32) as nat;
        let q = (y as u32) as nat;
        assert(fx[4] == fy[4]);
        assert(fx[5] == fy[5]);
        assert(p / 16 == q / 16);
        assert(p % 16 == q % 16);
    }
}

proof fn json_escape_is_code()
    ensures
        is_code(|c: char| json_escape(c)),
{
    let f = |c: char| json_escape(c);
    assert forall|x: char, y: char| (#[trigger] f(x)).is_prefix_of(#[trigger] f(y)) implies x == y by {
        json_escapes_differ(x, y);
    }
}

/// Different strings have different JSON notations.
pub proof fn json_differs(a: Seq<char>, b: Seq<char>)
    requires
        json_string(a) == json_string(b),
    ensures
        a == b,
{
    let escape = |c: char| json_escape(c);
    let n = json_string(a).len() as int;
    assert(json_string(a).subrange(1, n - 1) =~= each_char(a, escape));
    assert(json_string(b).subrange(1, n - 1) =~= each_char(b, escape));
    json_escape_is_code();
    each_char_differs(a, b, escape);
}

} // verus!
