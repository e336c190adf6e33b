//! Reading and rewriting text character by character.

use vstd::prelude::*;
use vstd::string::*;
use vstd::utf8::*;

verus! {

/// `String::push` appends a character.
pub assume_specification[ String::push ](s: &mut String, c: char)
    ensures
        final(s)@ == old(s)@.push(c),
;

/// The characters of a text.
pub fn chars_of(s: &str) -> (r: Vec<char>)
    ensures
        r@ == s@,
{
    let mut out: Vec<char> = Vec::new();
    for c in it: s.chars()
        invariant
            out@ == s@.take(it.index() as int),
            it.seq() == s@,
    {
        out.push(c);
    }
    assert(s@.take(s@.len() as int) =~= s@);
    out
}

/// The text of the characters from one place up to another.
pub fn text_between(chars: &Vec<char>, from: usize, to: usize) -> (r: String)
    requires
        from <= to <= chars@.len(),
    ensures
        r@ == chars@.subrange(from as int, to as int),
{
    let mut s = String::new();
    let mut i: usize = from;
    assert(s@ =~= chars@.subrange(from as int, from as int));
    while i < to
        invariant
            from <= i <= to <= chars@.len(),
            s@ == chars@.subrange(from as int, i as int),
        decreases to - i,
    {
        s.push(chars[i]);
        assert(s@ =~= chars@.subrange(from as int, i + 1));
        i = i + 1;
    }
    s
}

/// Whether a character is white space in the sense of Unicode.
pub open spec fn is_white(c: char) -> bool {
    ||| '\u{9}' <= c && c <= '\u{d}'
    ||| c == ' '
    ||| c == '\u{85}'
    ||| c == '\u{a0}'
    ||| c == '\u{1680}'
    ||| '\u{2000}' <= c && c <= '\u{200a}'
    ||| c == '\u{2028}'
    ||| c == '\u{2029}'
    ||| c == '\u{202f}'
    ||| c == '\u{205f}'
    ||| c == '\u{3000}'
}

/// Whether a character is white space.
pub fn white(c: char) -> (r: bool)
    ensures
        r == is_white(c),
{
    ('\u{9}' <= c && c <= '\u{d}') || c == ' ' || c == '\u{85}' || c == '\u{a0}' || c == '\u{1680}'
        || ('\u{2000}' <= c && c <= '\u{200a}') || c == '\u{2028}' || c == '\u{2029}' || c
        == '\u{202f}' || c == '\u{205f}' || c == '\u{3000}'
}

/// Whether a text holds nothing but white space.
pub open spec fn all_white(s: Seq<char>) -> bool {
    forall|i: int| 0 <= i < s.len() ==> is_white(#[trigger] s[i])
}

/// Whether a text holds nothing but white space.
pub fn is_blank(s: &str) -> (r: bool)
    ensures
        r == all_white(s@),
{
    let chars = chars_of(s);
    let mut i: usize = 0;
    while i < chars.len()
        invariant
            i <= chars@.len(),
            chars@ == s@,
            forall|j: int| 0 <= j < i ==> is_white(#[trigger] s@[j]),
        decreases chars.len() - i,
    {
        if !white(chars[i]) {
            return false;
        }
        i = i + 1;
    }
    true
}

/// Whether `r` is a text without the white space around it.
pub open spec fn is_trimmed(s: Seq<char>, r: Seq<char>) -> bool {
    exists|a: int, b: int| #[trigger] cuts(s, r, a, b)
}

/// Whether `r` stands in `s` from `a` to `b`, with nothing but white space outside and none at its
/// own ends.
pub open spec fn cuts(s: Seq<char>, r: Seq<char>, a: int, b: int) -> bool {
    &&& 0 <= a <= b <= s.len()
    &&& r == s.subrange(a, b)
    &&& all_white(s.subrange(0, a))
    &&& all_white(s.subrange(b, s.len() as int))
    &&& r.len() > 0 ==> !is_white(r[0]) && !is_white(r.last())
}

/// A text without the white space around it.
pub open spec fn trimmed(s: Seq<char>) -> Seq<char> {
    choose|r: Seq<char>| is_trimmed(s, r)
}

/// Takes the white space from both ends of a text.
pub fn trim(s: &str) -> (r: String)
    ensures
        is_trimmed(s@, r@),
        r@ == trimmed(s@),
{
    let chars = chars_of(s);
    let mut a: usize = 0;
    while a < chars.len() && white(chars[a])
        invariant
            a <= chars@.len(),
            chars@ == s@,
            forall|j: int| 0 <= j < a ==> is_white(#[trigger] s@[j]),
        decreases chars.len() - a,
    {
        a = a + 1;
    }
    let mut b: usize = chars.len();
    while b > a && white(chars[b - 1])
        invariant
            a <= b <= chars@.len(),
            chars@ == s@,
            a < chars@.len() ==> !is_white(s@[a as int]),
            forall|j: int| b <= j < s@.len() ==> is_white(#[trigger] s@[j]),
        decreases b,
    {
        b = b - 1;
    }
    let r = text_between(&chars, a, b);
    assert(cuts(s@, r@, a as int, b as int));
    proof {
        trimming_is_unique(s@, r@, trimmed(s@));
    }
    r
}

/// There is only one way to trim a text, and a trimmed text stays as it is.
pub proof fn trimming_is_unique(s: Seq<char>, r1: Seq<char>, r2: Seq<char>)
    requires
        is_trimmed(s, r1),
        is_trimmed(s, r2),
    ensures
        r1 == r2,
        is_trimmed(r1, r1),
{
    let (a1, b1) = choose|a: int, b: int| #[trigger] cuts(s, r1, a, b);
    let (a2, b2) = choose|a: int, b: int| #[trigger] cuts(s, r2, a, b);
    lemma_cut_within(s, r1, a1, b1, r2, a2, b2);
    lemma_cut_within(s, r2, a2, b2, r1, a1, b1);
    if r1.len() > 0 {
        assert(r1 =~= r2);
    } else {
        assert(r1 =~= r2);
    }
    assert(r1.subrange(0, 0) =~= Seq::empty());
    assert(cuts(r1, r1, 0, r1.len() as int)) by {
        assert(r1.subrange(0, r1.len() as int) =~= r1);
        assert(r1.subrange(r1.len() as int, r1.len() as int) =~= Seq::empty());
    }
}

proof fn lemma_cut_within(
    s: Seq<char>,
    r1: Seq<char>,
    a1: int,
    b1: int,
    r2: Seq<char>,
    a2: int,
    b2: int,
)
    requires
        cuts(s, r1, a1, b1),
        cuts(s, r2, a2, b2),
    ensures
        r1.len() > 0 ==> a2 <= a1 && b1 <= b2,
{
    if r1.len() > 0 {
        assert(r1[0] == s[a1]);
        assert(r1.last() == s[b1 - 1]);
        if a1 < a2 {
            assert(s.subrange(0, a2)[a1] == s[a1]);
        }
        if a1 >= b2 {
            assert(s.subrange(b2, s.len() as int)[a1 - b2] == s[a1]);
        }
        if b2 < b1 {
            assert(s.subrange(b2, s.len() as int)[b1 - 1 - b2] == s[b1 - 1]);
        }
    }
}

/// Whether a pattern stands in a text at a place.
pub open spec fn stands_at(s: Seq<char>, pat: Seq<char>, i: int) -> bool {
    0 <= i && i + pat.len() <= s.len() && s.subrange(i, i + pat.len()) == pat
}

/// Whether a pattern stands anywhere in a text.
pub open spec fn has_part(s: Seq<char>, pat: Seq<char>) -> bool {
    exists|i: int| #[trigger] stands_at(s, pat, i)
}

fn matches_at(s: &Vec<char>, pat: &Vec<char>, i: usize) -> (r: bool)
    requires
        i <= s@.len(),
    ensures
        r == stands_at(s@, pat@, i as int),
{
    let len: usize = s.len();
    if pat.len() > len - i {
        return false;
    }
    let mut j: usize = 0;
    while j < pat.len()
        invariant
            len == s@.len(),
            i + pat@.len() <= len,
            j <= pat@.len(),
            forall|k: int| 0 <= k < j ==> s@[i + k] == pat@[k],
        decreases pat.len() - j,
    {
        if s[i + j] != pat[j] {
            assert(s@.subrange(i as int, i + pat@.len())[j as int] != pat@[j as int]);
            return false;
        }
        j = j + 1;
    }
    assert(s@.subrange(i as int, i + pat@.len()) =~= pat@);
    true
}

/// Whether a text starts with a pattern.
pub fn starts_with(s: &str, pat: &str) -> (r: bool)
    ensures
        r == stands_at(s@, pat@, 0),
{
    let chars = chars_of(s);
    let pattern = chars_of(pat);
    matches_at(&chars, &pattern, 0)
}

/// Whether a pattern stands anywhere in a text.
pub fn contains(s: &str, pat: &str) -> (r: bool)
    ensures
        r == has_part(s@, pat@),
{
    let chars = chars_of(s);
    let pattern = chars_of(pat);
    let mut i: usize = 0;
    while i < chars.len()
        invariant
            i <= chars@.len(),
            chars@ == s@,
            pattern@ == pat@,
            forall|k: int| 0 <= k < i ==> !stands_at(s@, pat@, k),
        decreases chars.len() - i,
    {
        if matches_at(&chars, &pattern, i) {
            return true;
        }
        i = i + 1;
    }
    let last = matches_at(&chars, &pattern, i);
    proof {
        if has_part(s@, pat@) {
            let k = choose|k: int| #[trigger] stands_at(s@, pat@, k);
            assert(k <= s@.len());
        }
    }
    last
}

/// A text with every occurrence of a pattern replaced, from left to right and without overlap.
pub open spec fn replaced(s: Seq<char>, pat: Seq<char>, with: Seq<char>) -> Seq<char>
    decreases s.len(),
{
    if s.len() == 0 || pat.len() == 0 {
        s
    } else if stands_at(s, pat, 0) {
        with + replaced(s.skip(pat.len() as int), pat, with)
    } else {
        seq![s[0]] + replaced(s.skip(1), pat, with)
    }
}

/// Replaces every occurrence of a pattern.
pub fn replace(s: &str, pat: &str, with: &str) -> (r: String)
    requires
        pat@.len() > 0,
    ensures
        r@ == replaced(s@, pat@, with@),
{
    let chars = chars_of(s);
    let pattern = chars_of(pat);
    let mut out = String::new();
    let mut i: usize = 0;
    assert(s@.skip(0) =~= s@);
    assert(out@ + replaced(s@.skip(0), pat@, with@) =~= replaced(s@, pat@, with@));
    while i < chars.len()
        invariant
            i <= chars@.len(),
            chars@ == s@,
            pattern@ == pat@,
            pat@.len() > 0,
            out@ + replaced(s@.skip(i as int), pat@, with@) == replaced(s@, pat@, with@),
        decreases chars.len() - i,
    {
        let ghost before = out@;
        let ghost rest = s@.skip(i as int);
        let here = matches_at(&chars, &pattern, i);
        proof {
            assert(stands_at(rest, pat@, 0) == stands_at(s@, pat@, i as int)) by {
                if i + pat@.len() <= s@.len() {
                    assert(rest.subrange(0, pat@.len() as int) =~= s@.subrange(
                        i as int,
                        i + pat@.len(),
                    ));
                }
            }
        }
        if here {
            out.append(with);
            proof {
                let next = rest.skip(pat@.len() as int);
                assert(next =~= s@.skip(i + pat@.len()));
                assert((before + with@) + replaced(next, pat@, with@) =~= before + (with@
                    + replaced(next, pat@, with@)));
            }
            i = i + pattern.len();
        } else {
            out.push(chars[i]);
            proof {
                let next = rest.skip(1);
                assert(next =~= s@.skip(i + 1));
                assert(rest[0] == s@[i as int]);
                assert(before.push(s@[i as int]) + replaced(next, pat@, with@) =~= before + (
                seq![rest[0]] + replaced(next, pat@, with@)));
            }
            i = i + 1;
        }
    }
    assert(s@.skip(i as int) =~= Seq::empty());
    assert(out@ + Seq::<char>::empty() =~= out@);
    out
}

/// The first line of a text: up to the first line feed, without a carriage return before it.
pub open spec fn first_line_of(s: Seq<char>) -> Seq<char> {
    let n = first_break(s, 0);
    if n == s.len() {
        s
    } else if n > 0 && s[n - 1] == '\r' {
        s.take(n - 1)
    } else {
        s.take(n)
    }
}

/// Where the first line feed from a place on stands: at the end where there is none.
pub open spec fn first_break(s: Seq<char>, from: int) -> int
    decreases s.len() - from,
{
    if from < 0 || from >= s.len() || s[from] == '\n' {
        from
    } else {
        first_break(s, from + 1)
    }
}

/// The first line of a text.
pub fn first_line(s: &str) -> (r: String)
    ensures
        r@ == first_line_of(s@),
{
    let chars = chars_of(s);
    let mut n: usize = 0;
    while n < chars.len() && chars[n] != '\n'
        invariant
            n <= chars@.len(),
            chars@ == s@,
            first_break(s@, 0) == first_break(s@, n as int),
        decreases chars.len() - n,
    {
        n = n + 1;
    }
    let mut end: usize = n;
    if n < chars.len() && n > 0 && chars[n - 1] == '\r' {
        end = n - 1;
    }
    let r = text_between(&chars, 0, end);
    proof {
        assert(s@.subrange(0, end as int) =~= s@.take(end as int));
        assert(s@.take(s@.len() as int) =~= s@);
    }
    r
}

/// What `str::to_lowercase` makes of a text.
pub uninterp spec fn lowercase(s: Seq<char>) -> Seq<char>;

/// The lower case of an ASCII character.
pub open spec fn ascii_lower(c: char) -> char {
    if 'A' <= c && c <= 'Z' {
        (c as u32 + 32) as char
    } else {
        c
    }
}

/// Calls `str::to_lowercase`. The result depends on the text alone; where the text is ASCII, each
/// letter becomes its lower-case letter and nothing else changes.
#[verifier::external_body]
pub(crate) fn to_lower(s: &str) -> (r: String)
    ensures
        r@ == lowercase(s@),
        is_ascii_chars(s@) ==> r@ == s@.map_values(|c: char| ascii_lower(c)),
{
    s.to_lowercase()
}

/// Whether one byte string comes before another in lexicographic order.
pub open spec fn bytes_before(a: Seq<u8>, b: Seq<u8>) -> bool
    decreases a.len(),
{
    if b.len() == 0 {
        false
    } else if a.len() == 0 {
        true
    } else if a[0] == b[0] {
        bytes_before(a.drop_first(), b.drop_first())
    } else {
        a[0] < b[0]
    }
}

/// Whether one text comes before another: texts are ordered by their UTF-8 bytes.
pub open spec fn text_before(a: Seq<char>, b: Seq<char>) -> bool {
    bytes_before(encode_utf8(a), encode_utf8(b))
}

/// Whether one text comes before another.
pub fn before(a: &str, b: &str) -> (r: bool)
    ensures
        r == text_before(a@, b@),
{
    let x = a.as_bytes();
    let y = b.as_bytes();
    let n: usize = x.len();
    let m: usize = y.len();
    let mut i: usize = 0;
    assert(x@.skip(0) =~= x@);
    assert(y@.skip(0) =~= y@);
    while i < n && i < m
        invariant
            i <= n,
            i <= m,
            n == x@.len(),
            m == y@.len(),
            x@ == encode_utf8(a@),
            y@ == encode_utf8(b@),
            bytes_before(x@, y@) == bytes_before(x@.skip(i as int), y@.skip(i as int)),
        decreases n - i,
    {
        let ghost xs = x@.skip(i as int);
        let ghost ys = y@.skip(i as int);
        if x[i] != y[i] {
            return x[i] < y[i];
        }
        proof {
            assert(xs.drop_first() =~= x@.skip(i + 1));
            assert(ys.drop_first() =~= y@.skip(i + 1));
        }
        i = i + 1;
    }
    n < m
}

/// The order of byte strings is strict and total.
pub proof fn bytes_are_ordered(a: Seq<u8>, b: Seq<u8>)
    ensures
        !bytes_before(a, a),
        a != b ==> bytes_before(a, b) != bytes_before(b, a),
    decreases a.len(),
{
    if a.len() > 0 {
        bytes_are_ordered(a.drop_first(), a.drop_first());
        if b.len() > 0 {
            bytes_are_ordered(a.drop_first(), b.drop_first());
            if a[0] == b[0] && a.drop_first() == b.drop_first() {
                assert(a =~= seq![a[0]] + a.drop_first());
                assert(b =~= seq![b[0]] + b.drop_first());
            }
        }
    } else if b.len() == 0 {
        assert(a =~= b);
    }
}

} // verus!
