//! Text helpers: cutting at a byte limit, comparing, splitting, and printing numbers.

use vstd::prelude::*;
use vstd::string::*;
use vstd::utf8::*;

verus! {

/// Every character takes at least one byte, so a longer prefix takes more bytes.
proof fn lemma_prefix_bytes_grow(s: Seq<char>, m: int, n: int)
    requires
        0 <= m <= n <= s.len(),
    ensures
        encode_utf8(s.take(n)).len() - encode_utf8(s.take(m)).len() >= n - m,
    decreases n,
{
    if m == n {
    } else if m == 0 {
        assert(s.take(0) =~= Seq::empty());
        assert(s.take(n).drop_first() =~= s.drop_first().take(n - 1));
        lemma_prefix_bytes_grow(s.drop_first(), 0, n - 1);
        assert(s.drop_first().take(0) =~= Seq::empty());
    } else {
        assert(s.take(n).drop_first() =~= s.drop_first().take(n - 1));
        assert(s.take(m).drop_first() =~= s.drop_first().take(m - 1));
        assert(s.take(n)[0] == s.take(m)[0]);
        lemma_prefix_bytes_grow(s.drop_first(), m - 1, n - 1);
    }
}

/// The bytes of a prefix are a prefix of the bytes.
proof fn lemma_prefix_bytes(s: Seq<char>, n: int)
    requires
        0 <= n <= s.len(),
    ensures
        encode_utf8(s) == encode_utf8(s.take(n)) + encode_utf8(s.skip(n)),
    decreases n,
{
    if n == 0 {
        assert(s.take(0) =~= Seq::empty());
        assert(s.skip(0) =~= s);
        assert(encode_utf8(s.take(0)) + encode_utf8(s) =~= encode_utf8(s));
    } else {
        assert(s.take(n).drop_first() =~= s.drop_first().take(n - 1));
        assert(s.skip(n) =~= s.drop_first().skip(n - 1));
        lemma_prefix_bytes(s.drop_first(), n - 1);
        let head = encode_scalar(s[0] as u32);
        assert(head + (encode_utf8(s.drop_first().take(n - 1)) + encode_utf8(s.skip(n)))
            =~= (head + encode_utf8(s.drop_first().take(n - 1))) + encode_utf8(s.skip(n)));
    }
}

/// The end of a prefix of whole characters is a character boundary.
proof fn lemma_prefix_boundary(s: Seq<char>, n: int)
    requires
        0 <= n <= s.len(),
    ensures
        is_char_boundary(encode_utf8(s), encode_utf8(s.take(n)).len() as int),
    decreases n,
{
    encode_utf8_valid_utf8(s);
    if n == 0 {
        assert(s.take(0) =~= Seq::empty());
    } else {
        encode_utf8_first_scalar(s);
        assert(s.take(n).drop_first() =~= s.drop_first().take(n - 1));
        lemma_prefix_boundary(s.drop_first(), n - 1);
        lemma_prefix_bytes_grow(s, 0, n);
        assert(s.take(0) =~= Seq::empty());
        lemma_prefix_bytes_grow(s, n, s.len() as int);
        assert(s.take(s.len() as int) =~= s);
        assert(pop_first_scalar(encode_utf8(s)) =~= encode_utf8(s.drop_first()));
    }
}

/// `cut` is the longest prefix of whole characters of `s` that takes at most `max_bytes` bytes.
pub open spec fn longest_prefix_within(s: Seq<char>, max_bytes: int, cut: Seq<char>) -> bool {
    &&& cut.len() <= s.len()
    &&& cut == s.take(cut.len() as int)
    &&& encode_utf8(cut).len() <= max_bytes
    &&& forall|n: int|
        0 <= n <= s.len() && (#[trigger] encode_utf8(s.take(n))).len() <= max_bytes ==> n
            <= cut.len()
}

/// The longest prefix of whole characters that takes at most `max_bytes` bytes.
pub open spec fn truncated(s: Seq<char>, max_bytes: int) -> Seq<char> {
    choose|cut: Seq<char>| longest_prefix_within(s, max_bytes, cut)
}

/// There is only one longest prefix within a number of bytes.
pub proof fn truncation_is_unique(s: Seq<char>, max_bytes: int, a: Seq<char>, b: Seq<char>)
    requires
        longest_prefix_within(s, max_bytes, a),
        longest_prefix_within(s, max_bytes, b),
    ensures
        a == b,
{
    assert(encode_utf8(s.take(a.len() as int)).len() <= max_bytes);
    assert(encode_utf8(s.take(b.len() as int)).len() <= max_bytes);
}

/// Cuts a string to at most `max_bytes` bytes without splitting a character.
pub fn truncate_str(s: &str, max_bytes: usize) -> (r: &str)
    ensures
        longest_prefix_within(s@, max_bytes as int, r@),
{
    let bytes = s.as_bytes();
    let len: usize = bytes.len();
    if len <= max_bytes {
        assert(s@.take(s@.len() as int) =~= s@);
        return s;
    }
    let mut end: usize = max_bytes;
    proof {
        encode_utf8_valid_utf8(s@);
    }
    while end > 0 && !s.is_char_boundary(end)
        invariant
            end <= max_bytes < len,
            len == s.spec_bytes().len(),
            valid_utf8(s.spec_bytes()),
            forall|b: int| end < b <= max_bytes ==> !is_char_boundary(s.spec_bytes(), b),
        decreases end,
    {
        end = end - 1;
    }
    let (head, _tail) = s.split_at(end);
    proof {
        let bytes = s.spec_bytes();
        let cut = head@;
        encode_utf8_decode_utf8(s@);
        encode_utf8_decode_utf8(head@);
        decode_utf8_split(bytes, end as int);
        assert(s@ =~= cut + decode_utf8(bytes.subrange(end as int, bytes.len() as int)));
        assert(cut =~= s@.take(cut.len() as int));
        assert forall|n: int|
            0 <= n <= s@.len() && (#[trigger] encode_utf8(s@.take(n))).len()
                <= max_bytes implies n <= cut.len() by {
            lemma_prefix_boundary(s@, n);
            if n > cut.len() {
                lemma_prefix_bytes_grow(s@, cut.len() as int, n);
            }
        }
    }
    head
}

/// Truncating again at the same limit changes nothing, and so does any larger limit.
pub proof fn truncation_is_idempotent(s: Seq<char>, max_bytes: int, again: int, cut: Seq<char>, cut2: Seq<char>)
    requires
        max_bytes <= again,
        longest_prefix_within(s, max_bytes, cut),
        longest_prefix_within(cut, again, cut2),
    ensures
        cut2 == cut,
{
    assert(cut.take(cut.len() as int) =~= cut);
}

/// Whether two strings hold the same characters.
pub fn str_eq(a: &str, b: &str) -> (r: bool)
    ensures
        r == (a@ == b@),
{
    let x = a.as_bytes();
    let y = b.as_bytes();
    proof {
        encode_utf8_decode_utf8(a@);
        encode_utf8_decode_utf8(b@);
    }
    if x.len() != y.len() {
        return false;
    }
    let n: usize = x.len();
    let mut i: usize = 0;
    while i < n
        invariant
            i <= n,
            n == x@.len(),
            n == y@.len(),
            x@ == encode_utf8(a@),
            y@ == encode_utf8(b@),
            forall|j: int| 0 <= j < i ==> x@[j] == y@[j],
        decreases n - i,
    {
        if x[i] != y[i] {
            return false;
        }
        i = i + 1;
    }
    assert(x@ =~= y@);
    true
}

/// Calls `String::from_utf8`, which accepts exactly the byte strings that are valid UTF-8 and
/// returns the text whose encoding they are.
#[verifier::external_body]
pub(crate) fn utf8_text(bytes: &Vec<u8>) -> (r: Option<String>)
    ensures
        r is Some <==> valid_utf8(bytes@),
        r matches Some(s) ==> encode_utf8(s@) == bytes@,
{
    String::from_utf8(bytes.clone()).ok()
}

/// The decimal digits of a natural number.
pub open spec fn decimal(n: nat) -> Seq<char>
    decreases n,
{
    if n < 10 {
        seq![digit(n)]
    } else {
        decimal(n / 10).push(digit(n % 10))
    }
}

/// The character of one decimal digit.
pub open spec fn digit(d: nat) -> char {
    if d == 0 {
        '0'
    } else if d == 1 {
        '1'
    } else if d == 2 {
        '2'
    } else if d == 3 {
        '3'
    } else if d == 4 {
        '4'
    } else if d == 5 {
        '5'
    } else if d == 6 {
        '6'
    } else if d == 7 {
        '7'
    } else if d == 8 {
        '8'
    } else {
        '9'
    }
}

/// A whole number as text: its digits, after a minus sign where it is negative.
pub open spec fn int_text(n: int) -> Seq<char> {
    if n < 0 {
        seq!['-'] + decimal((-n) as nat)
    } else {
        decimal(n as nat)
    }
}

fn digit_str(d: u64) -> (r: &'static str)
    requires
        d < 10,
    ensures
        r@ == seq![digit(d as nat)],
{
    proof {
        reveal_strlit("0");
        reveal_strlit("1");
        reveal_strlit("2");
        reveal_strlit("3");
        reveal_strlit("4");
        reveal_strlit("5");
        reveal_strlit("6");
        reveal_strlit("7");
        reveal_strlit("8");
        reveal_strlit("9");
    }
    if d == 0 {
        "0"
    } else if d == 1 {
        "1"
    } else if d == 2 {
        "2"
    } else if d == 3 {
        "3"
    } else if d == 4 {
        "4"
    } else if d == 5 {
        "5"
    } else if d == 6 {
        "6"
    } else if d == 7 {
        "7"
    } else if d == 8 {
        "8"
    } else {
        "9"
    }
}

/// Prints an unsigned number in decimal.
pub fn u64_text(n: u64) -> (r: String)
    ensures
        r@ == decimal(n as nat),
    decreases n,
{
    if n < 10 {
        digit_str(n).to_owned()
    } else {
        let mut r = u64_text(n / 10);
        r.append(digit_str(n % 10));
        assert(r@ =~= decimal((n / 10) as nat).push(digit((n % 10) as nat)));
        r
    }
}

/// Prints a signed number in decimal.
pub fn i64_text(n: i64) -> (r: String)
    ensures
        r@ == int_text(n as int),
{
    if n >= 0 {
        u64_text(n as u64)
    } else {
        proof {
            reveal_strlit("-");
        }
        let mut r = "-".to_owned();
        let magnitude: u64 = if n == i64::MIN {
            9223372036854775808
        } else {
            (-n) as u64
        };
        let digits = u64_text(magnitude);
        r.append(digits.as_str());
        r
    }
}

} // verus!
