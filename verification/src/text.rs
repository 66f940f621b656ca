//! Text helpers over the character view of strings.

use vstd::prelude::*;
use vstd::string::{StrSliceExecFns, StringExecFns};
use vstd::utf8::*;

verus! {

/// Characters with the Unicode `White_Space` property.
pub open spec fn is_white_space(c: char) -> bool {
    let u = c as u32;
    ||| 0x09 <= u <= 0x0D
    ||| u == 0x20 || u == 0x85 || u == 0xA0 || u == 0x1680
    ||| 0x2000 <= u <= 0x200A
    ||| u == 0x2028 || u == 0x2029 || u == 0x202F || u == 0x205F || u == 0x3000
}

/// `s` without its leading white space.
pub open spec fn trim_start(s: Seq<char>) -> Seq<char>
    decreases s.len(),
{
    if s.len() > 0 && is_white_space(s[0]) {
        trim_start(s.drop_first())
    } else {
        s
    }
}

/// `s` without its trailing white space.
pub open spec fn trim_end(s: Seq<char>) -> Seq<char>
    decreases s.len(),
{
    if s.len() > 0 && is_white_space(s.last()) {
        trim_end(s.drop_last())
    } else {
        s
    }
}

/// `s` without leading and trailing white space.
pub open spec fn trimmed(s: Seq<char>) -> Seq<char> {
    trim_end(trim_start(s))
}

/// Whether a character has the Unicode `White_Space` property.
pub fn is_white_space_char(c: char) -> (r: bool)
    ensures
        r == is_white_space(c),
{
    let u = c as u32;
    (0x09 <= u && u <= 0x0D) || u == 0x20 || u == 0x85 || u == 0xA0 || u == 0x1680 || (0x2000
        <= u && u <= 0x200A) || u == 0x2028 || u == 0x2029 || u == 0x202F || u == 0x205F || u
        == 0x3000
}

/// The text without leading and trailing white space, as `str::trim` gives it.
pub fn trim_str(s: &str) -> (t: &str)
    ensures
        t@ == trimmed(s@),
{
    let n = s.unicode_len();
    let ghost v = s@;
    let mut i: usize = 0;
    assert(v.subrange(0, n as int) =~= v);
    while i < n && is_white_space_char(s.get_char(i))
        invariant
            v == s@,
            n == v.len(),
            i <= n,
            trim_start(v) == trim_start(v.subrange(i as int, n as int)),
        decreases n - i,
    {
        assert(v.subrange(i as int, n as int).drop_first() =~= v.subrange(i + 1, n as int));
        i = i + 1;
    }
    assert(trim_start(v) == v.subrange(i as int, n as int));
    let mut j: usize = n;
    while j > i && is_white_space_char(s.get_char(j - 1))
        invariant
            v == s@,
            n == v.len(),
            i <= j <= n,
            trim_start(v) == v.subrange(i as int, n as int),
            trim_end(v.subrange(i as int, n as int)) == trim_end(v.subrange(i as int, j as int)),
        decreases j,
    {
        assert(v.subrange(i as int, j as int).drop_last() =~= v.subrange(i as int, j - 1));
        assert(v.subrange(i as int, j as int).last() == v[j - 1]);
        j = j - 1;
    }
    assert(trim_end(v.subrange(i as int, j as int)) == v.subrange(i as int, j as int));
    s.substring_char(i, j)
}

/// What `str::to_lowercase` returns for a string (the Unicode lowercase mapping).
pub uninterp spec fn spec_to_lowercase(s: Seq<char>) -> Seq<char>;

/// `str::to_lowercase`. Its result is a function of the input alone; the
/// contract names it and says nothing more of the Unicode mapping.
#[verifier::external_body]
pub(crate) fn to_lowercase(s: &str) -> (r: String)
    ensures
        r@ == spec_to_lowercase(s@),
{
    s.to_lowercase()
}

/// Equality of two strings by their characters.
pub fn str_eq(a: &str, b: &str) -> (r: bool)
    ensures
        r == (a@ == b@),
{
    let x = a.to_owned();
    let y = b.to_owned();
    x == y
}

/// The decimal digit for `d < 10`.
pub open spec fn digit(d: nat) -> char {
    if d == 0 {
        '0'
    } else if d == 1 {
        '1'
    } else if d == 2 {
        '2'
    } else if d == 3 {
        '3'
    } else if d == 4 {
        '4'
    } else if d == 5 {
        '5'
    } else if d == 6 {
        '6'
    } else if d == 7 {
        '7'
    } else if d == 8 {
        '8'
    } else {
        '9'
    }
}

/// The decimal rendering of a natural number, without leading zeros.
pub open spec fn decimal(n: nat) -> Seq<char>
    decreases n,
{
    if n < 10 {
        seq![digit(n)]
    } else {
        decimal(n / 10).push(digit(n % 10))
    }
}

/// The decimal rendering of an integer, with a leading `-` when negative.
pub open spec fn signed_decimal(n: int) -> Seq<char> {
    if n < 0 {
        seq!['-'] + decimal((-n) as nat)
    } else {
        decimal(n as nat)
    }
}

fn digit_str(d: u64) -> (s: &'static str)
    requires
        d < 10,
    ensures
        s@ == seq![digit(d as nat)],
{
    proof {
        reveal_strlit("0");
        reveal_strlit("1");
        reveal_strlit("2");
        reveal_strlit("3");
        reveal_strlit("4");
        reveal_strlit("5");
        reveal_strlit("6");
        reveal_strlit("7");
        reveal_strlit("8");
        reveal_strlit("9");
    }
    if d == 0 {
        "0"
    } else if d == 1 {
        "1"
    } else if d == 2 {
        "2"
    } else if d == 3 {
        "3"
    } else if d == 4 {
        "4"
    } else if d == 5 {
        "5"
    } else if d == 6 {
        "6"
    } else if d == 7 {
        "7"
    } else if d == 8 {
        "8"
    } else {
        "9"
    }
}

/// Renders an unsigned number in decimal, as `u64::to_string` does.
pub fn decimal_string(n: u64) -> (s: String)
    ensures
        s@ == decimal(n as nat),
    decreases n,
{
    if n < 10 {
        digit_str(n).to_owned()
    } else {
        let mut s = decimal_string(n / 10);
        s.append(digit_str(n % 10));
        s
    }
}

/// Renders a signed number in decimal, as `i64::to_string` does.
pub fn signed_decimal_string(n: i64) -> (s: String)
    ensures
        s@ == signed_decimal(n as int),
{
    if n < 0 {
        let wide: i128 = n as i128;
        let m: u64 = (-wide) as u64;
        let mut s = "-".to_owned();
        proof {
            reveal_strlit("-");
        }
        s.append(decimal_string(m).as_str());
        s
    } else {
        decimal_string(n as u64)
    }
}

/// The character views of a sequence of strings.
pub open spec fn views(v: Seq<String>) -> Seq<Seq<char>> {
    v.map_values(|s: String| s@)
}

/// The items joined by the separator, as `[String]::join` does.
pub open spec fn joined(items: Seq<Seq<char>>, sep: Seq<char>) -> Seq<char>
    decreases items.len(),
{
    if items.len() == 0 {
        Seq::empty()
    } else if items.len() == 1 {
        items[0]
    } else {
        joined(items.drop_last(), sep) + sep + items.last()
    }
}

/// Joins the strings with the separator between each two of them.
pub fn join_strings(items: &Vec<String>, sep: &str) -> (r: String)
    ensures
        r@ == joined(views(items@), sep@),
{
    let mut r = String::new();
    let n = items.len();
    let ghost all = views(items@);
    let mut i: usize = 0;
    while i < n
        invariant
            n == items@.len(),
            all == views(items@),
            i <= n,
            r@ == joined(all.take(i as int), sep@),
        decreases n - i,
    {
        if i > 0 {
            r.append(sep);
        }
        r.append(items[i].as_str());
        assert(all.take(i + 1).drop_last() =~= all.take(i as int));
        i = i + 1;
    }
    assert(all.take(n as int) =~= all);
    r
}

/// The number of bytes in the UTF-8 encoding of `s`.
pub open spec fn utf8_len(s: Seq<char>) -> nat {
    encode_utf8(s).len()
}

/// Whether byte offset `n` falls between two characters of `s`.
pub open spec fn is_boundary(s: Seq<char>, n: int) -> bool {
    is_char_boundary(encode_utf8(s), n)
}

/// The characters encoded in the first `n` bytes of `s`.
pub open spec fn byte_prefix(s: Seq<char>, n: int) -> Seq<char> {
    decode_utf8(encode_utf8(s).subrange(0, n))
}

/// The first `n` bytes of `s`, as `&s[..n]` does; `n` must fall on a character boundary.
pub fn byte_prefix_str(s: &str, n: usize) -> (r: &str)
    requires
        n <= utf8_len(s@),
        is_boundary(s@, n as int),
    ensures
        r@ == byte_prefix(s@, n as int),
{
    proof {
        encode_utf8_valid_utf8(s@);
    }
    let (a, _rest) = s.split_at(n);
    proof {
        encode_utf8_decode_utf8(a@);
    }
    a
}

/// The number of bytes of `s`, as `str::len` gives it.
pub fn byte_len(s: &str) -> (n: usize)
    ensures
        n == utf8_len(s@),
{
    s.as_bytes().len()
}

/// `s` cut to its first `limit` bytes with `note` appended, when it is longer than that.
pub open spec fn clipped(s: Seq<char>, limit: nat, note: Seq<char>) -> Seq<char> {
    if utf8_len(s) > limit {
        byte_prefix(s, limit as int) + note
    } else {
        s
    }
}

/// A cut at `limit` bytes falls between two characters, where a cut is needed.
pub open spec fn clip_allowed(s: Seq<char>, limit: nat) -> bool {
    utf8_len(s) > limit ==> is_boundary(s, limit as int)
}

proof fn lemma_encode_concat(a: Seq<char>, b: Seq<char>)
    ensures
        encode_utf8(a + b) == encode_utf8(a) + encode_utf8(b),
    decreases a.len(),
{
    if a.len() == 0 {
        assert(a + b =~= b);
        assert(encode_utf8(a) + encode_utf8(b) =~= encode_utf8(b));
    } else {
        assert((a + b).drop_first() =~= a.drop_first() + b);
        assert((a + b)[0] == a[0]);
        lemma_encode_concat(a.drop_first(), b);
        assert(encode_utf8(a + b) =~= encode_scalar(a[0] as u32) + (encode_utf8(a.drop_first())
            + encode_utf8(b)));
    }
}

/// A cut text keeps exactly the first `limit` bytes and then the note, so it never holds
/// more than `limit` bytes of the text.
pub proof fn law_clip_bound(s: Seq<char>, limit: nat, note: Seq<char>)
    requires
        clip_allowed(s, limit),
    ensures
        utf8_len(clipped(s, limit, note)) <= limit + utf8_len(note),
        utf8_len(s) > limit ==> encode_utf8(clipped(s, limit, note)) == encode_utf8(s).subrange(
            0,
            limit as int,
        ) + encode_utf8(note),
        utf8_len(s) <= limit ==> clipped(s, limit, note) == s,
{
    if utf8_len(s) > limit {
        let bytes = encode_utf8(s);
        encode_utf8_valid_utf8(s);
        valid_utf8_split(bytes, limit as int);
        let prefix = bytes.subrange(0, limit as int);
        decode_utf8_encode_utf8(prefix);
        lemma_encode_concat(byte_prefix(s, limit as int), note);
    }
}

/// Cuts a text that is longer than `limit` bytes to its first `limit` bytes and appends
/// `note`; a shorter text stays as it is.
pub fn clip(s: String, limit: usize, note: &str) -> (r: String)
    requires
        clip_allowed(s@, limit as nat),
    ensures
        r@ == clipped(s@, limit as nat, note@),
{
    if byte_len(s.as_str()) > limit {
        let mut r = byte_prefix_str(s.as_str(), limit).to_owned();
        r.append(note);
        r
    } else {
        s
    }
}

/// `a` followed by `b`.
pub fn cat2(a: &str, b: &str) -> (r: String)
    ensures
        r@ == a@ + b@,
{
    let mut r = a.to_owned();
    r.append(b);
    r
}

/// `a`, `b` and `c` one after another.
pub fn cat3(a: &str, b: &str, c: &str) -> (r: String)
    ensures
        r@ == a@ + b@ + c@,
{
    let mut r = a.to_owned();
    r.append(b);
    r.append(c);
    r
}

} // verus!
