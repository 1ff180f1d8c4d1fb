//! Text taken byte by byte: comparison, path components and joined paths.

use vstd::prelude::*;
use vstd::string::*;
use vstd::utf8::*;

verus! {

/// The UTF-8 bytes of a text.
pub open spec fn bytes_of(text: Seq<char>) -> Seq<u8> {
    encode_utf8(text)
}

/// The view of an optional text.
pub open spec fn opt_view(text: Option<String>) -> Option<Seq<char>> {
    match text {
        Some(t) => Some(t@),
        None => None,
    }
}

/// The views of a list of texts, in order.
pub open spec fn views_of(texts: Seq<String>) -> Seq<Seq<char>> {
    texts.map_values(|t: String| t@)
}

/// Two texts with the same bytes are the same text.
pub proof fn lemma_bytes_injective(a: Seq<char>, b: Seq<char>)
    requires
        bytes_of(a) == bytes_of(b),
    ensures
        a == b,
{
    encode_utf8_decode_utf8(a);
    encode_utf8_decode_utf8(b);
}

/// Whether two byte strings are equal.
pub fn same_bytes(x: &[u8], y: &[u8]) -> (r: bool)
    ensures
        r == (x@ == y@),
{
    if x.len() != y.len() {
        return false;
    }
    let mut i: usize = 0;
    while i < x.len()
        invariant
            x.len() == y.len(),
            i <= x.len(),
            forall|j: int| 0 <= j < i ==> x@[j] == y@[j],
        decreases x.len() - i,
    {
        if x[i] != y[i] {
            assert(x@[i as int] != y@[i as int]);
            return false;
        }
        i += 1;
    }
    assert(x@ =~= y@);
    true
}

/// Whether two texts are equal.
pub fn same_text(a: &str, b: &str) -> (r: bool)
    ensures
        r == (a@ == b@),
{
    let r = same_bytes(a.as_bytes(), b.as_bytes());
    proof {
        if r {
            lemma_bytes_injective(a@, b@);
        }
    }
    r
}

/// A byte that may not stand in a path component: a separator or NUL.
pub open spec fn is_separator(b: u8) -> bool {
    b == 0x2f || b == 0x5c || b == 0
}

/// Whether `bytes` name exactly one directory entry below a parent: not empty,
/// neither `.` nor `..`, and free of separators and NUL.
pub open spec fn is_component(bytes: Seq<u8>) -> bool {
    &&& bytes.len() > 0
    &&& !(bytes.len() == 1 && bytes[0] == 0x2e)
    &&& !(bytes.len() == 2 && bytes[0] == 0x2e && bytes[1] == 0x2e)
    &&& forall|i: int| 0 <= i < bytes.len() ==> !is_separator(#[trigger] bytes[i])
}

/// Whether a text is safe to use as the name of one directory entry.
pub open spec fn is_safe_name(text: Seq<char>) -> bool {
    is_component(bytes_of(text))
}

proof fn lemma_slash_byte(text: Seq<char>, i: int)
    requires
        0 <= i < text.len(),
        text[i] == '/',
    ensures
        exists|k: int| 0 <= k < bytes_of(text).len() && is_separator(#[trigger] bytes_of(text)[k]),
    decreases text.len(),
{
    let head = encode_scalar(text[0] as u32);
    let rest = text.drop_first();
    assert(bytes_of(text) == head + bytes_of(rest));
    if i == 0 {
        assert(text[0] as u32 == 0x2f);
        assert(0x2fu32 & 0x7f == 0x2f) by (bit_vector);
        assert(head[0] == 0x2f);
        assert(bytes_of(text)[0] == 0x2f);
        assert(is_separator(bytes_of(text)[0]));
    } else {
        assert(rest[i - 1] == '/');
        lemma_slash_byte(rest, i - 1);
        let k = choose|k: int| 0 <= k < bytes_of(rest).len() && is_separator(#[trigger] bytes_of(rest)[k]);
        assert(bytes_of(text)[head.len() + k] == bytes_of(rest)[k]);
        assert(is_separator(bytes_of(text)[head.len() + k]));
    }
}

/// A name that is safe holds no slash.
pub proof fn lemma_safe_name_has_no_slash(text: Seq<char>)
    requires
        is_safe_name(text),
    ensures
        forall|i: int| 0 <= i < text.len() ==> #[trigger] text[i] != '/',
{
    assert forall|i: int| 0 <= i < text.len() implies #[trigger] text[i] != '/' by {
        if text[i] == '/' {
            lemma_slash_byte(text, i);
        }
    }
}

/// Two texts that are each a part without slash, a slash and a rest are equal only
/// if the parts are equal and the rests are.
pub proof fn lemma_split_at_slash(a: Seq<char>, b: Seq<char>, c: Seq<char>, d: Seq<char>)
    requires
        a + "/"@ + b == c + "/"@ + d,
        forall|i: int| 0 <= i < a.len() ==> #[trigger] a[i] != '/',
        forall|i: int| 0 <= i < c.len() ==> #[trigger] c[i] != '/',
    ensures
        a == c,
        b == d,
{
    reveal_strlit("/");
    let s = a + "/"@ + b;
    let t = c + "/"@ + d;
    assert(s[a.len() as int] == '/');
    assert(t[c.len() as int] == '/');
    if a.len() < c.len() {
        assert(t[a.len() as int] == c[a.len() as int]);
    }
    if c.len() < a.len() {
        assert(s[c.len() as int] == a[c.len() as int]);
    }
    assert(a.len() == c.len());
    assert(s.len() == t.len());
    assert forall|i: int| 0 <= i < a.len() implies a[i] == c[i] by {
        assert(s[i] == a[i]);
        assert(t[i] == c[i]);
    }
    assert(a =~= c);
    assert forall|i: int| 0 <= i < b.len() implies b[i] == d[i] by {
        assert(s[a.len() + 1 + i] == b[i]);
        assert(t[c.len() + 1 + i] == d[i]);
    }
    assert(b =~= d);
}

/// Two texts with the same beginning are equal only if what follows is equal.
pub proof fn lemma_same_prefix(p: Seq<char>, x: Seq<char>, y: Seq<char>)
    requires
        p + x == p + y,
    ensures
        x == y,
{
    assert(x.len() == y.len()) by {
        assert((p + x).len() == p.len() + x.len());
        assert((p + y).len() == p.len() + y.len());
    }
    assert forall|i: int| 0 <= i < x.len() implies x[i] == y[i] by {
        assert((p + x)[p.len() + i] == x[i]);
        assert((p + y)[p.len() + i] == y[i]);
    }
    assert(x =~= y);
}

/// Two texts with the same end are equal only if what goes before is equal.
pub proof fn lemma_same_suffix(x: Seq<char>, y: Seq<char>, s: Seq<char>)
    requires
        x + s == y + s,
    ensures
        x == y,
{
    assert(x.len() == y.len()) by {
        assert((x + s).len() == x.len() + s.len());
        assert((y + s).len() == y.len() + s.len());
    }
    assert forall|i: int| 0 <= i < x.len() implies x[i] == y[i] by {
        assert((x + s)[i] == x[i]);
        assert((y + s)[i] == y[i]);
    }
    assert(x =~= y);
}

/// Decides `is_safe_name`.
pub fn safe_name(text: &str) -> (r: bool)
    ensures
        r == is_safe_name(text@),
{
    let b = text.as_bytes();
    let n = b.len();
    if n == 0 {
        return false;
    }
    if n == 1 && b[0] == 0x2e {
        return false;
    }
    if n == 2 && b[0] == 0x2e && b[1] == 0x2e {
        return false;
    }
    let mut i: usize = 0;
    while i < n
        invariant
            n == b@.len(),
            b@ == bytes_of(text@),
            i <= n,
            forall|j: int| 0 <= j < i ==> !is_separator(#[trigger] b@[j]),
        decreases n - i,
    {
        let c = b[i];
        if c == 0x2f || c == 0x5c || c == 0 {
            assert(is_separator(b@[i as int]));
            return false;
        }
        i += 1;
    }
    true
}

/// The number that a hexadecimal digit stands for, in either case.
pub open spec fn hex_digit(b: u8) -> Option<u8> {
    if 0x30 <= b <= 0x39 {
        Some((b - 0x30) as u8)
    } else if 0x61 <= b <= 0x66 {
        Some((b - 0x61 + 10) as u8)
    } else if 0x41 <= b <= 0x46 {
        Some((b - 0x41 + 10) as u8)
    } else {
        None
    }
}

/// The byte that the pair of hexadecimal digits at place `i` stands for, the high
/// digit first.
pub open spec fn hex_pair(digits: Seq<u8>, i: int) -> Option<u8> {
    match (hex_digit(digits[2 * i]), hex_digit(digits[2 * i + 1])) {
        (Some(hi), Some(lo)) => Some((16 * hi + lo) as u8),
        _ => None,
    }
}

/// Whether `digits` spell `bytes` in hexadecimal: two digits a byte.
pub open spec fn spells_bytes(digits: Seq<u8>, bytes: Seq<u8>) -> bool {
    &&& digits.len() == 2 * bytes.len()
    &&& forall|i: int| 0 <= i < bytes.len() ==> hex_pair(digits, i) == Some(#[trigger] bytes[i])
}

/// Whether `digits` are hexadecimal digits, an even number of them.
pub open spec fn is_hex(digits: Seq<u8>) -> bool {
    &&& digits.len() % 2 == 0
    &&& forall|i: int| 0 <= i < digits.len() ==> hex_digit(#[trigger] digits[i]) is Some
}

fn digit_value(b: u8) -> (r: Option<u8>)
    ensures
        r == hex_digit(b),
        r matches Some(v) ==> v < 16,
{
    if 0x30 <= b && b <= 0x39 {
        Some(b - 0x30)
    } else if 0x61 <= b && b <= 0x66 {
        Some(b - 0x61 + 10)
    } else if 0x41 <= b && b <= 0x46 {
        Some(b - 0x41 + 10)
    } else {
        None
    }
}

/// The bytes that a checksum written in hexadecimal stands for. `None` for a text
/// that is not an even number of hexadecimal digits.
pub fn decode_hex(text: &str) -> (r: Option<Vec<u8>>)
    ensures
        match r {
            Some(bytes) => spells_bytes(bytes_of(text@), bytes@),
            None => !is_hex(bytes_of(text@)),
        },
{
    let digits = text.as_bytes();
    let n = digits.len();
    if n % 2 != 0 {
        return None;
    }
    let mut out: Vec<u8> = Vec::new();
    let mut i: usize = 0;
    while i < n
        invariant
            n == digits@.len(),
            n % 2 == 0,
            digits@ == bytes_of(text@),
            i <= n,
            i % 2 == 0,
            2 * out@.len() == i,
            forall|k: int| 0 <= k < out@.len() ==> hex_pair(digits@, k) == Some(#[trigger] out@[k]),
        decreases n - i,
    {
        let hi = match digit_value(digits[i]) {
            Some(v) => v,
            None => {
                assert(hex_digit(digits@[i as int]) is None);
                return None;
            },
        };
        let lo = match digit_value(digits[i + 1]) {
            Some(v) => v,
            None => {
                assert(hex_digit(digits@[i + 1]) is None);
                return None;
            },
        };
        let ghost before = out@;
        out.push(16 * hi + lo);
        proof {
            let k = before.len() as int;
            assert(2 * k == i);
            assert(hex_pair(digits@, k) == Some(out@[k]));
            assert forall|m: int| 0 <= m < out@.len() implies hex_pair(digits@, m) == Some(
                #[trigger] out@[m],
            ) by {
                if m < k {
                    assert(out@[m] == before[m]);
                }
            }
        }
        i += 2;
    }
    Some(out)
}

} // verus!
