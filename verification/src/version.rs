//! Semantic versions: their spelling, their order, and what a user may ask for.

use crate::text::{bytes_of, is_component, is_separator};
use vstd::prelude::*;

verus! {

/// A semantic version: `MAJOR.MINOR.PATCH`.
#[derive(Clone, Copy, Debug, PartialEq, Eq, Structural)]
pub struct Version {
    pub major: u64,
    pub minor: u64,
    pub patch: u64,
}

pub open spec fn is_digit(b: u8) -> bool {
    0x30 <= b <= 0x39
}

/// The decimal numeral of `n`, without leading zeros.
pub open spec fn numeral(n: nat) -> Seq<u8>
    decreases n,
{
    if n < 10 {
        seq![(0x30 + n) as u8]
    } else {
        numeral(n / 10).push((0x30 + n % 10) as u8)
    }
}

/// How a version is spelled: three numerals joined by dots.
pub open spec fn spelling(v: Version) -> Seq<u8> {
    numeral(v.major as nat) + seq![0x2eu8] + numeral(v.minor as nat) + seq![0x2eu8] + numeral(
        v.patch as nat,
    )
}

/// The number that a string of digits denotes.
pub open spec fn decimal(digits: Seq<u8>) -> nat
    decreases digits.len(),
{
    if digits.len() == 0 {
        0
    } else {
        decimal(digits.drop_last()) * 10 + (digits.last() - 0x30) as nat
    }
}

/// Whether `digits` is the numeral of a number that fits in 64 bits.
pub open spec fn is_numeral(digits: Seq<u8>) -> bool {
    &&& digits.len() > 0
    &&& forall|i: int| 0 <= i < digits.len() ==> is_digit(#[trigger] digits[i])
    &&& digits.len() > 1 ==> digits[0] != 0x30
    &&& decimal(digits) <= u64::MAX
}

/// Where the run of digits that starts at `from` ends.
pub open spec fn digits_end(bytes: Seq<u8>, from: int) -> int
    decreases bytes.len() - from,
{
    if 0 <= from < bytes.len() && is_digit(bytes[from]) {
        digits_end(bytes, from + 1)
    } else {
        from
    }
}

/// The version that `bytes` spell, read from left to right.
pub open spec fn version_of_bytes(bytes: Seq<u8>) -> Option<Version> {
    let n = bytes.len() as int;
    let i = digits_end(bytes, 0);
    let j = digits_end(bytes, i + 1);
    let k = digits_end(bytes, j + 1);
    if i < n && bytes[i] == 0x2e && j < n && bytes[j] == 0x2e && k == n && is_numeral(
        bytes.subrange(0, i),
    ) && is_numeral(bytes.subrange(i + 1, j)) && is_numeral(bytes.subrange(j + 1, n)) {
        Some(
            Version {
                major: decimal(bytes.subrange(0, i)) as u64,
                minor: decimal(bytes.subrange(i + 1, j)) as u64,
                patch: decimal(bytes.subrange(j + 1, n)) as u64,
            },
        )
    } else {
        None
    }
}

/// The version that a text spells, if it spells one.
pub open spec fn version_of(text: Seq<char>) -> Option<Version> {
    version_of_bytes(bytes_of(text))
}

proof fn lemma_digits_end_bounds(bytes: Seq<u8>, from: int)
    requires
        0 <= from <= bytes.len(),
    ensures
        from <= digits_end(bytes, from) <= bytes.len(),
        forall|k: int| from <= k < digits_end(bytes, from) ==> is_digit(#[trigger] bytes[k]),
        digits_end(bytes, from) < bytes.len() ==> !is_digit(bytes[digits_end(bytes, from)]),
    decreases bytes.len() - from,
{
    if from < bytes.len() && is_digit(bytes[from]) {
        lemma_digits_end_bounds(bytes, from + 1);
    }
}

proof fn lemma_digits_end_is(bytes: Seq<u8>, from: int, end: int)
    requires
        0 <= from <= end <= bytes.len(),
        forall|k: int| from <= k < end ==> is_digit(#[trigger] bytes[k]),
        end < bytes.len() ==> !is_digit(bytes[end]),
    ensures
        digits_end(bytes, from) == end,
    decreases end - from,
{
    if from < end {
        lemma_digits_end_is(bytes, from + 1, end);
    }
}

proof fn lemma_numeral_digits(n: nat)
    ensures
        numeral(n).len() > 0,
        forall|i: int| 0 <= i < numeral(n).len() ==> is_digit(#[trigger] numeral(n)[i]),
        numeral(n).len() > 1 ==> numeral(n)[0] != 0x30,
        numeral(n).len() == 1 <==> n < 10,
        decimal(numeral(n)) == n,
    decreases n,
{
    if n < 10 {
        let d = numeral(n);
        assert(d.drop_last() =~= Seq::<u8>::empty());
        assert(decimal(d.drop_last()) == 0);
    } else {
        lemma_numeral_digits(n / 10);
        let p = numeral(n / 10);
        let d = numeral(n);
        assert(d.drop_last() =~= p);
        assert(d.last() == (0x30 + n % 10) as u8);
        if p.len() == 1 {
            assert(n / 10 > 0);
            assert(p[0] == (0x30 + n / 10) as u8);
        }
        assert(d[0] == p[0]);
    }
}

proof fn lemma_decimal_numeral(digits: Seq<u8>)
    requires
        digits.len() > 0,
        forall|i: int| 0 <= i < digits.len() ==> is_digit(#[trigger] digits[i]),
        digits.len() > 1 ==> digits[0] != 0x30,
    ensures
        numeral(decimal(digits)) == digits,
        digits.len() > 1 ==> decimal(digits) >= 10,
    decreases digits.len(),
{
    if digits.len() == 1 {
        assert(digits.drop_last() =~= Seq::<u8>::empty());
        assert(decimal(digits.drop_last()) == 0);
        assert(decimal(digits) == (digits[0] - 0x30) as nat);
        assert(numeral(decimal(digits)) =~= digits);
    } else {
        let p = digits.drop_last();
        assert(p[0] == digits[0]);
        lemma_decimal_numeral(p);
        let n = decimal(digits);
        let last = (digits.last() - 0x30) as nat;
        assert(is_digit(digits[digits.len() - 1]));
        assert(n == decimal(p) * 10 + last);
        if p.len() == 1 {
            assert(p.drop_last() =~= Seq::<u8>::empty());
            assert(decimal(p.drop_last()) == 0);
            assert(decimal(p) == (p[0] - 0x30) as nat);
            assert(is_digit(p[0]));
            assert(decimal(p) >= 1);
        }
        assert(n >= 10);
        assert(n / 10 == decimal(p));
        assert(n % 10 == last);
        assert(numeral(n) =~= digits);
    }
}

/// A text that spells a version is spelled as that version is, and the other way round.
pub proof fn lemma_version_spelling(bytes: Seq<u8>, v: Version)
    ensures
        version_of_bytes(bytes) == Some(v) <==> bytes == spelling(v),
{
    let n = bytes.len() as int;
    if version_of_bytes(bytes) == Some(v) {
        let i = digits_end(bytes, 0);
        lemma_digits_end_bounds(bytes, 0);
        let j = digits_end(bytes, i + 1);
        lemma_digits_end_bounds(bytes, i + 1);
        let a = bytes.subrange(0, i);
        let b = bytes.subrange(i + 1, j);
        let c = bytes.subrange(j + 1, n);
        lemma_decimal_numeral(a);
        lemma_decimal_numeral(b);
        lemma_decimal_numeral(c);
        assert(bytes =~= a + seq![0x2eu8] + b + seq![0x2eu8] + c);
    }
    if bytes == spelling(v) {
        let a = numeral(v.major as nat);
        let b = numeral(v.minor as nat);
        let c = numeral(v.patch as nat);
        lemma_numeral_digits(v.major as nat);
        lemma_numeral_digits(v.minor as nat);
        lemma_numeral_digits(v.patch as nat);
        let i = a.len() as int;
        let j = i + 1 + b.len();
        assert(n == j + 1 + c.len());
        assert(bytes[i] == 0x2e);
        assert(bytes[j] == 0x2e);
        assert forall|k: int| 0 <= k < i implies is_digit(#[trigger] bytes[k]) by {
            assert(bytes[k] == a[k]);
        }
        assert forall|k: int| i + 1 <= k < j implies is_digit(#[trigger] bytes[k]) by {
            assert(bytes[k] == b[k - i - 1]);
        }
        assert forall|k: int| j + 1 <= k < n implies is_digit(#[trigger] bytes[k]) by {
            assert(bytes[k] == c[k - j - 1]);
        }
        lemma_digits_end_is(bytes, 0, i);
        lemma_digits_end_is(bytes, i + 1, j);
        lemma_digits_end_is(bytes, j + 1, n);
        assert(bytes.subrange(0, i) =~= a);
        assert(bytes.subrange(i + 1, j) =~= b);
        assert(bytes.subrange(j + 1, n) =~= c);
    }
}

/// The spelling of a version names one directory entry.
pub proof fn lemma_version_is_component(bytes: Seq<u8>)
    requires
        version_of_bytes(bytes) is Some,
    ensures
        is_component(bytes),
{
    let n = bytes.len() as int;
    let i = digits_end(bytes, 0);
    let j = digits_end(bytes, i + 1);
    lemma_digits_end_bounds(bytes, 0);
    lemma_digits_end_bounds(bytes, i + 1);
    lemma_digits_end_bounds(bytes, j + 1);
    assert(bytes.subrange(0, i).len() > 0);
    assert(bytes.subrange(i + 1, j).len() > 0);
    assert(n >= 5);
    assert forall|k: int| 0 <= k < n implies !is_separator(#[trigger] bytes[k]) by {
        if k != i && k != j {
            assert(is_digit(bytes[k]));
        }
    }
}

/// Reads the run of digits that starts at `from`: where it ends, and its number
/// if the run is a numeral.
fn scan_number(bytes: &[u8], from: usize) -> (r: (usize, Option<u64>))
    requires
        from <= bytes@.len(),
    ensures
        r.0 == digits_end(bytes@, from as int),
        from <= r.0 <= bytes@.len(),
        r.1 is Some <==> is_numeral(bytes@.subrange(from as int, r.0 as int)),
        r.1 matches Some(n) ==> n == decimal(bytes@.subrange(from as int, r.0 as int)),
{
    let n = bytes.len();
    let mut i: usize = from;
    let mut value: Option<u64> = Some(0);
    proof {
        assert(bytes@.subrange(from as int, from as int) =~= Seq::<u8>::empty());
    }
    while i < n && 0x30 <= bytes[i] && bytes[i] <= 0x39
        invariant
            n == bytes@.len(),
            from <= i <= n,
            forall|k: int| from <= k < i ==> is_digit(#[trigger] bytes@[k]),
            digits_end(bytes@, from as int) == digits_end(bytes@, i as int),
            value matches Some(x) ==> x == decimal(bytes@.subrange(from as int, i as int)),
            value is None ==> decimal(bytes@.subrange(from as int, i as int)) > u64::MAX,
        decreases n - i,
    {
        let d: u64 = (bytes[i] - 0x30) as u64;
        proof {
            let cur = bytes@.subrange(from as int, i as int);
            let next = bytes@.subrange(from as int, i + 1);
            assert(next.drop_last() =~= cur);
            assert(next.last() == bytes@[i as int]);
            assert(decimal(next) == decimal(cur) * 10 + d);
        }
        value = match value {
            Some(x) => match x.checked_mul(10) {
                Some(y) => y.checked_add(d),
                None => None,
            },
            None => None,
        };
        i += 1;
    }
    proof {
        lemma_digits_end_bounds(bytes@, i as int);
        lemma_digits_end_is(bytes@, i as int, i as int);
    }
    let leading_zero = i - from > 1 && bytes[from] == 0x30;
    if i == from || leading_zero {
        proof {
            let run = bytes@.subrange(from as int, i as int);
            if leading_zero {
                assert(run[0] == bytes@[from as int]);
            }
        }
        (i, None)
    } else {
        proof {
            let run = bytes@.subrange(from as int, i as int);
            assert forall|k: int| 0 <= k < run.len() implies is_digit(#[trigger] run[k]) by {
                assert(run[k] == bytes@[from + k]);
            }
            assert(run[0] == bytes@[from as int]);
        }
        (i, value)
    }
}

impl Version {
    /// Whether this version is ordered before `other`: by major, then minor, then patch.
    pub open spec fn precedes(self, other: Version) -> bool {
        ||| self.major < other.major
        ||| self.major == other.major && self.minor < other.minor
        ||| self.major == other.major && self.minor == other.minor && self.patch < other.patch
    }

    /// Decides `precedes`.
    pub fn older_than(&self, other: &Version) -> (r: bool)
        ensures
            r == self.precedes(*other),
    {
        self.major < other.major || (self.major == other.major && (self.minor < other.minor || (
        self.minor == other.minor && self.patch < other.patch)))
    }

    /// The version that `text` spells: three decimal numbers that fit in 64 bits, without
    /// sign or leading zeros, joined by dots. `None` for any other text.
    pub fn parse(text: &str) -> (r: Option<Version>)
        ensures
            r == version_of(text@),
            r matches Some(v) ==> bytes_of(text@) == spelling(v),
            r is None ==> forall|v: Version| bytes_of(text@) != #[trigger] spelling(v),
    {
        let bytes = text.as_bytes();
        let r = Version::parse_bytes(bytes);
        proof {
            match r {
                Some(v) => {
                    lemma_version_spelling(bytes@, v);
                },
                None => {
                    assert forall|v: Version| bytes@ != #[trigger] spelling(v) by {
                        lemma_version_spelling(bytes@, v);
                    }
                },
            }
        }
        r
    }

    fn parse_bytes(bytes: &[u8]) -> (r: Option<Version>)
        ensures
            r == version_of_bytes(bytes@),
    {
        let n = bytes.len();
        let (i, major) = scan_number(bytes, 0);
        if i >= n || bytes[i] != 0x2e {
            return None;
        }
        let (j, minor) = scan_number(bytes, i + 1);
        if j >= n || bytes[j] != 0x2e {
            return None;
        }
        let (k, patch) = scan_number(bytes, j + 1);
        if k != n {
            return None;
        }
        match (major, minor, patch) {
            (Some(a), Some(b), Some(c)) => Some(Version { major: a, minor: b, patch: c }),
            _ => None,
        }
    }
}

/// The order of versions is strict and total.
pub proof fn lemma_precedes_total(a: Version, b: Version, c: Version)
    ensures
        !a.precedes(a),
        a.precedes(b) ==> !b.precedes(a),
        a.precedes(b) && b.precedes(c) ==> a.precedes(c),
        a.precedes(b) || b.precedes(a) || a == b,
{
}

} // verus!
