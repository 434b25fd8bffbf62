use vstd::prelude::*;

verus! {

/// One degree in the fixed-point unit used for every coordinate (1e-7 degrees).
pub const DEGREE: i64 = 10_000_000;

/// The largest magnitude of a latitude, in 1e-7 degrees.
pub const MAX_LAT: i64 = 900_000_000;

/// The largest magnitude of a longitude, in 1e-7 degrees.
pub const MAX_LNG: i64 = 1_800_000_000;

/// A point on the globe, in units of 1e-7 degrees.
#[derive(Debug, Clone, Copy, PartialEq, Eq, Structural)]
pub struct LatLng {
    pub lat: i64,
    pub lng: i64,
}

/// The rectangle of the map that is currently visible.
#[derive(Debug, Clone, Copy, PartialEq, Eq, Structural)]
pub struct BBox {
    pub north_east: LatLng,
    pub south_west: LatLng,
}

impl BBox {
    /// Builds a box from its south-west and north-east corners.
    pub fn new(south_west_lat: i64, south_west_lng: i64, north_east_lat: i64, north_east_lng: i64) -> (r: Self)
        ensures
            r.south_west == (LatLng { lat: south_west_lat, lng: south_west_lng }),
            r.north_east == (LatLng { lat: north_east_lat, lng: north_east_lng }),
    {
        BBox {
            south_west: LatLng { lat: south_west_lat, lng: south_west_lng },
            north_east: LatLng { lat: north_east_lat, lng: north_east_lng },
        }
    }

    /// The four ordinates in query order: south-west, then north-east.
    pub open spec fn ordinates(self) -> Seq<i64> {
        seq![self.south_west.lat, self.south_west.lng, self.north_east.lat, self.north_east.lng]
    }

    /// The ordinates as the entries search expects them: `swLat, swLng, neLat, neLng`.
    pub fn to_vec(&self) -> (r: Vec<i64>)
        ensures
            r@ == self.ordinates(),
    {
        let r = vec![self.south_west.lat, self.south_west.lng, self.north_east.lat, self.north_east.lng];
        assert(r@ =~= self.ordinates());
        r
    }
}


pub open spec fn is_digit(c: char) -> bool {
    '0' <= c && c <= '9'
}

pub open spec fn digit_of(c: char) -> int {
    c as int - '0' as int
}

pub open spec fn all_digits(s: Seq<char>) -> bool {
    forall|i: int| 0 <= i < s.len() ==> is_digit(#[trigger] s[i])
}

/// The value of a string of decimal digits, most significant first.
pub open spec fn digits_value(s: Seq<char>) -> int
    decreases s.len(),
{
    if s.len() == 0 {
        0
    } else {
        10 * digits_value(s.drop_last()) + digit_of(s.last())
    }
}

pub open spec fn pow10(n: nat) -> int
    decreases n,
{
    if n == 0 {
        1
    } else {
        10 * pow10((n - 1) as nat)
    }
}

/// How many decimal digits `s` starts with.
pub open spec fn leading_digits(s: Seq<char>) -> nat
    decreases s.len(),
{
    if s.len() > 0 && is_digit(s[0]) {
        1 + leading_digits(s.skip(1))
    } else {
        0
    }
}

/// A fraction's digits in 1e-7 units: the first seven digits count, padded
/// with zeros on the right; further digits are cut off.
pub open spec fn fraction_e7(f: Seq<char>) -> int {
    if f.len() >= 7 {
        digits_value(f.take(7))
    } else {
        digits_value(f) * pow10((7 - f.len()) as nat)
    }
}

/// An unsigned decimal number of degrees: one to three integer digits,
/// optionally followed by `.` and at least one fraction digit.
pub open spec fn unsigned_e7(s: Seq<char>) -> Option<int> {
    let k = leading_digits(s) as int;
    let rest = s.skip(k);
    if 1 <= k <= 3 {
        if rest.len() == 0 {
            Some(digits_value(s.take(k)) * DEGREE)
        } else if rest[0] == '.' && rest.len() >= 2 && all_digits(rest.skip(1)) {
            Some(digits_value(s.take(k)) * DEGREE + fraction_e7(rest.skip(1)))
        } else {
            None
        }
    } else {
        None
    }
}

/// A decimal number of degrees with an optional leading `-`, in 1e-7 degrees.
pub open spec fn decimal_e7(s: Seq<char>) -> Option<int> {
    if s.len() > 0 && s[0] == '-' {
        match unsigned_e7(s.skip(1)) {
            Some(v) => Some(-v),
            None => None,
        }
    } else {
        unsigned_e7(s)
    }
}

proof fn lemma_leading_digits(u: Seq<char>, k: int)
    requires
        0 <= k <= u.len(),
        forall|j: int| 0 <= j < k ==> is_digit(#[trigger] u[j]),
        k == u.len() || !is_digit(u[k]),
    ensures
        leading_digits(u) == k,
    decreases k,
{
    if k > 0 {
        let t = u.skip(1);
        assert forall|j: int| 0 <= j < k - 1 implies is_digit(#[trigger] t[j]) by {
            assert(t[j] == u[j + 1]);
        }
        if k < u.len() {
            assert(t[k - 1] == u[k]);
        }
        lemma_leading_digits(t, k - 1);
    }
}

fn is_digit_char(c: char) -> (r: bool)
    ensures
        r == is_digit(c),
{
    '0' <= c && c <= '9'
}

/// The end of the run of digits that starts at `from`.
fn digits_end(s: &str, from: usize) -> (e: usize)
    requires
        from <= s@.len(),
    ensures
        from <= e <= s@.len(),
        e - from == leading_digits(s@.skip(from as int)),
        forall|j: int| from <= j < e ==> is_digit(#[trigger] s@[j]),
        e < s@.len() ==> !is_digit(s@[e as int]),
{
    let n = s.unicode_len();
    let mut i: usize = from;
    while i < n && is_digit_char(s.get_char(i))
        invariant
            from <= i <= n,
            n == s@.len(),
            forall|j: int| from <= j < i ==> is_digit(#[trigger] s@[j]),
        decreases n - i,
    {
        i = i + 1;
    }
    let ghost u = s@.skip(from as int);
    assert forall|j: int| 0 <= j < i - from implies is_digit(#[trigger] u[j]) by {
        assert(u[j] == s@[from + j]);
    }
    if i < n {
        assert(u[i - from] == s@[i as int]);
    }
    proof {
        lemma_leading_digits(u, i - from);
    }
    i
}

/// Whether every character from `from` on is a digit.
fn digits_to_end(s: &str, from: usize) -> (r: bool)
    requires
        from <= s@.len(),
    ensures
        r == all_digits(s@.skip(from as int)),
{
    let e = digits_end(s, from);
    let ghost u = s@.skip(from as int);
    if e == s.unicode_len() {
        assert forall|j: int| 0 <= j < u.len() implies is_digit(#[trigger] u[j]) by {
            assert(u[j] == s@[from + j]);
        }
        true
    } else {
        assert(u[e - from] == s@[e as int]);
        proof {
            if all_digits(u) {
                assert(is_digit(u[e - from]));
                let k = e - from;
                assert forall|j: int| 0 <= j < k implies is_digit(#[trigger] u[j]) by {
                    assert(u[j] == s@[from + j]);
                }
            }
        }
        false
    }
}

/// The value of the digits in `from..to`, at most seven of them.
fn digits_val(s: &str, from: usize, to: usize) -> (v: i64)
    requires
        from <= to <= s@.len(),
        to - from <= 7,
        forall|j: int| from <= j < to ==> is_digit(#[trigger] s@[j]),
    ensures
        v == digits_value(s@.subrange(from as int, to as int)),
        0 <= v < pow10((to - from) as nat),
{
    let mut acc: i64 = 0;
    let mut i: usize = from;
    proof {
        assert(s@.subrange(from as int, from as int) =~= Seq::<char>::empty());
        reveal_with_fuel(pow10, 8);
    }
    while i < to
        invariant
            from <= i <= to,
            to <= s@.len(),
            to - from <= 7,
            forall|j: int| from <= j < to ==> is_digit(#[trigger] s@[j]),
            acc == digits_value(s@.subrange(from as int, i as int)),
            0 <= acc < pow10((i - from) as nat),
            pow10((i - from) as nat) <= 10_000_000,
        decreases to - i,
    {
        let c = s.get_char(i);
        assert(is_digit(s@[i as int]));
        let d = (c as u32 - '0' as u32) as i64;
        let ghost prev = s@.subrange(from as int, i as int);
        let ghost next = s@.subrange(from as int, i + 1);
        assert(next.drop_last() =~= prev);
        assert(next.last() == c);
        acc = 10 * acc + d;
        i = i + 1;
        proof {
            assert(pow10((i - from) as nat) == 10 * pow10((i - 1 - from) as nat));
            lemma_pow10_le(((i - from) as nat), 7);
        }
    }
    acc
}

proof fn lemma_pow10_le(a: nat, b: nat)
    requires
        a <= b,
        b <= 7,
    ensures
        pow10(a) <= pow10(b),
        pow10(b) <= 10_000_000,
    decreases b - a,
{
    reveal_with_fuel(pow10, 8);
    if a < b {
        lemma_pow10_le(a + 1, b);
    }
}

fn pow10_exec(n: usize) -> (r: i64)
    requires
        n <= 7,
    ensures
        r == pow10(n as nat),
{
    let mut r: i64 = 1;
    let mut i: usize = 0;
    while i < n
        invariant
            i <= n <= 7,
            r == pow10(i as nat),
            r >= 1,
        decreases n - i,
    {
        proof {
            let j: nat = (i + 1) as nat;
            lemma_pow10_le(j, 7);
            assert(pow10(j) == 10 * pow10((j - 1) as nat));
            assert(r * 10 <= 10_000_000);
        }
        r = r * 10;
        i = i + 1;
    }
    r
}

/// Reads the unsigned decimal that starts at `from`.
fn parse_unsigned(s: &str, from: usize) -> (r: Option<i64>)
    requires
        from <= s@.len(),
    ensures
        match r {
            Some(v) => unsigned_e7(s@.skip(from as int)) == Some(v as int) && 0 <= v < 10_000_000_000,
            None => unsigned_e7(s@.skip(from as int)) is None,
        },
{
    let ghost u = s@.skip(from as int);
    let n = s.unicode_len();
    let e = digits_end(s, from);
    let k = e - from;
    if k < 1 || k > 3 {
        return None;
    }
    let ip = digits_val(s, from, e);
    assert(u.take(k as int) =~= s@.subrange(from as int, e as int));
    proof {
        lemma_pow10_le(k as nat, 3);
        reveal_with_fuel(pow10, 8);
        assert(ip < 1000);
    }
    let whole = ip * DEGREE;
    let ghost rest = u.skip(k as int);
    assert(rest =~= s@.skip(e as int));
    if e == n {
        return Some(whole);
    }
    assert(rest[0] == s@[e as int]);
    if s.get_char(e) != '.' || n - e < 2 {
        return None;
    }
    let p = e + 1;
    assert(rest.skip(1) =~= s@.skip(p as int));
    if !digits_to_end(s, p) {
        return None;
    }
    let ghost f = s@.skip(p as int);
    assert forall|j: int| p <= j < n implies is_digit(#[trigger] s@[j]) by {
        assert(s@[j] == f[j - p]);
    }
    let frac = if n - p >= 7 {
        assert(f.take(7) =~= s@.subrange(p as int, p + 7));
        proof {
            reveal_with_fuel(pow10, 8);
        }
        digits_val(s, p, p + 7)
    } else {
        assert(f =~= s@.subrange(p as int, n as int));
        let d = digits_val(s, p, n);
        let m = pow10_exec(7 - (n - p));
        proof {
            lemma_pow10_le((n - p) as nat, 7);
            lemma_pow10_split((n - p) as nat);
            assert(d * m < pow10((n - p) as nat) * m) by (nonlinear_arith)
                requires d < pow10((n - p) as nat), m > 0;
        }
        d * m
    };
    assert(0 <= frac < 10_000_000);
    assert(frac == fraction_e7(f));
    Some(whole + frac)
}

proof fn lemma_pow10_split(a: nat)
    requires
        a <= 7,
    ensures
        pow10(a) * pow10((7 - a) as nat) == 10_000_000,
        pow10((7 - a) as nat) > 0,
{
    reveal_with_fuel(pow10, 8);
    lemma_pow10_add(a, (7 - a) as nat);
    lemma_pow10_le(0, (7 - a) as nat);
}

proof fn lemma_pow10_add(a: nat, b: nat)
    ensures
        pow10(a + b) == pow10(a) * pow10(b),
    decreases a,
{
    if a > 0 {
        lemma_pow10_add((a - 1) as nat, b);
        assert(pow10(a + b) == 10 * pow10((a - 1 + b) as nat));
        let x = pow10((a - 1) as nat);
        let y = pow10(b);
        assert(10 * (x * y) == (10 * x) * y) by (nonlinear_arith);
    }
}

/// Reads a decimal number of degrees (`"52.52"`, `"-0.1278"`) into 1e-7 degrees.
/// Digits past the seventh after the point are cut off.
pub fn parse_degrees(s: &str) -> (r: Option<i64>)
    ensures
        match r {
            Some(v) => decimal_e7(s@) == Some(v as int) && -10_000_000_000 < v < 10_000_000_000,
            None => decimal_e7(s@) is None,
        },
{
    let n = s.unicode_len();
    if n > 0 && s.get_char(0) == '-' {
        match parse_unsigned(s, 1) {
            Some(v) => Some(-v),
            None => None,
        }
    } else {
        assert(s@.skip(0) =~= s@);
        parse_unsigned(s, 0)
    }
}

} // verus!
