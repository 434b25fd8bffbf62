use crate::geo::{BBox, DEGREE};
use vstd::prelude::*;
use vstd::string::StringSliceAdditionalSpecFns;

verus! {

/// Where places are looked up; the query follows.
pub const PLACE_SEARCH_PREFIX: &'static str = "https://nominatim.openstreetmap.org/search?q=";

/// Asks for JSON with address details; follows the query.
pub const PLACE_SEARCH_SUFFIX: &'static str = "&format=json&addressdetails=1";

/// Where entries are searched, with the two categories shown; the box follows.
pub const ENTRIES_SEARCH_PREFIX: &'static str =
    "https://api.ofdb.io/v0/search?text=&categories=2cd00bebec0c48ba9db761da48678134,77b3c33a92554bcf8e8c2c86cedd6f6f&bbox=";

/// Letters, digits and `-._~` stand for themselves in a query.
pub open spec fn is_unreserved(b: u8) -> bool {
    (0x41 <= b <= 0x5a) || (0x61 <= b <= 0x7a) || (0x30 <= b <= 0x39) || b == 0x2d || b == 0x2e
        || b == 0x5f || b == 0x7e
}

/// An upper-case hexadecimal digit.
pub open spec fn hex_digit(n: u8) -> char {
    if n < 10 {
        ((n + 0x30) as u8) as char
    } else {
        ((n + 0x37) as u8) as char
    }
}

/// One byte of a query: itself when unreserved, else `%` and two hex digits.
pub open spec fn byte_text(b: u8) -> Seq<char> {
    if is_unreserved(b) {
        seq![b as char]
    } else {
        seq!['%', hex_digit(b / 16), hex_digit(b % 16)]
    }
}

/// The percent-encoding of a query's UTF-8 bytes.
pub open spec fn percent_encoded(bs: Seq<u8>) -> Seq<char>
    decreases bs.len(),
{
    if bs.len() == 0 {
        seq![]
    } else {
        percent_encoded(bs.drop_last()) + byte_text(bs.last())
    }
}

/// A decimal digit.
pub open spec fn digit_char(n: nat) -> char {
    ((n % 10 + 0x30) as u8) as char
}

/// The decimal digits of `n`, without leading zeros.
pub open spec fn digits_of(n: nat) -> Seq<char>
    decreases n,
{
    if n < 10 {
        seq![digit_char(n)]
    } else {
        digits_of(n / 10).push(digit_char(n % 10))
    }
}

/// The last `k` decimal digits of `n`, zero-padded on the left.
pub open spec fn padded_digits(n: nat, k: nat) -> Seq<char>
    decreases k,
{
    if k == 0 {
        seq![]
    } else {
        padded_digits(n / 10, (k - 1) as nat).push(digit_char(n % 10))
    }
}

pub open spec fn trim_zeros(s: Seq<char>) -> Seq<char>
    decreases s.len(),
{
    if s.len() > 0 && s.last() == '0' {
        trim_zeros(s.drop_last())
    } else {
        s
    }
}

/// A coordinate in 1e-7 degrees written in degrees: a `-` when negative, the
/// whole degrees, then `.` and the fraction without trailing zeros, if any
/// (`525200000` is `52.52`, `130000000` is `13`).
pub open spec fn degrees_text(v: int) -> Seq<char> {
    let a: nat = if v < 0 { (-v) as nat } else { v as nat };
    let sign: Seq<char> = if v < 0 { seq!['-'] } else { seq![] };
    let frac = trim_zeros(padded_digits(a % (DEGREE as nat), 7));
    sign + digits_of(a / (DEGREE as nat)) + if frac.len() == 0 { seq![] } else { seq!['.'] + frac }
}

/// The box as the entries search takes it: `swLat,swLng,neLat,neLng`.
pub open spec fn bbox_text(b: BBox) -> Seq<char> {
    degrees_text(b.south_west.lat as int) + seq![','] + degrees_text(b.south_west.lng as int) + seq![',']
        + degrees_text(b.north_east.lat as int) + seq![','] + degrees_text(b.north_east.lng as int)
}

/// Relies on std's `FromIterator<char>` for `String`: the characters in order.
#[verifier::external_body]
fn string_of(cs: &Vec<char>) -> (r: String)
    ensures
        r@ == cs@,
{
    cs.iter().collect()
}

fn hex_char(n: u8) -> (c: char)
    requires
        n < 16,
    ensures
        c == hex_digit(n),
{
    if n < 10 {
        (n + 0x30) as char
    } else {
        (n + 0x37) as char
    }
}

fn push_byte(out: &mut Vec<char>, b: u8)
    ensures
        final(out)@ == old(out)@ + byte_text(b),
{
    if (0x41 <= b && b <= 0x5a) || (0x61 <= b && b <= 0x7a) || (0x30 <= b && b <= 0x39) || b == 0x2d
        || b == 0x2e || b == 0x5f || b == 0x7e {
        out.push(b as char);
    } else {
        out.push('%');
        out.push(hex_char(b / 16));
        out.push(hex_char(b % 16));
    }
    assert(final(out)@ =~= old(out)@ + byte_text(b));
}

/// The query text percent-encoded, byte by byte.
pub fn encode_query(q: &str) -> (r: Vec<char>)
    ensures
        r@ == percent_encoded(q.spec_bytes()),
{
    let bs = q.as_bytes();
    let mut out: Vec<char> = Vec::new();
    let mut i: usize = 0;
    while i < bs.len()
        invariant
            i <= bs@.len(),
            bs@ == q.spec_bytes(),
            out@ == percent_encoded(bs@.take(i as int)),
        decreases bs@.len() - i,
    {
        let ghost t = bs@.take(i as int + 1);
        assert(t.drop_last() =~= bs@.take(i as int));
        push_byte(&mut out, bs[i]);
        i = i + 1;
    }
    assert(bs@.take(bs@.len() as int) =~= bs@);
    out
}

fn digit_exec(n: u64) -> (c: char)
    ensures
        c == digit_char(n as nat),
{
    ((n % 10) as u8 + 0x30) as char
}

fn push_digits(out: &mut Vec<char>, n: u64)
    ensures
        final(out)@ == old(out)@ + digits_of(n as nat),
    decreases n,
{
    if n < 10 {
        out.push(digit_exec(n));
    } else {
        push_digits(out, n / 10);
        out.push(digit_exec(n % 10));
        assert(digit_char((n % 10) as nat) == digit_char(n as nat % 10));
    }
    assert(final(out)@ =~= old(out)@ + digits_of(n as nat));
}

fn push_padded(out: &mut Vec<char>, n: u64, k: u64)
    ensures
        final(out)@ == old(out)@ + padded_digits(n as nat, k as nat),
    decreases k,
{
    if k > 0 {
        push_padded(out, n / 10, k - 1);
        out.push(digit_exec(n % 10));
        assert(digit_char((n % 10) as nat) == digit_char(n as nat % 10));
    }
    assert(final(out)@ =~= old(out)@ + padded_digits(n as nat, k as nat));
}

fn push_degrees(out: &mut Vec<char>, v: i64)
    ensures
        final(out)@ == old(out)@ + degrees_text(v as int),
{
    let a: u64 = if v < 0 { (-(v as i128)) as u64 } else { v as u64 };
    let ghost start = out@;
    if v < 0 {
        out.push('-');
    }
    push_digits(out, a / (DEGREE as u64));
    let mut frac: Vec<char> = Vec::new();
    push_padded(&mut frac, a % (DEGREE as u64), 7);
    let ghost full = frac@;
    assert(frac@ =~= padded_digits((a % (DEGREE as u64)) as nat, 7));
    while frac.len() > 0 && frac[frac.len() - 1] == '0'
        invariant
            trim_zeros(frac@) == trim_zeros(full),
        decreases frac@.len(),
    {
        let ghost before = frac@;
        frac.pop();
        assert(frac@ =~= before.drop_last());
    }
    assert(trim_zeros(frac@) == frac@);
    if frac.len() > 0 {
        out.push('.');
        let mut i: usize = 0;
        let ghost mid = out@;
        while i < frac.len()
            invariant
                i <= frac@.len(),
                out@ == mid + frac@.take(i as int),
            decreases frac@.len() - i,
        {
            out.push(frac[i]);
            i = i + 1;
            assert(out@ =~= mid + frac@.take(i as int));
        }
        assert(frac@.take(frac@.len() as int) =~= frac@);
    }
    assert(final(out)@ =~= old(out)@ + degrees_text(v as int));
}

fn push_str_chars(out: &mut Vec<char>, s: &str)
    ensures
        final(out)@ == old(out)@ + s@,
{
    let n = s.unicode_len();
    let mut i: usize = 0;
    let ghost start = out@;
    while i < n
        invariant
            i <= n,
            n == s@.len(),
            out@ == start + s@.take(i as int),
        decreases n - i,
    {
        out.push(s.get_char(i));
        i = i + 1;
        assert(out@ =~= start + s@.take(i as int));
    }
    assert(s@.take(n as int) =~= s@);
}

/// The place-search request for a query.
pub fn place_search_url(query: &str) -> (r: String)
    ensures
        r@ == PLACE_SEARCH_PREFIX@ + percent_encoded(query.spec_bytes()) + PLACE_SEARCH_SUFFIX@,
{
    let mut cs: Vec<char> = Vec::new();
    push_str_chars(&mut cs, PLACE_SEARCH_PREFIX);
    let enc = encode_query(query);
    let mut i: usize = 0;
    let ghost mid = cs@;
    while i < enc.len()
        invariant
            i <= enc@.len(),
            cs@ == mid + enc@.take(i as int),
        decreases enc@.len() - i,
    {
        cs.push(enc[i]);
        i = i + 1;
        assert(cs@ =~= mid + enc@.take(i as int));
    }
    assert(enc@.take(enc@.len() as int) =~= enc@);
    push_str_chars(&mut cs, PLACE_SEARCH_SUFFIX);
    assert(cs@ =~= PLACE_SEARCH_PREFIX@ + percent_encoded(query.spec_bytes()) + PLACE_SEARCH_SUFFIX@);
    string_of(&cs)
}

/// The entries-search request for a box.
pub fn entries_search_url(b: &BBox) -> (r: String)
    ensures
        r@ == ENTRIES_SEARCH_PREFIX@ + bbox_text(*b),
{
    let mut cs: Vec<char> = Vec::new();
    push_str_chars(&mut cs, ENTRIES_SEARCH_PREFIX);
    push_degrees(&mut cs, b.south_west.lat);
    cs.push(',');
    push_degrees(&mut cs, b.south_west.lng);
    cs.push(',');
    push_degrees(&mut cs, b.north_east.lat);
    cs.push(',');
    push_degrees(&mut cs, b.north_east.lng);
    assert(cs@ =~= ENTRIES_SEARCH_PREFIX@ + bbox_text(*b));
    string_of(&cs)
}

} // verus!
