//! Spatial primitives shared by the handlers: point equality, feature
//! existence, first-match lookup in the feature list, and rectangle
//! containment with min/max normalization.

use vstd::prelude::*;
use crate::types::{Feature, Point, Rectangle};

verus! {

/// Whether a feature is "present": its name is non-empty. An empty name is
/// the sentinel for "no feature stored at this point".
pub open spec fn spec_feature_exists(f: Feature) -> bool {
    f.name@.len() > 0
}

/// The first stored feature whose location equals `location`, if any.
pub open spec fn spec_find_feature(features: Seq<Feature>, location: Point) -> Option<Feature>
    decreases features.len(),
{
    if features.len() == 0 {
        None
    } else if features.first().location == location {
        Some(features.first())
    } else {
        spec_find_feature(features.drop_first(), location)
    }
}

/// The smaller of the two longitudes (resp. latitudes) of a rectangle's
/// corners bounds the box on the left (resp. bottom), the larger on the
/// right (resp. top); containment is inclusive on all four edges.
pub open spec fn spec_in_range(point: Point, rect: Rectangle) -> bool {
    let left = vstd::math::min(rect.lo.longitude as int, rect.hi.longitude as int);
    let right = vstd::math::max(rect.lo.longitude as int, rect.hi.longitude as int);
    let bottom = vstd::math::min(rect.lo.latitude as int, rect.hi.latitude as int);
    let top = vstd::math::max(rect.lo.latitude as int, rect.hi.latitude as int);
    left <= point.longitude <= right && bottom <= point.latitude <= top
}

/// Indicates whether the given feature exists (i.e. has a non-empty name).
pub fn feature_exists(feature: &Feature) -> (r: bool)
    ensures
        r == spec_feature_exists(*feature),
{
    !feature.name.as_str().is_empty()
}

/// Indicates whether the given two points are equal: exact integer equality
/// on both fields, no tolerance.
pub fn point_eq(p1: &Point, p2: &Point) -> (r: bool)
    ensures
        r == (*p1 == *p2),
{
    if p1.latitude == p2.latitude && p1.longitude == p2.longitude {
        true
    } else {
        false
    }
}

/// Linear scan for the first feature located at `location`; the returned
/// feature is an exact copy of the stored one.
pub fn check_feature(features: &Vec<Feature>, location: &Point) -> (r: Option<Feature>)
    ensures
        r == spec_find_feature(features@, *location),
{
    let n = features.len();
    let mut i: usize = 0;
    proof {
        assert(features@.skip(0) =~= features@);
    }
    while i < n
        invariant
            n == features@.len(),
            0 <= i <= n,
            spec_find_feature(features@, *location) == spec_find_feature(
                features@.skip(i as int),
                *location,
            ),
        decreases n - i,
    {
        proof {
            assert(features@.skip(i as int).first() == features@[i as int]);
            assert(features@.skip(i as int).drop_first() =~= features@.skip(i as int + 1));
        }
        if point_eq(&features[i].location, location) {
            return Some(features[i].duplicate());
        }
        i += 1;
    }
    proof {
        assert(features@.skip(n as int) =~= Seq::<Feature>::empty());
    }
    None
}

/// Indicates whether the given point is in the range of the given rectangle.
/// The corners are normalized first, so neither needs to be the smaller one.
pub fn in_range(point: &Point, rect: &Rectangle) -> (r: bool)
    ensures
        r == spec_in_range(*point, *rect),
{
    let left = if rect.lo.longitude <= rect.hi.longitude {
        rect.lo.longitude
    } else {
        rect.hi.longitude
    };
    let right = if rect.lo.longitude >= rect.hi.longitude {
        rect.lo.longitude
    } else {
        rect.hi.longitude
    };
    let bottom = if rect.lo.latitude <= rect.hi.latitude {
        rect.lo.latitude
    } else {
        rect.hi.latitude
    };
    let top = if rect.lo.latitude >= rect.hi.latitude {
        rect.lo.latitude
    } else {
        rect.hi.latitude
    };

    let lat = point.latitude;
    let lon = point.longitude;

    if lon >= left && lon <= right && lat >= bottom && lat <= top {
        true
    } else {
        false
    }
}

/// Containment does not depend on which corner was handed over as `lo` and
/// which as `hi`: swapping them describes the same box.
pub proof fn lemma_in_range_swap(point: Point, rect: Rectangle)
    ensures
        spec_in_range(point, Rectangle { lo: rect.hi, hi: rect.lo }) == spec_in_range(point, rect),
{
}

/// Containment only reads the normalized envelope: two rectangles whose
/// corners carry the same pair of longitudes and the same pair of
/// latitudes — in whatever corner each sits — contain the same points.
pub proof fn lemma_in_range_normalization(point: Point, a: Rectangle, b: Rectangle)
    requires
        (a.lo.longitude == b.lo.longitude && a.hi.longitude == b.hi.longitude) || (a.lo.longitude
            == b.hi.longitude && a.hi.longitude == b.lo.longitude),
        (a.lo.latitude == b.lo.latitude && a.hi.latitude == b.hi.latitude) || (a.lo.latitude
            == b.hi.latitude && a.hi.latitude == b.lo.latitude),
    ensures
        spec_in_range(point, a) == spec_in_range(point, b),
{
}

/// Coordinates are stored as degrees scaled by this factor.
pub const COORD_FACTOR: u64 = 10000000;

/// The decimal digit character for `d` (`0 <= d <= 9`).
pub open spec fn spec_digit_char(d: int) -> char {
    ((48 + d) as u8) as char
}

/// The decimal digits of `n`, most significant first, no leading zeros
/// (a single `'0'` for zero).
pub open spec fn spec_decimal(n: nat) -> Seq<char>
    decreases n,
{
    if n < 10 {
        seq![spec_digit_char(n as int)]
    } else {
        spec_decimal(n / 10).push(spec_digit_char((n % 10) as int))
    }
}

/// The last `width` decimal digits of `n`, zero-padded on the left.
pub open spec fn spec_padded(n: nat, width: nat) -> Seq<char>
    decreases width,
{
    if width == 0 {
        Seq::empty()
    } else {
        spec_padded(n / 10, (width - 1) as nat).push(spec_digit_char((n % 10) as int))
    }
}

/// `s` without its trailing `'0'` characters.
pub open spec fn spec_strip_zeros(s: Seq<char>) -> Seq<char>
    decreases s.len(),
{
    if s.len() > 0 && s.last() == '0' {
        spec_strip_zeros(s.drop_last())
    } else {
        s
    }
}

/// The decimal rendering of the unscaled magnitude `a / 10^7`: the whole
/// degrees, then — only if the fractional part is non-zero — a dot and the
/// seven-digit fraction with trailing zeros stripped.
pub open spec fn spec_magnitude(a: nat) -> Seq<char> {
    let whole = a / (COORD_FACTOR as nat);
    let frac = a % (COORD_FACTOR as nat);
    if frac == 0 {
        spec_decimal(whole)
    } else {
        spec_decimal(whole) + seq!['.'] + spec_strip_zeros(spec_padded(frac, 7))
    }
}

/// The decimal-degree rendering of one fixed-point coordinate: a leading
/// minus sign for negative values, then the magnitude.
pub open spec fn spec_coord(v: int) -> Seq<char> {
    if v < 0 {
        seq!['-'] + spec_magnitude((-v) as nat)
    } else {
        spec_magnitude(v as nat)
    }
}

/// `"(<latitude degrees>, <longitude degrees>)"` as a character sequence.
pub open spec fn spec_format_point(p: Point) -> Seq<char> {
    seq!['('] + spec_coord(p.latitude as int) + seq![',', ' '] + spec_coord(p.longitude as int)
        + seq![')']
}

/// Relies on std's `FromIterator` implementation for `String`: collecting
/// an iterator of characters yields the string of exactly those characters
/// in order.
#[verifier::external_body]
fn string_from_chars(v: &Vec<char>) -> (r: String)
    ensures
        r@ == v@,
{
    v.iter().collect()
}

/// Appends the decimal digits of `n`.
fn push_decimal(v: &mut Vec<char>, n: u64)
    ensures
        final(v)@ == old(v)@ + spec_decimal(n as nat),
    decreases n,
{
    if n < 10 {
        v.push((48 + n as u8) as char);
        proof {
            assert(v@ =~= old(v)@ + spec_decimal(n as nat));
        }
    } else {
        push_decimal(v, n / 10);
        v.push((48 + (n % 10) as u8) as char);
        proof {
            assert(v@ =~= old(v)@ + spec_decimal(n as nat));
        }
    }
}

/// Appends the last `width` decimal digits of `n`, zero-padded.
fn push_padded(v: &mut Vec<char>, n: u64, width: usize)
    ensures
        final(v)@ == old(v)@ + spec_padded(n as nat, width as nat),
    decreases width,
{
    if width > 0 {
        push_padded(v, n / 10, width - 1);
        v.push((48 + (n % 10) as u8) as char);
    }
    proof {
        assert(v@ =~= old(v)@ + spec_padded(n as nat, width as nat));
    }
}

/// The seven-digit fraction of a coordinate with trailing zeros stripped.
fn frac_chars(frac: u64) -> (v: Vec<char>)
    ensures
        v@ == spec_strip_zeros(spec_padded(frac as nat, 7)),
{
    let mut v: Vec<char> = Vec::new();
    push_padded(&mut v, frac, 7);
    proof {
        assert(v@ =~= spec_padded(frac as nat, 7));
    }
    while v.len() > 0 && v[v.len() - 1] == '0'
        invariant
            spec_strip_zeros(v@) == spec_strip_zeros(spec_padded(frac as nat, 7)),
        decreases v.len(),
    {
        v.pop();
    }
    v
}

/// Appends the decimal-degree rendering of one fixed-point coordinate.
fn push_coord(v: &mut Vec<char>, value: i32)
    ensures
        final(v)@ == old(v)@ + spec_coord(value as int),
{
    let mag: u64 = if value < 0 {
        v.push('-');
        (-(value as i64)) as u64
    } else {
        value as u64
    };
    let whole = mag / COORD_FACTOR;
    let frac = mag % COORD_FACTOR;
    push_decimal(v, whole);
    if frac != 0 {
        v.push('.');
        let mut f = frac_chars(frac);
        v.append(&mut f);
    }
    proof {
        assert(v@ =~= old(v)@ + spec_coord(value as int));
    }
}

/// Renders the point as `"(<latitude>, <longitude>)"` in decimal degrees
/// (both fields divided by 10^7, trailing zeros omitted).
pub fn format_point(point: &Point) -> (r: String)
    ensures
        r@ == spec_format_point(*point),
{
    let mut v: Vec<char> = Vec::new();
    v.push('(');
    push_coord(&mut v, point.latitude);
    v.push(',');
    v.push(' ');
    push_coord(&mut v, point.longitude);
    v.push(')');
    proof {
        assert(v@ =~= spec_format_point(*point));
    }
    string_from_chars(&v)
}

/// A found feature really lies at the queried location and comes from the
/// list, and the scan succeeds exactly when some stored feature lies there.
pub proof fn lemma_find_feature_properties(features: Seq<Feature>, location: Point)
    ensures
        (spec_find_feature(features, location) is Some) == (exists|i: int|
            0 <= i < features.len() && features[i].location == location),
        spec_find_feature(features, location) matches Some(f) ==> features.contains(f)
            && f.location == location,
    decreases features.len(),
{
    if features.len() > 0 {
        if features.first().location == location {
            assert(features[0].location == location);
        } else {
            lemma_find_feature_properties(features.drop_first(), location);
            let rest = features.drop_first();
            if spec_find_feature(features, location) is Some {
                let f = spec_find_feature(features, location)->Some_0;
                let j = choose|j: int| 0 <= j < rest.len() && rest[j] == f;
                assert(features[j + 1] == f);
            }
            if exists|i: int| 0 <= i < features.len() && features[i].location == location {
                let i = choose|i: int|
                    0 <= i < features.len() && features[i].location == location;
                assert(i > 0);
                assert(rest[i - 1].location == location);
            }
        }
    }
}

} // verus!
