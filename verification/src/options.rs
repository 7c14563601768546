//! The frame-size option: `WIDTHxHEIGHT` as given on the command line.

use vstd::prelude::*;

use crate::lut::{all_digits, dec_value, is_digit};
use vstd::string::StringSliceAdditionalSpecFns;

verus! {

/// A requested output frame size: width and height.
#[derive(Clone, Copy, Debug, PartialEq, Eq, Structural)]
pub struct FrameSize(pub u32, pub u32);

/// Why a size specification was rejected.
#[derive(Clone, Copy, Debug, PartialEq, Eq, Structural)]
pub enum SizeParseError {
    /// The width component is not a number that fits in 32 bits.
    BadWidth,
    /// There is no `x` separator, so no height component.
    MissingHeight,
    /// The height component is not a number that fits in 32 bits.
    BadHeight,
}

/// Index of the first `x` in `b`, or `b.len()` if there is none.
pub open spec fn find_x(b: Seq<u8>) -> nat
    decreases b.len(),
{
    if b.len() == 0 {
        0
    } else if b[0] == 120 {
        0
    } else {
        1 + find_x(b.drop_first())
    }
}

/// A numeric component: a nonempty run of decimal digits whose value fits in
/// 32 bits.
pub open spec fn valid_number(d: Seq<u8>) -> bool {
    d.len() > 0 && all_digits(d) && dec_value(d) <= u32::MAX
}

/// The bytes before the first `x`.
pub open spec fn width_part(b: Seq<u8>) -> Seq<u8> {
    b.take(find_x(b) as int)
}

/// The bytes between the first `x` and the next `x` or the end.
pub open spec fn height_part(b: Seq<u8>) -> Seq<u8> {
    let rest = b.skip(find_x(b) as int + 1);
    rest.take(find_x(rest) as int)
}

/// What parsing the byte content `b` of a size specification yields: the
/// width is read first and must be a valid number; then the separator must
/// exist; then the height must be a valid number.
pub open spec fn parse_size_result(b: Seq<u8>) -> Result<FrameSize, SizeParseError> {
    if !valid_number(width_part(b)) {
        Err(SizeParseError::BadWidth)
    } else if find_x(b) == b.len() {
        Err(SizeParseError::MissingHeight)
    } else if !valid_number(height_part(b)) {
        Err(SizeParseError::BadHeight)
    } else {
        Ok(
            FrameSize(
                dec_value(width_part(b)) as u32,
                dec_value(height_part(b)) as u32,
            ),
        )
    }
}

proof fn lemma_find_x_from_scan(b: Seq<u8>, i: int)
    requires
        0 <= i <= b.len(),
        forall|j: int| 0 <= j < i ==> b[j] != 120,
        i < b.len() ==> b[i] == 120,
    ensures
        find_x(b) == i,
    decreases b.len(),
{
    if i == 0 {
        if b.len() > 0 {
            assert(b[0] == 120);
        }
    } else {
        assert(b[0] != 120);
        let t = b.drop_first();
        assert forall|j: int| 0 <= j < i - 1 implies t[j] != 120 by {
            assert(t[j] == b[j + 1]);
        }
        if i - 1 < t.len() {
            assert(t[i - 1] == b[i]);
        }
        lemma_find_x_from_scan(t, i - 1);
    }
}

/// `dec_value` never shrinks as digits are appended.
proof fn lemma_dec_value_prefix_le(d: Seq<u8>, i: int)
    requires
        0 <= i <= d.len(),
    ensures
        dec_value(d.take(i)) <= dec_value(d),
    decreases d.len() - i,
{
    if i < d.len() {
        let p = d.take(i);
        let q = d.take(i + 1);
        assert(q.drop_last() =~= p);
        assert(dec_value(q) >= dec_value(p) * 10);
        assert(dec_value(p) * 10 >= dec_value(p));
        lemma_dec_value_prefix_le(d, i + 1);
        assert(d.take(d.len() as int) =~= d);
    } else {
        assert(d.take(i) =~= d);
    }
}

/// Finds the first `x` in `b` starting at `from`.
fn scan_x(b: &[u8], from: usize) -> (r: usize)
    requires
        from <= b@.len(),
    ensures
        from <= r <= b@.len(),
        forall|j: int| from <= j < r ==> b@[j] != 120,
        r < b@.len() ==> b@[r as int] == 120,
    decreases b@.len() - from,
{
    let mut i: usize = from;
    while i < b.len()
        invariant
            from <= i <= b@.len(),
            forall|j: int| from <= j < i ==> b@[j] != 120,
        decreases b@.len() - i,
    {
        if b[i] == 120 {
            return i;
        }
        i += 1;
    }
    i
}

/// Reads a numeric component: `Some` exactly on a valid number, whose value
/// it returns.
fn parse_u32(d: &[u8]) -> (r: Option<u32>)
    ensures
        match r {
            Some(v) => valid_number(d@) && v as nat == dec_value(d@),
            None => !valid_number(d@),
        },
{
    if d.len() == 0 {
        return None;
    }
    let mut acc: u64 = 0;
    let mut i: usize = 0;
    while i < d.len()
        invariant
            i <= d@.len(),
            all_digits(d@.take(i as int)),
            acc as nat == dec_value(d@.take(i as int)),
            acc <= u32::MAX,
        decreases d@.len() - i,
    {
        let c = d[i];
        if c < 48 || c > 57 {
            proof {
                assert(!is_digit(d@[i as int]));
            }
            return None;
        }
        acc = acc * 10 + ((c - 48) as u64);
        proof {
            assert(d@.take(i + 1 as int).drop_last() =~= d@.take(i as int));
            assert(d@.take(i + 1 as int).last() == d@[i as int]);
            assert(acc as nat == dec_value(d@.take(i + 1 as int)));
        }
        if acc > 0xffff_ffff {
            proof {
                lemma_dec_value_prefix_le(d@, i + 1);
            }
            return None;
        }
        i += 1;
    }
    proof {
        assert(d@.take(i as int) =~= d@);
    }
    Some(acc as u32)
}

impl FrameSize {
    /// Parses `WIDTHxHEIGHT`. Anything after a second `x` is ignored, as a
    /// second split of the input would ignore it.
    pub fn from_str(s: &str) -> (r: Result<FrameSize, SizeParseError>)
        ensures
            r == parse_size_result(s.spec_bytes()),
    {
        let b = s.as_bytes();
        let w_end = scan_x(b, 0);
        proof {
            lemma_find_x_from_scan(b@, w_end as int);
            assert(width_part(b@) == b@.take(w_end as int));
        }
        let width = match parse_u32(vstd::slice::slice_subrange(b, 0, w_end)) {
            Some(w) => w,
            None => {
                return Err(SizeParseError::BadWidth);
            },
        };
        if w_end == b.len() {
            return Err(SizeParseError::MissingHeight);
        }
        let rest = vstd::slice::slice_subrange(b, w_end + 1, b.len());
        proof {
            assert(rest@ =~= b@.skip(w_end as int + 1));
        }
        let h_end = scan_x(rest, 0);
        proof {
            lemma_find_x_from_scan(rest@, h_end as int);
            assert(height_part(b@) == rest@.take(h_end as int));
        }
        let height = match parse_u32(vstd::slice::slice_subrange(rest, 0, h_end)) {
            Some(h) => h,
            None => {
                return Err(SizeParseError::BadHeight);
            },
        };
        Ok(FrameSize(width, height))
    }
}

} // verus!
