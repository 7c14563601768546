//! Decimal renderings of byte values and the precomputed lookup table that
//! the source generator uses to emit array elements without formatting each
//! byte from scratch.

use vstd::prelude::*;

verus! {

/// ASCII bytes of the decimal rendering of `n`, most significant digit first.
pub open spec fn dec_digits(n: nat) -> Seq<u8>
    decreases n,
{
    if n < 10 {
        seq![(n + 48) as u8]
    } else {
        dec_digits(n / 10).push((n % 10 + 48) as u8)
    }
}

/// `b` is an ASCII decimal digit.
pub open spec fn is_digit(b: u8) -> bool {
    48 <= b && b <= 57
}

pub open spec fn all_digits(s: Seq<u8>) -> bool {
    forall|i: int| 0 <= i < s.len() ==> is_digit(#[trigger] s[i])
}

/// Every byte of `s` is ASCII.
pub open spec fn all_ascii(s: Seq<u8>) -> bool {
    forall|i: int| 0 <= i < s.len() ==> #[trigger] s[i] < 128
}

/// The chars with the same codes as the ASCII bytes of `s`.
pub open spec fn ascii_chars(s: Seq<u8>) -> Seq<char> {
    s.map_values(|b: u8| b as char)
}

/// Numeric value of a sequence of ASCII digits, most significant first.
pub open spec fn dec_value(s: Seq<u8>) -> nat
    recommends
        all_digits(s),
    decreases s.len(),
{
    if s.len() == 0 {
        0
    } else {
        dec_value(s.drop_last()) * 10 + (if is_digit(s.last()) {
            (s.last() - 48) as nat
        } else {
            0
        })
    }
}

pub proof fn lemma_dec_digits_are_digits(n: nat)
    ensures
        all_digits(dec_digits(n)),
        dec_digits(n).len() >= 1,
    decreases n,
{
    if n < 10 {
    } else {
        lemma_dec_digits_are_digits(n / 10);
        let d = (n % 10 + 48) as u8;
        assert(dec_digits(n) == dec_digits(n / 10).push(d));
        assert forall|i: int| 0 <= i < dec_digits(n).len() implies is_digit(
            #[trigger] dec_digits(n)[i],
        ) by {
            if i < dec_digits(n / 10).len() {
                assert(dec_digits(n)[i] == dec_digits(n / 10)[i]);
            } else {
                assert(dec_digits(n)[i] == d);
            }
        }
    }
}

/// Reading the digits of `n` back yields `n`: the decimal rendering is
/// faithful.
pub proof fn lemma_dec_value_of_digits(n: nat)
    ensures
        dec_value(dec_digits(n)) == n,
    decreases n,
{
    if n < 10 {
        let s = dec_digits(n);
        assert(s.len() == 1);
        assert(s.last() == (n + 48) as u8);
        assert(s.drop_last() =~= Seq::<u8>::empty());
        assert(dec_value(Seq::<u8>::empty()) == 0);
        assert(is_digit((n + 48) as u8));
    } else {
        lemma_dec_value_of_digits(n / 10);
        let d = (n % 10 + 48) as u8;
        let s = dec_digits(n);
        assert(s == dec_digits(n / 10).push(d));
        assert(s.drop_last() =~= dec_digits(n / 10));
        assert(s.last() == d);
        assert(is_digit(d));
        assert((d - 48) as nat == n % 10);
        assert(dec_value(s) == (n / 10) * 10 + n % 10);
        assert((n / 10) * 10 + n % 10 == n) by (nonlinear_arith);
    }
}

pub proof fn lemma_dec_digits_ascii(n: nat)
    ensures
        all_ascii(dec_digits(n)),
{
    lemma_dec_digits_are_digits(n);
}

/// ASCII bytes of the decimal rendering, as executable code. Mirrors
/// `dec_digits` exactly.
pub fn u64_decimal(n: u64) -> (r: Vec<u8>)
    ensures
        r@ == dec_digits(n as nat),
    decreases n,
{
    if n < 10 {
        let mut v: Vec<u8> = Vec::new();
        v.push((n as u8) + 48);
        proof {
            assert(v@ =~= dec_digits(n as nat));
        }
        v
    } else {
        let mut v = u64_decimal(n / 10);
        v.push(((n % 10) as u8) + 48);
        proof {
            assert(v@ =~= dec_digits(n as nat));
        }
        v
    }
}

/// The lookup table: entry `i` holds the decimal rendering of `i`. It has
/// exactly 256 entries, one per byte value; the length of an entry is the
/// length of the rendered string.
pub fn number_lut() -> (r: Vec<Vec<u8>>)
    ensures
        r@.len() == 256,
        forall|i: int| 0 <= i < 256 ==> (#[trigger] r@[i])@ == dec_digits(i as nat),
{
    let mut lut: Vec<Vec<u8>> = Vec::new();
    let mut i: usize = 0;
    while i < 256
        invariant
            i <= 256,
            lut@.len() == i,
            forall|j: int| 0 <= j < i ==> (#[trigger] lut@[j])@ == dec_digits(j as nat),
        decreases 256 - i,
    {
        lut.push(u64_decimal(i as u64));
        i += 1;
    }
    lut
}

/// Head of the generated lookup-table header: a table of 256 records, each
/// a length and a string.
pub open spec fn lut_header() -> Seq<u8> {
    seq![
        115u8, 116u8, 97u8, 116u8, 105u8, 99u8, 32u8, 99u8, 111u8, 110u8, 115u8, 116u8, 32u8,
        115u8, 116u8, 114u8, 117u8, 99u8, 116u8, 32u8, 123u8, 32u8, 115u8, 105u8, 122u8, 101u8,
        95u8, 116u8, 32u8, 108u8, 101u8, 110u8, 59u8, 32u8, 99u8, 111u8, 110u8, 115u8, 116u8,
        32u8, 99u8, 104u8, 97u8, 114u8, 32u8, 42u8, 115u8, 116u8, 114u8, 59u8, 32u8, 125u8, 32u8,
        98u8, 121u8, 116u8, 101u8, 95u8, 116u8, 111u8, 95u8, 100u8, 101u8, 99u8, 105u8, 109u8,
        97u8, 108u8, 91u8, 93u8, 32u8, 61u8, 32u8, 123u8,
    ]
}

/// One record of the table: the length of the decimal rendering of `i`, and
/// the rendering itself as a quoted string.
pub open spec fn lut_entry(i: nat) -> Seq<u8> {
    seq![123u8] + dec_digits(dec_digits(i).len()) + seq![44u8, 32u8, 34u8] + dec_digits(i) + seq![
        34u8,
        125u8,
        44u8,
    ]
}

/// The records for the byte values below `n`, in order.
pub open spec fn lut_entries(n: nat) -> Seq<u8>
    decreases n,
{
    if n == 0 {
        Seq::empty()
    } else {
        lut_entries((n - 1) as nat) + lut_entry((n - 1) as nat)
    }
}

/// The whole generated header.
pub open spec fn numberlut_text() -> Seq<u8> {
    lut_header() + lut_entries(256) + seq![125u8, 59u8, 10u8]
}

proof fn lemma_all_ascii_concat(a: Seq<u8>, b: Seq<u8>)
    requires
        all_ascii(a),
        all_ascii(b),
    ensures
        all_ascii(a + b),
{
    assert forall|i: int| 0 <= i < (a + b).len() implies #[trigger] (a + b)[i] < 128 by {
        if i < a.len() {
            assert((a + b)[i] == a[i]);
        } else {
            assert((a + b)[i] == b[i - a.len()]);
        }
    }
}

proof fn lemma_lut_entry_ascii(i: nat)
    ensures
        all_ascii(lut_entry(i)),
{
    lemma_dec_digits_ascii(i);
    lemma_dec_digits_ascii(dec_digits(i).len());
    lemma_all_ascii_concat(seq![123u8], dec_digits(dec_digits(i).len()));
    lemma_all_ascii_concat(seq![123u8] + dec_digits(dec_digits(i).len()), seq![44u8, 32u8, 34u8]);
    lemma_all_ascii_concat(
        seq![123u8] + dec_digits(dec_digits(i).len()) + seq![44u8, 32u8, 34u8],
        dec_digits(i),
    );
    lemma_all_ascii_concat(
        seq![123u8] + dec_digits(dec_digits(i).len()) + seq![44u8, 32u8, 34u8] + dec_digits(i),
        seq![34u8, 125u8, 44u8],
    );
}

proof fn lemma_lut_entries_ascii(n: nat)
    ensures
        all_ascii(lut_entries(n)),
    decreases n,
{
    if n == 0 {
    } else {
        lemma_lut_entries_ascii((n - 1) as nat);
        lemma_lut_entry_ascii((n - 1) as nat);
        lemma_all_ascii_concat(lut_entries((n - 1) as nat), lut_entry((n - 1) as nat));
    }
}

proof fn lemma_numberlut_ascii()
    ensures
        all_ascii(numberlut_text()),
{
    lemma_lut_entries_ascii(256);
    lemma_all_ascii_concat(lut_header(), lut_entries(256));
    lemma_all_ascii_concat(lut_header() + lut_entries(256), seq![125u8, 59u8, 10u8]);
}

/// Relies on `String::from_utf8`: bytes that are all ASCII are valid UTF-8
/// and decode to the chars with the same codes.
#[verifier::external_body]
fn ascii_string(v: Vec<u8>) -> (r: String)
    requires
        all_ascii(v@),
    ensures
        r@ == ascii_chars(v@),
{
    String::from_utf8(v).unwrap_or_default()
}

/// Generates the lookup-table header staged next to the generated unit:
/// 256 records, one per byte value, each holding the length of the byte's
/// decimal rendering and the rendering itself.
pub fn generate_numberlut() -> (r: String)
    ensures
        r@ == ascii_chars(numberlut_text()),
{
    let mut buf: Vec<u8> = Vec::new();
    let header: [u8; 74] = [
        115u8, 116u8, 97u8, 116u8, 105u8, 99u8, 32u8, 99u8, 111u8, 110u8, 115u8, 116u8, 32u8,
        115u8, 116u8, 114u8, 117u8, 99u8, 116u8, 32u8, 123u8, 32u8, 115u8, 105u8, 122u8, 101u8,
        95u8, 116u8, 32u8, 108u8, 101u8, 110u8, 59u8, 32u8, 99u8, 111u8, 110u8, 115u8, 116u8,
        32u8, 99u8, 104u8, 97u8, 114u8, 32u8, 42u8, 115u8, 116u8, 114u8, 59u8, 32u8, 125u8, 32u8,
        98u8, 121u8, 116u8, 101u8, 95u8, 116u8, 111u8, 95u8, 100u8, 101u8, 99u8, 105u8, 109u8,
        97u8, 108u8, 91u8, 93u8, 32u8, 61u8, 32u8, 123u8,
    ];
    buf.extend_from_slice(vstd::array::array_as_slice(&header));
    proof {
        assert(buf@ =~= lut_header());
        assert(lut_entries(0) == Seq::<u8>::empty());
        assert(buf@ =~= lut_header() + lut_entries(0));
    }
    let mut i: usize = 0;
    while i < 256
        invariant
            i <= 256,
            buf@ == lut_header() + lut_entries(i as nat),
        decreases 256 - i,
    {
        let digits = u64_decimal(i as u64);
        let len_digits = u64_decimal(digits.len() as u64);
        buf.push(123);
        buf.extend_from_slice(len_digits.as_slice());
        let mid: [u8; 3] = [44u8, 32u8, 34u8];
        buf.extend_from_slice(vstd::array::array_as_slice(&mid));
        buf.extend_from_slice(digits.as_slice());
        let close: [u8; 3] = [34u8, 125u8, 44u8];
        buf.extend_from_slice(vstd::array::array_as_slice(&close));
        proof {
            assert(digits@.len() == dec_digits(i as nat).len());
            assert(len_digits@ == dec_digits(dec_digits(i as nat).len()));
            assert(buf@ =~= lut_header() + lut_entries(i as nat) + lut_entry(i as nat));
            assert(lut_entries((i + 1) as nat) == lut_entries(i as nat) + lut_entry(i as nat));
            assert(buf@ =~= lut_header() + lut_entries((i + 1) as nat));
        }
        i += 1;
    }
    let footer: [u8; 3] = [125u8, 59u8, 10u8];
    buf.extend_from_slice(vstd::array::array_as_slice(&footer));
    proof {
        assert(buf@ =~= numberlut_text());
        lemma_numberlut_ascii();
    }
    ascii_string(buf)
}

} // verus!
