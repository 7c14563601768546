//! Incremental emitter for the generated C translation unit.
//!
//! The generator produces the unit as a byte stream: preprocessor defines,
//! constant byte arrays whose elements are decimal literals taken from the
//! lookup table, and the program entry point. Callers drain the stream with
//! `take_pending` whenever they like, so an arbitrarily long payload never
//! sits in memory whole. While an array literal is open the generator is held
//! inside the `ByteArrayWriter`, so a second array cannot be opened and the
//! unit cannot be finalized until the writer is finished.

use vstd::prelude::*;

use crate::lut::{all_digits, dec_digits, dec_value, is_digit, number_lut};

verus! {

// ---------------------------------------------------------------------------
// The fixed pieces of text, as byte sequences.
// ---------------------------------------------------------------------------
/// Two preprocessor directives pulling in the standard headers `stddef.h`
/// and `stdint.h`, one per line.
pub open spec fn prelude_text() -> Seq<u8> {
    seq![
        35u8, 105u8, 110u8, 99u8, 108u8, 117u8, 100u8, 101u8, 32u8, 60u8, 115u8, 116u8, 100u8,
        100u8, 101u8, 102u8, 46u8, 104u8, 62u8, 10u8, 35u8, 105u8, 110u8, 99u8, 108u8, 117u8,
        100u8, 101u8, 32u8, 60u8, 115u8, 116u8, 100u8, 105u8, 110u8, 116u8, 46u8, 104u8, 62u8,
        10u8,
    ]
}

/// `#define ` and a trailing space.
pub open spec fn define_prefix() -> Seq<u8> {
    seq![35u8, 100u8, 101u8, 102u8, 105u8, 110u8, 101u8, 32u8]
}

/// A macro definition with no value: prefix, name, newline.
pub open spec fn define_text(name: Seq<u8>) -> Seq<u8> {
    define_prefix() + name + seq![10u8]
}

/// A macro definition with a value: prefix, name, space, value, newline.
pub open spec fn define_value_text(name: Seq<u8>, value: Seq<u8>) -> Seq<u8> {
    define_prefix() + name + seq![32u8] + value + seq![10u8]
}

/// Declaration head of a constant byte array with the given name.
pub open spec fn array_open_text(name: Seq<u8>) -> Seq<u8> {
    seq![
        115u8, 116u8, 97u8, 116u8, 105u8, 99u8, 32u8, 99u8, 111u8, 110u8, 115u8, 116u8, 32u8,
        117u8, 110u8, 115u8, 105u8, 103u8, 110u8, 101u8, 100u8, 32u8, 99u8, 104u8, 97u8, 114u8,
        32u8,
    ] + name + seq![91u8, 93u8, 32u8, 61u8, 32u8, 123u8]
}

/// Closing brace and semicolon of an array literal.
pub open spec fn array_close_text() -> Seq<u8> {
    seq![125u8, 59u8, 10u8]
}

/// The program entry point: two preprocessor directives pulling in the
/// staged headers through the macros `SZMELC_NUMBERLUT_H` and
/// `SZMELC_MINIAUDIO_H`, then a `main` that calls the playback runtime's
/// `szmelc_main` and returns zero.
pub open spec fn entry_text() -> Seq<u8> {
    seq![
        35u8, 105u8, 110u8, 99u8, 108u8, 117u8, 100u8, 101u8, 32u8, 83u8, 90u8, 77u8, 69u8, 76u8,
        67u8, 95u8, 78u8, 85u8, 77u8, 66u8, 69u8, 82u8, 76u8, 85u8, 84u8, 95u8, 72u8, 10u8, 35u8,
        105u8, 110u8, 99u8, 108u8, 117u8, 100u8, 101u8, 32u8, 83u8, 90u8, 77u8, 69u8, 76u8, 67u8,
        95u8, 77u8, 73u8, 78u8, 73u8, 65u8, 85u8, 68u8, 73u8, 79u8, 95u8, 72u8, 10u8, 105u8,
        110u8, 116u8, 32u8, 109u8, 97u8, 105u8, 110u8, 40u8, 118u8, 111u8, 105u8, 100u8, 41u8,
        32u8, 123u8, 10u8, 32u8, 32u8, 115u8, 122u8, 109u8, 101u8, 108u8, 99u8, 95u8, 109u8, 97u8,
        105u8, 110u8, 40u8, 41u8, 59u8, 10u8, 32u8, 32u8, 114u8, 101u8, 116u8, 117u8, 114u8,
        110u8, 32u8, 48u8, 59u8, 10u8, 125u8, 10u8,
    ]
}

// ---------------------------------------------------------------------------
// Array element stream and its inverse.
// ---------------------------------------------------------------------------
/// The text an open array holds after the bytes `bs` were appended: each byte
/// as its decimal rendering followed by a comma.
pub open spec fn emit_bytes(bs: Seq<u8>) -> Seq<u8>
    decreases bs.len(),
{
    if bs.len() == 0 {
        Seq::empty()
    } else {
        dec_digits(bs[0] as nat) + seq![44u8] + emit_bytes(bs.drop_first())
    }
}

/// Length of the leading run of ASCII digits.
pub open spec fn digit_run(s: Seq<u8>) -> nat
    decreases s.len(),
{
    if s.len() > 0 && is_digit(s[0]) {
        (1 + digit_run(s.drop_first())) as nat
    } else {
        0
    }
}

/// Parses an array element stream back into the byte values it encodes:
/// repeatedly a nonempty digit run, which must name a value that fits in a
/// byte, followed by a comma.
pub open spec fn parse_emitted(s: Seq<u8>) -> Option<Seq<u8>>
    decreases s.len(),
{
    if s.len() == 0 {
        Some(Seq::empty())
    } else {
        let k = digit_run(s) as int;
        if k == 0 {
            None
        } else if k < s.len() && s[k] == 44 && dec_value(s.take(k)) <= 255 {
            match parse_emitted(s.skip(k + 1)) {
                Some(rest) => Some(seq![dec_value(s.take(k)) as u8] + rest),
                None => None,
            }
        } else {
            None
        }
    }
}

proof fn lemma_digit_run_stops(d: Seq<u8>, rest: Seq<u8>)
    requires
        all_digits(d),
        rest.len() > 0,
        !is_digit(rest[0]),
    ensures
        digit_run(d + rest) == d.len(),
    decreases d.len(),
{
    let s = d + rest;
    if d.len() == 0 {
        assert(s =~= rest);
    } else {
        assert(is_digit(d[0]));
        assert(s[0] == d[0]);
        assert(s.drop_first() =~= d.drop_first() + rest);
        assert(all_digits(d.drop_first()));
        lemma_digit_run_stops(d.drop_first(), rest);
    }
}

/// Writing bytes and parsing the emitted text back returns exactly the bytes
/// that were written: the array element stream loses nothing.
pub proof fn lemma_parse_emitted_round_trip(bs: Seq<u8>)
    ensures
        parse_emitted(emit_bytes(bs)) == Some(bs),
    decreases bs.len(),
{
    if bs.len() == 0 {
    } else {
        let b = bs[0];
        let d = dec_digits(b as nat);
        let s = emit_bytes(bs);
        let tail = emit_bytes(bs.drop_first());
        assert(s == d + seq![44u8] + tail);
        crate::lut::lemma_dec_digits_are_digits(b as nat);
        assert((seq![44u8] + tail).len() > 0);
        assert((seq![44u8] + tail)[0] == 44);
        assert(!is_digit(44));
        lemma_digit_run_stops(d, seq![44u8] + tail);
        assert(d + (seq![44u8] + tail) =~= s);
        let k = digit_run(s) as int;
        assert(k == d.len());
        assert(k > 0);
        assert(s.len() == d.len() + 1 + tail.len());
        assert(s[k] == (seq![44u8] + tail)[0]);
        assert(s.take(k) =~= d);
        crate::lut::lemma_dec_value_of_digits(b as nat);
        assert(dec_value(s.take(k)) == b as nat);
        assert(s.skip(k + 1) =~= tail);
        lemma_parse_emitted_round_trip(bs.drop_first());
        assert(parse_emitted(s) == Some(seq![b] + bs.drop_first()));
        assert(seq![b] + bs.drop_first() =~= bs);
    }
}

proof fn lemma_emit_bytes_push(bs: Seq<u8>, b: u8)
    ensures
        emit_bytes(bs.push(b)) == emit_bytes(bs) + dec_digits(b as nat) + seq![44u8],
    decreases bs.len(),
{
    if bs.len() == 0 {
        assert(bs.push(b)[0] == b);
        assert(bs.push(b).drop_first() =~= Seq::<u8>::empty());
        assert(emit_bytes(Seq::<u8>::empty()) == Seq::<u8>::empty());
        assert(emit_bytes(bs.push(b)) =~= emit_bytes(bs) + dec_digits(b as nat) + seq![44u8]);
    } else {
        assert(bs.push(b)[0] == bs[0]);
        assert(bs.push(b).drop_first() =~= bs.drop_first().push(b));
        lemma_emit_bytes_push(bs.drop_first(), b);
        assert(emit_bytes(bs.push(b)) =~= emit_bytes(bs) + dec_digits(b as nat) + seq![44u8]);
    }
}

// ---------------------------------------------------------------------------
// String-literal escaping for path macros.
// ---------------------------------------------------------------------------
/// How one byte appears inside a C string literal: quote and backslash get a
/// backslash, a newline becomes `\n`, everything else stands as itself.
pub open spec fn esc_byte(c: u8) -> Seq<u8> {
    if c == 34 || c == 92 {
        seq![92u8, c]
    } else if c == 10 {
        seq![92u8, 110u8]
    } else {
        seq![c]
    }
}

pub open spec fn escaped(s: Seq<u8>) -> Seq<u8>
    decreases s.len(),
{
    if s.len() == 0 {
        Seq::empty()
    } else {
        esc_byte(s[0]) + escaped(s.drop_first())
    }
}

proof fn lemma_escaped_push(s: Seq<u8>, c: u8)
    ensures
        escaped(s.push(c)) == escaped(s) + esc_byte(c),
    decreases s.len(),
{
    if s.len() == 0 {
        assert(s.push(c)[0] == c);
        assert(s.push(c).drop_first() =~= Seq::<u8>::empty());
        assert(escaped(Seq::<u8>::empty()) == Seq::<u8>::empty());
        assert(escaped(s.push(c)) =~= escaped(s) + esc_byte(c));
    } else {
        assert(s.push(c)[0] == s[0]);
        assert(s.push(c).drop_first() =~= s.drop_first().push(c));
        lemma_escaped_push(s.drop_first(), c);
        assert(escaped(s.push(c)) =~= escaped(s) + esc_byte(c));
    }
}

/// A quoted C string literal holding `s` with quotes, backslashes and
/// newlines escaped, fit for a macro value carrying a filesystem path.
pub fn c_string_literal(s: &[u8]) -> (r: Vec<u8>)
    ensures
        r@ == seq![34u8] + escaped(s@) + seq![34u8],
{
    let mut r: Vec<u8> = Vec::new();
    r.push(34);
    let mut i: usize = 0;
    while i < s.len()
        invariant
            i <= s@.len(),
            r@ == seq![34u8] + escaped(s@.take(i as int)),
        decreases s@.len() - i,
    {
        let c = s[i];
        if c == 34 || c == 92 {
            r.push(92);
            r.push(c);
        } else if c == 10 {
            r.push(92);
            r.push(110);
        }  else {
            r.push(c);
        }
        proof {
            lemma_escaped_push(s@.take(i as int), c);
            assert(s@.take(i + 1 as int) =~= s@.take(i as int).push(s@[i as int]));
            assert(r@ =~= seq![34u8] + escaped(s@.take(i + 1 as int)));
        }
        i += 1;
    }
    proof {
        assert(s@.take(i as int) =~= s@);
    }
    r.push(34);
    proof {
        assert(r@ =~= seq![34u8] + escaped(s@) + seq![34u8]);
    }
    r
}

// ---------------------------------------------------------------------------
// The generator.
// ---------------------------------------------------------------------------
/// Emitter for one translation unit. `emitted()` is everything produced so
/// far; the part not yet drained through `take_pending` sits in `pending`.
pub struct Generator {
    pending: Vec<u8>,
    flushed: Ghost<Seq<u8>>,
    lut: Vec<Vec<u8>>,
}

impl Generator {
    /// Bytes already handed to the caller through `take_pending`.
    pub closed spec fn flushed_bytes(&self) -> Seq<u8> {
        self.flushed@
    }

    /// Bytes produced but not yet drained.
    pub closed spec fn pending_bytes(&self) -> Seq<u8> {
        self.pending@
    }

    /// The whole unit produced so far.
    pub open spec fn emitted(&self) -> Seq<u8> {
        self.flushed_bytes() + self.pending_bytes()
    }

    /// The lookup table holds the decimal rendering of every byte value.
    pub closed spec fn wf(&self) -> bool {
        &&& self.lut@.len() == 256
        &&& forall|i: int| 0 <= i < 256 ==> (#[trigger] self.lut@[i])@ == dec_digits(i as nat)
    }

    pub fn new() -> (r: Generator)
        ensures
            r.wf(),
            r.flushed_bytes() == Seq::<u8>::empty(),
            r.pending_bytes() == Seq::<u8>::empty(),
    {
        Generator { pending: Vec::new(), flushed: Ghost(Seq::empty()), lut: number_lut() }
    }

    /// Hands out the bytes produced since the last drain, so the caller can
    /// stream them to a sink without the unit ever sitting in memory whole.
    pub fn take_pending(&mut self) -> (out: Vec<u8>)
        requires
            old(self).wf(),
        ensures
            final(self).wf(),
            out@ == old(self).pending_bytes(),
            final(self).pending_bytes() == Seq::<u8>::empty(),
            final(self).emitted() == old(self).emitted(),
    {
        let mut out: Vec<u8> = Vec::new();
        core::mem::swap(&mut out, &mut self.pending);
        proof {
            self.flushed@ = self.flushed@ + out@;
        }
        out
    }

    /// One-time boilerplate at the head of the unit.
    pub fn prelude(&mut self)
        requires
            old(self).wf(),
        ensures
            final(self).wf(),
            final(self).flushed_bytes() == old(self).flushed_bytes(),
            final(self).pending_bytes() == old(self).pending_bytes() + prelude_text(),
            final(self).emitted() == old(self).emitted() + prelude_text(),
    {
        let text: [u8; 40] = [
            35u8, 105u8, 110u8, 99u8, 108u8, 117u8, 100u8, 101u8, 32u8, 60u8, 115u8, 116u8, 100u8,
            100u8, 101u8, 102u8, 46u8, 104u8, 62u8, 10u8, 35u8, 105u8, 110u8, 99u8, 108u8, 117u8,
            100u8, 101u8, 32u8, 60u8, 115u8, 116u8, 100u8, 105u8, 110u8, 116u8, 46u8, 104u8, 62u8,
            10u8,
        ];
        self.pending.extend_from_slice(vstd::array::array_as_slice(&text));
        proof {
            assert(self.pending@ =~= old(self).pending_bytes() + prelude_text());
            assert(final(self).emitted() =~= old(self).emitted() + prelude_text());
        }
    }

    /// A macro definition with no value.
    pub fn define(&mut self, name: &[u8])
        requires
            old(self).wf(),
        ensures
            final(self).wf(),
            final(self).flushed_bytes() == old(self).flushed_bytes(),
            final(self).pending_bytes() == old(self).pending_bytes() + define_text(name@),
            final(self).emitted() == old(self).emitted() + define_text(name@),
    {
        let prefix: [u8; 8] = [35u8, 100u8, 101u8, 102u8, 105u8, 110u8, 101u8, 32u8];
        self.pending.extend_from_slice(vstd::array::array_as_slice(&prefix));
        self.pending.extend_from_slice(name);
        self.pending.push(10);
        proof {
            assert(self.pending@ =~= old(self).pending_bytes() + define_text(name@));
            assert(final(self).emitted() =~= old(self).emitted() + define_text(name@));
        }
    }

    /// A macro definition with a value. The value is emitted verbatim:
    /// callers pre-format it, with `c_string_literal` where it is a path.
    pub fn define_value(&mut self, name: &[u8], value: &[u8])
        requires
            old(self).wf(),
        ensures
            final(self).wf(),
            final(self).flushed_bytes() == old(self).flushed_bytes(),
            final(self).pending_bytes() == old(self).pending_bytes() + define_value_text(
                name@,
                value@,
            ),
            final(self).emitted() == old(self).emitted() + define_value_text(name@, value@),
    {
        let prefix: [u8; 8] = [35u8, 100u8, 101u8, 102u8, 105u8, 110u8, 101u8, 32u8];
        self.pending.extend_from_slice(vstd::array::array_as_slice(&prefix));
        self.pending.extend_from_slice(name);
        self.pending.push(32);
        self.pending.extend_from_slice(value);
        self.pending.push(10);
        proof {
            assert(self.pending@ =~= old(self).pending_bytes() + define_value_text(name@, value@));
            assert(final(self).emitted() =~= old(self).emitted() + define_value_text(
                name@,
                value@,
            ));
        }
    }

    /// A macro definition whose value is a number, rendered in decimal.
    pub fn define_u64(&mut self, name: &[u8], value: u64)
        requires
            old(self).wf(),
        ensures
            final(self).wf(),
            final(self).flushed_bytes() == old(self).flushed_bytes(),
            final(self).pending_bytes() == old(self).pending_bytes() + define_value_text(
                name@,
                dec_digits(value as nat),
            ),
            final(self).emitted() == old(self).emitted() + define_value_text(
                name@,
                dec_digits(value as nat),
            ),
    {
        let digits = crate::lut::u64_decimal(value);
        self.define_value(name, digits.as_slice());
    }

    /// Opens the constant byte array `name`. The generator moves into the
    /// returned writer: no second array can be opened and the unit cannot be
    /// finalized until `finish` gives the generator back.
    pub fn const_byte_array(self, name: &[u8]) -> (w: ByteArrayWriter)
        requires
            self.wf(),
        ensures
            w.wf(),
            w.data() == Seq::<u8>::empty(),
            w.base() == self.emitted() + array_open_text(name@),
            w.flushed_bytes() == self.flushed_bytes(),
            w.emitted() == self.emitted() + array_open_text(name@),
    {
        let mut g = self;
        let head: [u8; 27] = [
            115u8, 116u8, 97u8, 116u8, 105u8, 99u8, 32u8, 99u8, 111u8, 110u8, 115u8, 116u8, 32u8,
            117u8, 110u8, 115u8, 105u8, 103u8, 110u8, 101u8, 100u8, 32u8, 99u8, 104u8, 97u8,
            114u8, 32u8,
        ];
        g.pending.extend_from_slice(vstd::array::array_as_slice(&head));
        g.pending.extend_from_slice(name);
        let tail: [u8; 6] = [91u8, 93u8, 32u8, 61u8, 32u8, 123u8];
        g.pending.extend_from_slice(vstd::array::array_as_slice(&tail));
        proof {
            assert(g.pending@ =~= self.pending_bytes() + array_open_text(name@));
        }
        let w = ByteArrayWriter { base: Ghost(g.emitted()), data: Ghost(Seq::empty()), gen: g };
        proof {
            assert(emit_bytes(Seq::<u8>::empty()) == Seq::<u8>::empty());
            assert(w.emitted() =~= w.base() + emit_bytes(w.data()));
        }
        w
    }

    /// Emits the program entry point, consumes the generator and returns the
    /// last undrained piece of the unit.
    pub fn finalize(self) -> (out: Vec<u8>)
        requires
            self.wf(),
        ensures
            out@ == self.pending_bytes() + entry_text(),
            self.flushed_bytes() + out@ == self.emitted() + entry_text(),
    {
        let mut g = self;
        let text: [u8; 104] = [
            35u8, 105u8, 110u8, 99u8, 108u8, 117u8, 100u8, 101u8, 32u8, 83u8, 90u8, 77u8, 69u8,
            76u8, 67u8, 95u8, 78u8, 85u8, 77u8, 66u8, 69u8, 82u8, 76u8, 85u8, 84u8, 95u8, 72u8,
            10u8, 35u8, 105u8, 110u8, 99u8, 108u8, 117u8, 100u8, 101u8, 32u8, 83u8, 90u8, 77u8,
            69u8, 76u8, 67u8, 95u8, 77u8, 73u8, 78u8, 73u8, 65u8, 85u8, 68u8, 73u8, 79u8, 95u8,
            72u8, 10u8, 105u8, 110u8, 116u8, 32u8, 109u8, 97u8, 105u8, 110u8, 40u8, 118u8, 111u8,
            105u8, 100u8, 41u8, 32u8, 123u8, 10u8, 32u8, 32u8, 115u8, 122u8, 109u8, 101u8, 108u8,
            99u8, 95u8, 109u8, 97u8, 105u8, 110u8, 40u8, 41u8, 59u8, 10u8, 32u8, 32u8, 114u8,
            101u8, 116u8, 117u8, 114u8, 110u8, 32u8, 48u8, 59u8, 10u8, 125u8, 10u8,
        ];
        g.pending.extend_from_slice(vstd::array::array_as_slice(&text));
        proof {
            assert(g.pending@ =~= self.pending_bytes() + entry_text());
        }
        g.pending
    }
}

/// Handle of the one open array literal. Holds the generator, so the type
/// system enforces the one-open-array rule; `data()` is the byte payload
/// appended so far, and the emitted text extends the base by exactly
/// `emit_bytes(data())`.
pub struct ByteArrayWriter {
    gen: Generator,
    base: Ghost<Seq<u8>>,
    data: Ghost<Seq<u8>>,
}

impl ByteArrayWriter {
    /// The unit text up to and holding the array head.
    pub closed spec fn base(&self) -> Seq<u8> {
        self.base@
    }

    /// The byte payload appended to the open array so far.
    pub closed spec fn data(&self) -> Seq<u8> {
        self.data@
    }

    pub closed spec fn flushed_bytes(&self) -> Seq<u8> {
        self.gen.flushed_bytes()
    }

    pub closed spec fn pending_bytes(&self) -> Seq<u8> {
        self.gen.pending_bytes()
    }

    pub open spec fn emitted(&self) -> Seq<u8> {
        self.flushed_bytes() + self.pending_bytes()
    }

    /// The open array holds exactly the element stream of `data()`.
    pub closed spec fn wf(&self) -> bool {
        &&& self.gen.wf()
        &&& self.gen.emitted() == self.base@ + emit_bytes(self.data@)
    }

    /// Appends one payload byte as its decimal rendering from the lookup
    /// table, followed by a comma.
    pub fn byte(&mut self, b: u8)
        requires
            old(self).wf(),
        ensures
            final(self).wf(),
            final(self).data() == old(self).data().push(b),
            final(self).base() == old(self).base(),
            final(self).flushed_bytes() == old(self).flushed_bytes(),
            final(self).emitted() == old(self).emitted() + dec_digits(b as nat) + seq![44u8],
    {
        let entry = &self.gen.lut[b as usize];
        proof {
            assert(entry@ == dec_digits(b as nat));
        }
        self.gen.pending.extend_from_slice(entry.as_slice());
        self.gen.pending.push(44);
        proof {
            let d = dec_digits(b as nat);
            self.data@ = old(self).data@.push(b);
            lemma_emit_bytes_push(old(self).data@, b);
            assert(old(self).gen.emitted() == old(self).base@ + emit_bytes(old(self).data@));
            assert(self.gen.pending@ =~= old(self).gen.pending@ + d + seq![44u8]);
            assert(self.gen.emitted() =~= old(self).gen.emitted() + d + seq![44u8]);
            assert(emit_bytes(self.data@) == emit_bytes(old(self).data@) + d + seq![44u8]);
            assert(self.gen.emitted() =~= self.base@ + emit_bytes(self.data@));
            assert(final(self).emitted() =~= old(self).emitted() + d + seq![44u8]);
        }
    }

    /// Drains the bytes produced since the last drain, as
    /// `Generator::take_pending` does.
    pub fn take_pending(&mut self) -> (out: Vec<u8>)
        requires
            old(self).wf(),
        ensures
            final(self).wf(),
            out@ == old(self).pending_bytes(),
            final(self).pending_bytes() == Seq::<u8>::empty(),
            final(self).emitted() == old(self).emitted(),
            final(self).data() == old(self).data(),
            final(self).base() == old(self).base(),
    {
        let out = self.gen.take_pending();
        out
    }

    /// Closes the array literal and gives the generator back: only now can
    /// another array be opened or the unit finalized.
    pub fn finish(self) -> (g: Generator)
        requires
            self.wf(),
        ensures
            g.wf(),
            g.flushed_bytes() == self.flushed_bytes(),
            g.emitted() == self.emitted() + array_close_text(),
            g.emitted() == self.base() + emit_bytes(self.data()) + array_close_text(),
    {
        let mut g = self.gen;
        let close: [u8; 3] = [125u8, 59u8, 10u8];
        g.pending.extend_from_slice(vstd::array::array_as_slice(&close));
        proof {
            assert(g.emitted() =~= self.emitted() + array_close_text());
        }
        g
    }
}

// ---------------------------------------------------------------------------
// Frame embedding.
// ---------------------------------------------------------------------------
/// Appends one decoded frame to the open video array and counts it. Keeps
/// the shape of the embedded data: after `n` frames of the same length the
/// payload is exactly `n` frame-sized chunks in order.
pub fn embed_frame(w: &mut ByteArrayWriter, frame: &Vec<u8>, frame_count: &mut usize)
    requires
        old(w).wf(),
        *old(frame_count) < usize::MAX,
    ensures
        final(w).wf(),
        final(w).base() == old(w).base(),
        final(w).data() == old(w).data() + frame@,
        *final(frame_count) == *old(frame_count) + 1,
        old(w).data().len() == *old(frame_count) * frame@.len() ==> final(w).data().len()
            == *final(frame_count) * frame@.len(),
{
    let mut i: usize = 0;
    while i < frame.len()
        invariant
            old(w).wf(),
            w.wf(),
            i <= frame@.len(),
            w.base() == old(w).base(),
            w.data() == old(w).data() + frame@.take(i as int),
        decreases frame@.len() - i,
    {
        w.byte(frame[i]);
        proof {
            assert(frame@.take(i + 1 as int) =~= frame@.take(i as int).push(frame@[i as int]));
            assert(w.data() =~= old(w).data() + frame@.take(i + 1 as int));
        }
        i += 1;
    }
    proof {
        assert(frame@.take(i as int) =~= frame@);
        assert(w.data() =~= old(w).data() + frame@);
    }
    *frame_count = *frame_count + 1;
    proof {
        if old(w).data().len() == *old(frame_count) * frame@.len() {
            let n = *old(frame_count) as int;
            let l = frame@.len() as int;
            assert(final(w).data().len() == n * l + l);
            assert((n + 1) * l == n * l + l) by (nonlinear_arith);
        }
    }
}

} // verus!
