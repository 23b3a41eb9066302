//! Parser of the record-per-line level description.
//!
//! Each line is a comma-separated record whose first field is a numeric
//! type tag: `1` a block (`x, y, width, height`), `2` a spike
//! (`x, y, width, height, flip`), `3` an orb (`x, y, diameter`).  Lines
//! with an unknown numeric tag are ignored; any malformed field is fatal
//! and the whole level is rejected.
//!
//! Numeric fields are decimal pixel values, optionally signed, with up to
//! three fractional digits — exactly the precision the sub-pixel unit
//! scale represents without loss.  A value outside the coordinate range,
//! or a shape extending beyond it, is malformed.

use vstd::prelude::*;

use crate::block::Block;
use crate::constants::{COORD_LIMIT, UNITS_PER_PIXEL};
use crate::orb::Orb;
use crate::spike::Spike;
use crate::vector::Vector;

verus! {

/// Field separator: `,`.
pub const COMMA: u8 = 44;

/// Line separator: `\n`.
pub const NEWLINE: u8 = 10;

/// Carriage return, tolerated at the end of a line.
pub const CARRIAGE: u8 = 13;

/// Minus sign.
pub const MINUS: u8 = 45;

/// Decimal point.
pub const DOT: u8 = 46;

/// Whether `c` is an ASCII decimal digit.
pub open spec fn is_digit(c: u8) -> bool {
    48 <= c <= 57
}

/// The numeric value of the digit `c`.
pub open spec fn digit_val(c: u8) -> int {
    c - 48
}

/// Whether every byte of `s` is a decimal digit.
pub open spec fn all_digits(s: Seq<u8>) -> bool {
    forall|i: int| 0 <= i < s.len() ==> is_digit(#[trigger] s[i])
}

/// The value of `s` read as a decimal numeral, most significant digit
/// first.
pub open spec fn digits_val(s: Seq<u8>) -> int
    decreases s.len(),
{
    if s.len() == 0 {
        0
    } else {
        digits_val(s.drop_last()) * 10 + digit_val(s.last())
    }
}

/// The index of the first `c` in `s`, or `s.len()` when `s` has none.
pub open spec fn first_at(s: Seq<u8>, c: u8) -> int
    decreases s.len(),
{
    if s.len() == 0 {
        0
    } else if s[0] == c {
        0
    } else {
        1 + first_at(s.skip(1), c)
    }
}

/// `first_at` lands on `j` exactly when nothing before `j` is a `c` and
/// `j` is either a `c` or the end.
pub proof fn lemma_first_at_characterization(s: Seq<u8>, c: u8, j: int)
    requires
        0 <= j <= s.len(),
        forall|i: int| 0 <= i < j ==> s[i] != c,
        j < s.len() ==> s[j] == c,
    ensures
        first_at(s, c) == j,
    decreases s.len(),
{
    if s.len() == 0 {
    } else if s[0] == c {
        assert(j == 0);
    } else {
        assert(forall|i: int| 0 <= i < j - 1 ==> s.skip(1)[i] != c);
        lemma_first_at_characterization(s.skip(1), c, j - 1);
    }
}

/// `first_at` always lands in `[0, s.len()]`, on a `c` unless at the
/// end, with nothing but other bytes before it.
pub proof fn lemma_first_at_bounds(s: Seq<u8>, c: u8)
    ensures
        0 <= first_at(s, c) <= s.len(),
        first_at(s, c) < s.len() ==> s[first_at(s, c)] == c,
        forall|i: int| 0 <= i < first_at(s, c) ==> s[i] != c,
    decreases s.len(),
{
    if s.len() > 0 && s[0] != c {
        lemma_first_at_bounds(s.skip(1), c);
        assert(forall|i: int| 1 <= i < first_at(s, c) ==> s[i] == s.skip(1)[i - 1]);
    }
}

/// `s` split at every `c`: the stretches between separators, in order;
/// always one more field than there are separators.
pub open spec fn split_at(s: Seq<u8>, c: u8) -> Seq<Seq<u8>>
    decreases s.len(),
{
    let i = first_at(s, c);
    if 0 <= i < s.len() {
        seq![s.take(i)] + split_at(s.skip(i + 1), c)
    } else {
        seq![s]
    }
}

/// The views of a sequence of byte vectors.
pub open spec fn views(v: Seq<Vec<u8>>) -> Seq<Seq<u8>> {
    v.map_values(|x: Vec<u8>| x@)
}

/// Splits `s` at every `c`.
fn split_bytes(s: &[u8], c: u8) -> (r: Vec<Vec<u8>>)
    ensures
        views(r@) == split_at(s@, c),
{
    let n: usize = s.len();
    let mut r: Vec<Vec<u8>> = Vec::new();
    let mut cur: Vec<u8> = Vec::new();
    let mut p: usize = 0;
    let ghost mut q: int = 0;
    proof {
        assert(s@.skip(0) =~= s@);
        assert(views(r@) =~= Seq::<Seq<u8>>::empty());
        assert(views(r@) + split_at(s@, c) =~= split_at(s@, c));
        assert(cur@ =~= s@.subrange(0, 0));
    }
    while p < n
        invariant
            0 <= q <= p <= n == s@.len(),
            cur@ == s@.subrange(q, p as int),
            forall|i: int| q <= i < p ==> s@[i] != c,
            split_at(s@, c) == views(r@) + split_at(s@.skip(q), c),
        decreases n - p,
    {
        let b: u8 = s[p];
        if b == c {
            proof {
                let rest = s@.skip(q);
                assert(forall|i: int| 0 <= i < p - q ==> rest[i] != c);
                lemma_first_at_characterization(rest, c, p - q);
                assert(rest.take(p - q) =~= cur@);
                assert(rest.skip(p - q + 1) =~= s@.skip(p + 1));
                assert(split_at(rest, c) == seq![cur@] + split_at(s@.skip(p + 1), c));
                assert(views(r@.push(cur)) =~= views(r@) + seq![cur@]);
                assert((views(r@) + seq![cur@]) + split_at(s@.skip(p + 1), c) =~= views(r@)
                    + (seq![cur@] + split_at(s@.skip(p + 1), c)));
            }
            r.push(cur);
            cur = Vec::new();
            p = p + 1;
            proof {
                q = p as int;
                assert(cur@ =~= s@.subrange(q, p as int));
            }
        } else {
            cur.push(b);
            p = p + 1;
            proof {
                assert(cur@ =~= s@.subrange(q, p as int));
            }
        }
    }
    proof {
        let rest = s@.skip(q);
        assert(forall|i: int| 0 <= i < n - q ==> rest[i] != c);
        lemma_first_at_characterization(rest, c, n - q);
        assert(rest =~= cur@);
        assert(split_at(rest, c) == seq![cur@]);
        assert(views(r@.push(cur)) =~= views(r@) + seq![cur@]);
    }
    r.push(cur);
    r
}

/// Whenever the first `m` bytes of `s` are something else than `c`, the
/// first `c` lies at `m` or later.
pub proof fn lemma_first_at_past_prefix(s: Seq<u8>, c: u8, m: int)
    requires
        0 <= m <= s.len(),
        forall|i: int| 0 <= i < m ==> s[i] != c,
    ensures
        first_at(s, c) >= m,
{
    lemma_first_at_bounds(s, c);
    if first_at(s, c) < m {
        assert(s[first_at(s, c)] == c);
        assert(false);
    }
}

/// A numeral names a non-negative value.
pub proof fn lemma_digits_val_nonneg(s: Seq<u8>)
    requires
        all_digits(s),
    ensures
        digits_val(s) >= 0,
    decreases s.len(),
{
    if s.len() > 0 {
        assert(all_digits(s.drop_last()));
        lemma_digits_val_nonneg(s.drop_last());
    }
}

/// Reading one more digit multiplies the numeral's value by ten and adds
/// the digit.
pub proof fn lemma_digits_val_take_step(s: Seq<u8>, i: int)
    requires
        0 <= i < s.len(),
    ensures
        digits_val(s.take(i + 1)) == digits_val(s.take(i)) * 10 + digit_val(s[i]),
{
    assert(s.take(i + 1).drop_last() =~= s.take(i));
    assert(s.take(i + 1).last() == s[i]);
}

/// A numeral's prefix never exceeds the numeral's value.
pub proof fn lemma_digits_val_prefix_le(s: Seq<u8>, i: int)
    requires
        0 <= i <= s.len(),
        all_digits(s),
    ensures
        digits_val(s.take(i)) <= digits_val(s),
    decreases s.len() - i,
{
    if i < s.len() {
        lemma_digits_val_take_step(s, i);
        assert(all_digits(s.take(i)));
        lemma_digits_val_nonneg(s.take(i));
        lemma_digits_val_prefix_le(s, i + 1);
    } else {
        assert(s.take(i) =~= s);
    }
}

/// The payload of a field, without its optional leading minus sign.
pub open spec fn number_body(f: Seq<u8>) -> Seq<u8> {
    if f.len() > 0 && f[0] == MINUS {
        f.skip(1)
    } else {
        f
    }
}

/// Whether the field carries a leading minus sign.
pub open spec fn number_negative(f: Seq<u8>) -> bool {
    f.len() > 0 && f[0] == MINUS
}

/// The digits before the first decimal point of the body.
pub open spec fn int_part(body: Seq<u8>) -> Seq<u8> {
    body.take(first_at(body, DOT))
}

/// The digits after the first decimal point of the body, or nothing when
/// the body has no point.
pub open spec fn frac_part(body: Seq<u8>) -> Seq<u8> {
    if first_at(body, DOT) < body.len() {
        body.skip(first_at(body, DOT) + 1)
    } else {
        Seq::empty()
    }
}

/// Units named by a fractional part of `k` digits per unit of its
/// numeral: tenths, hundredths or thousandths of a pixel.
pub open spec fn frac_scale(k: int) -> int {
    if k == 1 {
        200
    } else if k == 2 {
        20
    } else {
        2
    }
}

/// The value of the field in sub-pixel units.
pub open spec fn field_units(f: Seq<u8>) -> int {
    let body = number_body(f);
    let magnitude = digits_val(int_part(body)) * UNITS_PER_PIXEL + (if frac_part(body).len() > 0 {
        digits_val(frac_part(body)) * frac_scale(frac_part(body).len() as int)
    } else {
        0
    });
    if number_negative(f) {
        -magnitude
    } else {
        magnitude
    }
}

/// Whether the field is a well-formed decimal: an optional minus sign, at
/// least one integer digit, optionally a point followed by one to three
/// fractional digits, naming a value within the coordinate range.
pub open spec fn field_valid(f: Seq<u8>) -> bool {
    let body = number_body(f);
    &&& int_part(body).len() > 0
    &&& all_digits(int_part(body))
    &&& (first_at(body, DOT) < body.len() ==> 1 <= frac_part(body).len() <= 3 && all_digits(
        frac_part(body),
    ))
    &&& -COORD_LIMIT <= field_units(f) <= COORD_LIMIT
}

/// Parses one field as a decimal number of sub-pixel units; `None`
/// exactly when the field is malformed or out of range.
fn parse_units(f: &[u8]) -> (r: Option<i64>)
    ensures
        r is Some <==> field_valid(f@),
        r matches Some(v) ==> v == field_units(f@),
{
    let n: usize = f.len();
    let neg: bool = n > 0 && f[0] == MINUS;
    let start: usize = if neg {
        1
    } else {
        0
    };
    let ghost body: Seq<u8> = number_body(f@);
    proof {
        assert(body =~= f@.skip(start as int));
    }
    let mut i: usize = start;
    let mut acc: i64 = 0;
    while i < n && 48 <= f[i] && f[i] <= 57
        invariant
            n == f@.len(),
            start <= i <= n,
            start == if neg { 1int } else { 0int },
            neg == number_negative(f@),
            body == number_body(f@),
            body =~= f@.skip(start as int),
            forall|k: int| start <= k < i ==> is_digit(#[trigger] f@[k]),
            0 <= acc <= COORD_LIMIT,
            acc == digits_val(body.take(i - start)),
        decreases n - i,
    {
        let d: u8 = f[i] - 48;
        let next: i64 = acc * 10 + d as i64;
        proof {
            assert(body[i - start] == f@[i as int]);
            lemma_digits_val_take_step(body, i - start);
        }
        i = i + 1;
        if next > COORD_LIMIT {
            proof {
                let m = i - start;
                assert(forall|k: int| 0 <= k < m ==> is_digit(#[trigger] body[k]));
                if field_valid(f@) {
                    assert(forall|k: int| 0 <= k < m ==> body[k] != DOT);
                    lemma_first_at_past_prefix(body, DOT, m);
                    lemma_first_at_bounds(body, DOT);
                    assert(int_part(body).take(m) =~= body.take(m));
                    lemma_digits_val_prefix_le(int_part(body), m);
                    let iv = digits_val(int_part(body));
                    assert(iv >= next);
                    let fp = frac_part(body);
                    if fp.len() > 0 {
                        lemma_digits_val_nonneg(fp);
                        if fp.len() == 1 {
                        } else if fp.len() == 2 {
                        }
                    }
                    assert(field_units(f@) > COORD_LIMIT || field_units(f@) < -COORD_LIMIT);
                    assert(false);
                }
            }
            return None;
        }
        acc = next;
    }
    if i == start {
        proof {
            if field_valid(f@) {
                if body.len() == 0 {
                    assert(int_part(body).len() == 0);
                } else {
                    assert(!is_digit(body[0]) || body[0] == DOT) by {
                        if body[0] != DOT && is_digit(body[0]) {
                            assert(f@[start as int] == body[0]);
                        }
                    }
                    if body[0] == DOT {
                        lemma_first_at_characterization(body, DOT, 0);
                        assert(int_part(body).len() == 0);
                    } else {
                        lemma_first_at_past_prefix(body, DOT, 1);
                        lemma_first_at_bounds(body, DOT);
                        assert(int_part(body)[0] == body[0]);
                        assert(!is_digit(int_part(body)[0]));
                    }
                }
                assert(false);
            }
        }
        return None;
    }
    let ghost m: int = i - start;
    if i == n {
        proof {
            assert(forall|k: int| 0 <= k < body.len() ==> body[k] != DOT);
            lemma_first_at_characterization(body, DOT, body.len() as int);
            assert(int_part(body) =~= body);
            assert(body.take(m) =~= body);
            assert(frac_part(body).len() == 0);
        }
        let units: i64 = acc * UNITS_PER_PIXEL;
        if units > COORD_LIMIT {
            return None;
        }
        if neg {
            return Some(-units);
        } else {
            return Some(units);
        }
    }
    if f[i] != DOT {
        proof {
            if field_valid(f@) {
                assert(body[m] == f@[i as int]);
                assert(forall|k: int| 0 <= k <= m ==> body[k] != DOT);
                lemma_first_at_past_prefix(body, DOT, m + 1);
                lemma_first_at_bounds(body, DOT);
                assert(int_part(body)[m] == body[m]);
                assert(!is_digit(int_part(body)[m]));
                assert(false);
            }
        }
        return None;
    }
    proof {
        assert(body[m] == f@[i as int]);
        assert(forall|k: int| 0 <= k < m ==> body[k] != DOT);
        lemma_first_at_characterization(body, DOT, m);
        assert(int_part(body) =~= body.take(m));
        assert(frac_part(body) =~= body.skip(m + 1));
    }
    i = i + 1;
    let fstart: usize = i;
    let mut facc: i64 = 0;
    while i < n && 48 <= f[i] && f[i] <= 57 && i - fstart < 3
        invariant
            n == f@.len(),
            start < fstart <= i <= n,
            fstart - start == m + 1,
            body == number_body(f@),
            body =~= f@.skip(start as int),
            frac_part(body) =~= body.skip(m + 1),
            forall|k: int| fstart <= k < i ==> is_digit(#[trigger] f@[k]),
            0 <= i - fstart <= 3,
            0 <= facc <= 999,
            i - fstart <= 2 ==> facc <= 99,
            i - fstart <= 1 ==> facc <= 9,
            i - fstart == 0 ==> facc == 0,
            facc == digits_val(frac_part(body).take(i - fstart)),
        decreases n - i,
    {
        let d: u8 = f[i] - 48;
        proof {
            assert(frac_part(body)[i - fstart] == f@[i as int]);
            lemma_digits_val_take_step(frac_part(body), i - fstart);
        }
        facc = facc * 10 + d as i64;
        i = i + 1;
    }
    let k: usize = i - fstart;
    if i < n {
        proof {
            let fp = frac_part(body);
            if field_valid(f@) {
                assert(fp.len() == n - fstart);
                if k == 3 {
                    assert(fp.len() >= 4);
                } else {
                    assert(fp[k as int] == f@[i as int]);
                    assert(!is_digit(fp[k as int]));
                }
                assert(false);
            }
        }
        return None;
    }
    if k == 0 {
        proof {
            assert(frac_part(body).len() == 0);
            assert(first_at(body, DOT) < body.len());
            if field_valid(f@) {
                assert(false);
            }
        }
        return None;
    }
    proof {
        assert(frac_part(body) =~= frac_part(body).take(k as int));
    }
    let scale: i64 = if k == 1 {
        200
    } else if k == 2 {
        20
    } else {
        2
    };
    let units: i64 = acc * UNITS_PER_PIXEL + facc * scale;
    if units > COORD_LIMIT {
        return None;
    }
    if neg {
        Some(-units)
    } else {
        Some(units)
    }
}

/// Whether the field is the literal `true`.
pub open spec fn is_true_field(s: Seq<u8>) -> bool {
    s.len() == 4 && s[0] == 116 && s[1] == 114 && s[2] == 117 && s[3] == 101
}

/// Whether the field is the literal `false`.
pub open spec fn is_false_field(s: Seq<u8>) -> bool {
    s.len() == 5 && s[0] == 102 && s[1] == 97 && s[2] == 108 && s[3] == 115 && s[4] == 101
}

/// Parses a boolean field; `None` unless it is literally `true` or
/// `false`.
fn parse_bool(f: &[u8]) -> (r: Option<bool>)
    ensures
        r is Some <==> (is_true_field(f@) || is_false_field(f@)),
        r matches Some(v) ==> v == is_true_field(f@),
{
    let n: usize = f.len();
    if n == 4 && f[0] == 116 && f[1] == 114 && f[2] == 117 && f[3] == 101 {
        Some(true)
    } else if n == 5 && f[0] == 102 && f[1] == 97 && f[2] == 108 && f[3] == 115 && f[4] == 101 {
        Some(false)
    } else {
        None
    }
}

/// What one line of the level description stands for.
#[derive(Clone, Copy, Debug)]
pub enum LineOutcome {
    /// A field is malformed: the whole level is rejected.
    Malformed,
    /// The tag is a number the format does not know: the line is ignored.
    Ignored,
    AddBlock(Block),
    AddSpike(Spike),
    AddOrb(Orb),
}

/// One parsed line: the comma-separated fields must open with a valid
/// numeric tag; tags `1`, `2` and `3` demand the exact field count and
/// well-formed geometry of a block, spike or orb, any other numeric tag
/// is ignored, and everything else is malformed.
pub open spec fn parsed_line(line: Seq<u8>) -> LineOutcome {
    let fs = split_at(line, COMMA);
    if !field_valid(fs[0]) {
        LineOutcome::Malformed
    } else {
        let tag = field_units(fs[0]);
        if tag == 1 * UNITS_PER_PIXEL {
            if fs.len() == 5 && field_valid(fs[1]) && field_valid(fs[2]) && field_valid(fs[3])
                && field_valid(fs[4]) {
                let b = Block {
                    pos: Vector { x: field_units(fs[1]) as i64, y: field_units(fs[2]) as i64 },
                    size: Vector { x: field_units(fs[3]) as i64, y: field_units(fs[4]) as i64 },
                };
                if b.wf() {
                    LineOutcome::AddBlock(b)
                } else {
                    LineOutcome::Malformed
                }
            } else {
                LineOutcome::Malformed
            }
        } else if tag == 2 * UNITS_PER_PIXEL {
            if fs.len() == 6 && field_valid(fs[1]) && field_valid(fs[2]) && field_valid(fs[3])
                && field_valid(fs[4]) && (is_true_field(fs[5]) || is_false_field(fs[5])) {
                let s = Spike {
                    pos: Vector { x: field_units(fs[1]) as i64, y: field_units(fs[2]) as i64 },
                    size: Vector { x: field_units(fs[3]) as i64, y: field_units(fs[4]) as i64 },
                    flip: is_true_field(fs[5]),
                };
                if s.wf() {
                    LineOutcome::AddSpike(s)
                } else {
                    LineOutcome::Malformed
                }
            } else {
                LineOutcome::Malformed
            }
        } else if tag == 3 * UNITS_PER_PIXEL {
            if fs.len() == 4 && field_valid(fs[1]) && field_valid(fs[2]) && field_valid(fs[3]) {
                let o = Orb {
                    pos: Vector { x: field_units(fs[1]) as i64, y: field_units(fs[2]) as i64 },
                    d: field_units(fs[3]) as i64,
                    activated: false,
                };
                if o.wf() {
                    LineOutcome::AddOrb(o)
                } else {
                    LineOutcome::Malformed
                }
            } else {
                LineOutcome::Malformed
            }
        } else {
            LineOutcome::Ignored
        }
    }
}

/// Parses one line of the level description.
fn parse_line(line: &[u8]) -> (r: LineOutcome)
    ensures
        r == parsed_line(line@),
{
    let fields: Vec<Vec<u8>> = split_bytes(line, COMMA);
    proof {
        assert(views(fields@).len() >= 1);
    }
    let tag: i64 = match parse_units(fields[0].as_slice()) {
        Some(t) => t,
        None => { return LineOutcome::Malformed },
    };
    if tag == UNITS_PER_PIXEL {
        if fields.len() != 5 {
            return LineOutcome::Malformed;
        }
        let x: i64 = match parse_units(fields[1].as_slice()) {
            Some(v) => v,
            None => { return LineOutcome::Malformed },
        };
        let y: i64 = match parse_units(fields[2].as_slice()) {
            Some(v) => v,
            None => { return LineOutcome::Malformed },
        };
        let w: i64 = match parse_units(fields[3].as_slice()) {
            Some(v) => v,
            None => { return LineOutcome::Malformed },
        };
        let h: i64 = match parse_units(fields[4].as_slice()) {
            Some(v) => v,
            None => { return LineOutcome::Malformed },
        };
        let b: Block = Block { pos: Vector { x, y }, size: Vector { x: w, y: h } };
        if b.is_wf() {
            LineOutcome::AddBlock(b)
        } else {
            LineOutcome::Malformed
        }
    } else if tag == 2 * UNITS_PER_PIXEL {
        if fields.len() != 6 {
            return LineOutcome::Malformed;
        }
        let x: i64 = match parse_units(fields[1].as_slice()) {
            Some(v) => v,
            None => { return LineOutcome::Malformed },
        };
        let y: i64 = match parse_units(fields[2].as_slice()) {
            Some(v) => v,
            None => { return LineOutcome::Malformed },
        };
        let w: i64 = match parse_units(fields[3].as_slice()) {
            Some(v) => v,
            None => { return LineOutcome::Malformed },
        };
        let h: i64 = match parse_units(fields[4].as_slice()) {
            Some(v) => v,
            None => { return LineOutcome::Malformed },
        };
        let flip: bool = match parse_bool(fields[5].as_slice()) {
            Some(v) => v,
            None => { return LineOutcome::Malformed },
        };
        let s: Spike = Spike { pos: Vector { x, y }, size: Vector { x: w, y: h }, flip };
        if s.is_wf() {
            LineOutcome::AddSpike(s)
        } else {
            LineOutcome::Malformed
        }
    } else if tag == 3 * UNITS_PER_PIXEL {
        if fields.len() != 4 {
            return LineOutcome::Malformed;
        }
        let x: i64 = match parse_units(fields[1].as_slice()) {
            Some(v) => v,
            None => { return LineOutcome::Malformed },
        };
        let y: i64 = match parse_units(fields[2].as_slice()) {
            Some(v) => v,
            None => { return LineOutcome::Malformed },
        };
        let d: i64 = match parse_units(fields[3].as_slice()) {
            Some(v) => v,
            None => { return LineOutcome::Malformed },
        };
        let o: Orb = Orb { pos: Vector { x, y }, d, activated: false };
        if o.is_wf() {
            LineOutcome::AddOrb(o)
        } else {
            LineOutcome::Malformed
        }
    } else {
        LineOutcome::Ignored
    }
}

/// `line` without one trailing carriage return, if it carries one.
pub open spec fn strip_cr(line: Seq<u8>) -> Seq<u8> {
    if line.len() > 0 && line.last() == CARRIAGE {
        line.drop_last()
    } else {
        line
    }
}

/// The lines of the level text: the text split at newlines, without the
/// empty final piece a trailing newline leaves, each line without a
/// trailing carriage return.
pub open spec fn level_lines(text: Seq<u8>) -> Seq<Seq<u8>> {
    let raw = split_at(text, NEWLINE);
    let full = if raw.len() > 0 && raw.last().len() == 0 {
        raw.drop_last()
    } else {
        raw
    };
    full.map_values(|l: Seq<u8>| strip_cr(l))
}

/// The level the given lines describe: the blocks, spikes and orbs of
/// the known-tag lines in their order of appearance, or nothing when any
/// line is malformed.
pub open spec fn parsed_level(lines: Seq<Seq<u8>>) -> Option<
    (Seq<Block>, Seq<Spike>, Seq<Orb>),
>
    decreases lines.len(),
{
    if lines.len() == 0 {
        Some((Seq::empty(), Seq::empty(), Seq::empty()))
    } else {
        match parsed_level(lines.drop_last()) {
            Option::None => Option::None,
            Option::Some(acc) => match parsed_line(lines.last()) {
                LineOutcome::Malformed => Option::None,
                LineOutcome::Ignored => Some(acc),
                LineOutcome::AddBlock(b) => Some((acc.0.push(b), acc.1, acc.2)),
                LineOutcome::AddSpike(s) => Some((acc.0, acc.1.push(s), acc.2)),
                LineOutcome::AddOrb(o) => Some((acc.0, acc.1, acc.2.push(o))),
            },
        }
    }
}

/// The level the given text describes, or nothing when it is malformed.
pub open spec fn level_outcome(text: Seq<u8>) -> Option<(Seq<Block>, Seq<Spike>, Seq<Orb>)> {
    parsed_level(level_lines(text))
}

/// A level that parses up to some line parses up to every earlier line.
pub proof fn lemma_parsed_level_prefix(lines: Seq<Seq<u8>>, i: int)
    requires
        0 <= i <= lines.len(),
        parsed_level(lines) is Some,
    ensures
        parsed_level(lines.take(i)) is Some,
    decreases lines.len(),
{
    if i < lines.len() {
        assert(lines.take(lines.len() as int) =~= lines);
        assert(lines.drop_last() =~= lines.take(lines.len() - 1));
        lemma_parsed_level_prefix(lines.take(lines.len() - 1), i);
        assert(lines.take(lines.len() - 1).take(i) =~= lines.take(i));
    } else {
        assert(lines.take(i) =~= lines);
    }
}

/// Every entity of a parsed level is well-formed: a line only adds a
/// block, spike or orb after its well-formedness check passes.
pub proof fn lemma_parsed_level_wf(lines: Seq<Seq<u8>>)
    ensures
        parsed_level(lines) matches Some(t) ==> {
            &&& forall|i: int| 0 <= i < t.0.len() ==> (#[trigger] t.0[i]).wf()
            &&& forall|i: int| 0 <= i < t.1.len() ==> (#[trigger] t.1[i]).wf()
            &&& forall|i: int| 0 <= i < t.2.len() ==> (#[trigger] t.2[i]).wf()
        },
    decreases lines.len(),
{
    if lines.len() > 0 {
        lemma_parsed_level_wf(lines.drop_last());
    }
}

/// The obstacles of one level, as the loader hands them to the game.
pub struct LevelData {
    pub blocks: Vec<Block>,
    pub spikes: Vec<Spike>,
    pub orbs: Vec<Orb>,
}

/// `line` without one trailing carriage return.
fn stripped_cr(line: &Vec<u8>) -> (r: Vec<u8>)
    ensures
        r@ == strip_cr(line@),
{
    let n: usize = line.len();
    let keep: usize = if n > 0 && line[n - 1] == CARRIAGE {
        n - 1
    } else {
        n
    };
    let mut v: Vec<u8> = Vec::new();
    let mut i: usize = 0;
    while i < keep
        invariant
            0 <= i <= keep <= line@.len(),
            v@ == line@.take(i as int),
        decreases keep - i,
    {
        v.push(line[i]);
        proof {
            assert(v@ =~= line@.take(i + 1));
        }
        i = i + 1;
    }
    proof {
        assert(line@.take(keep as int) =~= strip_cr(line@));
    }
    v
}

/// Parses a whole level description; `None` exactly when some line is
/// malformed, and otherwise the blocks, spikes and orbs of the known
/// records in their order of appearance.
pub fn parse_level(text: &[u8]) -> (r: Option<LevelData>)
    ensures
        r is Some <==> level_outcome(text@) is Some,
        r matches Some(d) ==> level_outcome(text@) matches Some(t) && d.blocks@ == t.0
            && d.spikes@ == t.1 && d.orbs@ == t.2,
{
    let ghost lseq: Seq<Seq<u8>> = level_lines(text@);
    let mut lines: Vec<Vec<u8>> = split_bytes(text, NEWLINE);
    proof {
        assert(views(lines@).len() >= 1);
    }
    if lines[lines.len() - 1].len() == 0 {
        lines.pop();
        proof {
            assert(views(lines@) =~= split_at(text@, NEWLINE).drop_last());
        }
    }
    proof {
        assert(lseq.len() == views(lines@).len());
    }
    let mut blocks: Vec<Block> = Vec::new();
    let mut spikes: Vec<Spike> = Vec::new();
    let mut orbs: Vec<Orb> = Vec::new();
    let n: usize = lines.len();
    let mut i: usize = 0;
    proof {
        assert(lseq.take(0) =~= Seq::<Seq<u8>>::empty());
    }
    while i < n
        invariant
            0 <= i <= n == lines@.len(),
            lseq == level_lines(text@),
            lseq.len() == lines@.len(),
            forall|k: int| 0 <= k < lines@.len() ==> lseq[k] == strip_cr((#[trigger] lines@[k])@),
            parsed_level(lseq.take(i as int)) == Some((blocks@, spikes@, orbs@)),
        decreases n - i,
    {
        let line: Vec<u8> = stripped_cr(&lines[i]);
        let outcome: LineOutcome = parse_line(line.as_slice());
        proof {
            assert(lseq.take(i + 1).drop_last() =~= lseq.take(i as int));
            assert(lseq.take(i + 1).last() == lseq[i as int]);
        }
        match outcome {
            LineOutcome::Malformed => {
                proof {
                    if level_outcome(text@) is Some {
                        lemma_parsed_level_prefix(lseq, i + 1);
                        assert(false);
                    }
                }
                return None;
            },
            LineOutcome::Ignored => {},
            LineOutcome::AddBlock(b) => {
                blocks.push(b);
            },
            LineOutcome::AddSpike(s) => {
                spikes.push(s);
            },
            LineOutcome::AddOrb(o) => {
                orbs.push(o);
            },
        }
        i = i + 1;
    }
    proof {
        assert(lseq.take(n as int) =~= lseq);
    }
    Some(LevelData { blocks, spikes, orbs })
}

} // verus!
