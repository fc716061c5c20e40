//! Decimal text of unsigned integers and of the library's fixed-point numbers.

use vstd::prelude::*;

verus! {

/// The decimal digits of `n`, most significant first, without leading zeros
/// (zero has the single digit 0).
pub open spec fn digits_of(n: nat) -> Seq<u8>
    decreases n,
{
    if n < 10 {
        seq![n as u8]
    } else {
        digits_of(n / 10).push((n % 10) as u8)
    }
}

/// The character that writes the digit `d`.
pub open spec fn digit_char(d: u8) -> char {
    if d == 0 {
        '0'
    } else if d == 1 {
        '1'
    } else if d == 2 {
        '2'
    } else if d == 3 {
        '3'
    } else if d == 4 {
        '4'
    } else if d == 5 {
        '5'
    } else if d == 6 {
        '6'
    } else if d == 7 {
        '7'
    } else if d == 8 {
        '8'
    } else {
        '9'
    }
}

/// The characters that write a sequence of digits.
pub open spec fn digit_chars(ds: Seq<u8>) -> Seq<char> {
    ds.map_values(|d: u8| digit_char(d))
}

/// The decimal text of `n`.
pub open spec fn nat_text(n: nat) -> Seq<char> {
    digit_chars(digits_of(n))
}

pub proof fn lemma_digits_bounded(n: nat)
    ensures
        digits_of(n).len() >= 1,
        forall|i: int| 0 <= i < digits_of(n).len() ==> #[trigger] digits_of(n)[i] < 10,
    decreases n,
{
    if n >= 10 {
        lemma_digits_bounded(n / 10);
    }
}

/// The digits of `n`, most significant first.
pub fn decimal_digits(n: u64) -> (r: Vec<u8>)
    ensures
        r@ == digits_of(n as nat),
{
    let mut r: Vec<u8> = Vec::new();
    let mut q: u64 = n;
    while q >= 10
        invariant
            digits_of(n as nat) == digits_of(q as nat) + r@,
        decreases q,
    {
        let d: u8 = (q % 10) as u8;
        r.insert(0, d);
        proof {
            assert(digits_of(q as nat) == digits_of((q / 10) as nat).push(d));
        }
        q = q / 10;
        assert(digits_of(n as nat) == digits_of(q as nat) + r@);
    }
    r.insert(0, q as u8);
    assert(digits_of(n as nat) == r@);
    r
}

/// A one-character string holding the digit `d`.
fn digit_str(d: u8) -> (r: &'static str)
    requires
        d < 10,
    ensures
        r@ == seq![digit_char(d)],
{
    if d == 0 {
        proof { reveal_strlit("0"); }
        "0"
    } else if d == 1 {
        proof { reveal_strlit("1"); }
        "1"
    } else if d == 2 {
        proof { reveal_strlit("2"); }
        "2"
    } else if d == 3 {
        proof { reveal_strlit("3"); }
        "3"
    } else if d == 4 {
        proof { reveal_strlit("4"); }
        "4"
    } else if d == 5 {
        proof { reveal_strlit("5"); }
        "5"
    } else if d == 6 {
        proof { reveal_strlit("6"); }
        "6"
    } else if d == 7 {
        proof { reveal_strlit("7"); }
        "7"
    } else if d == 8 {
        proof { reveal_strlit("8"); }
        "8"
    } else {
        proof { reveal_strlit("9"); }
        "9"
    }
}

/// Appends the characters of the digits `ds[lo..hi]` to `s`.
pub fn append_digits(s: &mut String, ds: &Vec<u8>, lo: usize, hi: usize)
    requires
        lo <= hi <= ds@.len(),
        forall|i: int| 0 <= i < ds@.len() ==> #[trigger] ds@[i] < 10,
    ensures
        final(s)@ == old(s)@ + digit_chars(ds@.subrange(lo as int, hi as int)),
{
    let mut i: usize = lo;
    while i < hi
        invariant
            lo <= i <= hi <= ds@.len(),
            forall|k: int| 0 <= k < ds@.len() ==> #[trigger] ds@[k] < 10,
            s@ == old(s)@ + digit_chars(ds@.subrange(lo as int, i as int)),
        decreases hi - i,
    {
        s.append(digit_str(ds[i]));
        assert(ds@.subrange(lo as int, i + 1) == ds@.subrange(lo as int, i as int).push(ds@[i as int]));
        assert(digit_chars(ds@.subrange(lo as int, i + 1)) == digit_chars(ds@.subrange(lo as int, i as int))
            + seq![digit_char(ds@[i as int])]);
        i = i + 1;
    }
}

/// The decimal text of `n`.
pub fn u64_text(n: u64) -> (r: String)
    ensures
        r@ == nat_text(n as nat),
{
    let ds = decimal_digits(n);
    proof {
        lemma_digits_bounded(n as nat);
    }
    let mut s = String::new();
    append_digits(&mut s, &ds, 0, ds.len());
    assert(ds@.subrange(0, ds@.len() as int) == ds@);
    assert(s@ == nat_text(n as nat));
    s
}


/// Ten to the power `k`.
pub open spec fn pow10(k: nat) -> nat
    decreases k,
{
    if k == 0 {
        1
    } else {
        10 * pow10((k - 1) as nat)
    }
}

/// `ds` with zeros put in front until it is at least `width` long.
pub open spec fn pad_digits(ds: Seq<u8>, width: nat) -> Seq<u8> {
    if ds.len() >= width {
        ds
    } else {
        Seq::new((width - ds.len()) as nat, |i: int| 0u8) + ds
    }
}

/// `ds` with zeros put in front until it is at least `width` long.
fn pad_front(ds: &Vec<u8>, width: u64) -> (r: Vec<u8>)
    ensures
        r@ == pad_digits(ds@, width as nat),
{
    if ds.len() as u64 >= width {
        return ds.clone();
    }
    let zeros: u64 = width - ds.len() as u64;
    let mut r: Vec<u8> = Vec::new();
    let mut k: u64 = 0;
    while k < zeros
        invariant
            k <= zeros,
            r@ == Seq::new(k as nat, |i: int| 0u8),
        decreases zeros - k,
    {
        r.push(0);
        k = k + 1;
        assert(r@ == Seq::new(k as nat, |i: int| 0u8));
    }
    let ghost front = r@;
    let mut i: usize = 0;
    while i < ds.len()
        invariant
            i <= ds@.len(),
            r@ == front + ds@.subrange(0, i as int),
        decreases ds@.len() - i,
    {
        r.push(ds[i]);
        i = i + 1;
        assert(r@ == front + ds@.subrange(0, i as int));
    }
    assert(ds@.subrange(0, ds@.len() as int) == ds@);
    r
}

/// A decimal number: `magnitude / 10^scale`, negated when `negative`.
///
/// The constructors keep numbers canonical (see `is_canonical`), so that two
/// numbers are equal exactly when they denote the same value.
#[derive(Clone, Copy, Debug, PartialEq, Eq, Structural)]
pub struct Number {
    pub negative: bool,
    pub magnitude: u64,
    pub scale: u32,
}

impl Number {
    /// No trailing zero after the decimal point, and no negative zero.
    pub open spec fn is_canonical(&self) -> bool {
        &&& (self.scale > 0 ==> self.magnitude % 10 != 0)
        &&& (self.magnitude == 0 ==> !self.negative)
    }

    /// The digits of the number, padded with zeros so that at least one
    /// digit stands before the decimal point.
    pub open spec fn padded_digits(&self) -> Seq<u8> {
        pad_digits(digits_of(self.magnitude as nat), (self.scale + 1) as nat)
    }

    /// The number of digits before the decimal point.
    pub open spec fn int_len(&self) -> int {
        self.padded_digits().len() - self.scale
    }

    /// The decimal text of the number: a minus sign when negative, the
    /// integer digits, and, when the scale is not zero, a point followed by
    /// exactly `scale` fractional digits.
    pub open spec fn text(&self) -> Seq<char> {
        let sign = if self.negative { seq!['-'] } else { Seq::<char>::empty() };
        let d = self.padded_digits();
        if self.scale == 0 {
            sign + digit_chars(d)
        } else {
            sign + digit_chars(d.subrange(0, self.int_len())) + seq!['.']
                + digit_chars(d.subrange(self.int_len(), d.len() as int))
        }
    }

    /// The decimal text of the number (see `text`).
    pub fn to_text(&self) -> (r: String)
        ensures
            r@ == self.text(),
    {
        let ds = decimal_digits(self.magnitude);
        let p = pad_front(&ds, self.scale as u64 + 1);
        proof {
            lemma_digits_bounded(self.magnitude as nat);
            assert forall|i: int| 0 <= i < p@.len() implies #[trigger] p@[i] < 10 by {
                if ds@.len() < self.scale + 1 {
                    let z = (self.scale + 1 - ds@.len()) as int;
                    if i >= z {
                        assert(p@[i] == ds@[i - z]);
                    }
                }
            }
        }
        let mut s = String::new();
        if self.negative {
            proof { reveal_strlit("-"); }
            s.append("-");
        }
        if self.scale == 0 {
            append_digits(&mut s, &p, 0, p.len());
            assert(p@.subrange(0, p@.len() as int) == p@);
        } else {
            let int_len: usize = p.len() - self.scale as usize;
            append_digits(&mut s, &p, 0, int_len);
            proof { reveal_strlit("."); }
            s.append(".");
            append_digits(&mut s, &p, int_len, p.len());
        }
        s
    }

    /// The integer `v`.
    pub fn from_int(v: i64) -> (r: Number)
        ensures
            r.is_canonical(),
            r.scale == 0,
            r.negative == (v < 0),
            r.magnitude == if v < 0 { -v } else { v as int },
    {
        if v < 0 {
            let m: u64 = ((-(v + 1)) as u64) + 1;
            Number { negative: true, magnitude: m, scale: 0 }
        } else {
            Number { negative: false, magnitude: v as u64, scale: 0 }
        }
    }

    /// The number `magnitude / 10^scale`, negated when `negative`, brought to
    /// canonical form.
    pub fn decimal(negative: bool, magnitude: u64, scale: u32) -> (r: Number)
        ensures
            r.is_canonical(),
            r.scale <= scale,
            r.magnitude * pow10((scale - r.scale) as nat) == magnitude,
            magnitude != 0 ==> r.negative == negative,
    {
        let mut m: u64 = magnitude;
        let mut s: u32 = scale;
        assert(pow10((scale - s) as nat) == 1) by {
            assert(((scale - s) as nat) == 0);
            reveal_with_fuel(pow10, 1);
        }
        assert(m * pow10((scale - s) as nat) == magnitude);
        while s > 0 && m % 10 == 0
            invariant
                s <= scale,
                m * pow10((scale - s) as nat) == magnitude,
            decreases s,
        {
            proof {
                let k = (scale - s) as nat;
                let q = (m / 10) as int;
                assert(pow10(k + 1) == 10 * pow10(k));
                assert(m == q * 10);
                assert(q * pow10(k + 1) == m * pow10(k)) by (nonlinear_arith)
                    requires
                        m == q * 10,
                        pow10(k + 1) == 10 * pow10(k),
                ;
            }
            m = m / 10;
            s = s - 1;
        }
        if m == 0 {
            proof {
                assert(m * pow10((scale - s) as nat) == 0);
            }
            Number { negative: false, magnitude: 0, scale: 0 }
        } else {
            Number { negative, magnitude: m, scale: s }
        }
    }
}

} // verus!
