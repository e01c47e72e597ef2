//! Signed-amount parsing. The raw field carries an optional leading `-`,
//! then a one-character currency symbol, then a decimal payload. The
//! parsed amount keeps the sign and the payload's numeric value as a
//! normalized decimal numeral: no leading zeros in the integer part, no
//! trailing zeros and no bare point in the fraction.

use vstd::prelude::*;
use crate::is_digit;
use crate::digit_char;
use crate::error::ConvertError;
use crate::error::ErrorView;

verus! {

/// A signed decimal amount. `negative` records whether the raw field began
/// with `-`; `magnitude` is the normalized absolute value.
#[derive(Debug, Clone, PartialEq, Eq)]
pub struct Amount {
    pub negative: bool,
    pub magnitude: String,
}

/// The mathematical shape of an `Amount`.
#[verifier::ext_equal]
pub struct AmountV {
    pub negative: bool,
    pub magnitude: Seq<char>,
}

impl View for Amount {
    type V = AmountV;

    open spec fn view(&self) -> AmountV {
        AmountV { negative: self.negative, magnitude: self.magnitude@ }
    }
}

/// A valid decimal payload: only digits and at most one point, with at
/// least one digit.
pub open spec fn valid_decimal(p: Seq<char>) -> bool {
    &&& forall|i: int| 0 <= i < p.len() ==> is_digit(p[i]) || p[i] == '.'
    &&& forall|i: int, j: int|
        0 <= i < p.len() && 0 <= j < p.len() && p[i] == '.' && p[j] == '.' ==> i == j
    &&& exists|i: int| 0 <= i < p.len() && is_digit(p[i])
}

/// The position of the decimal point, or the length when there is none.
pub open spec fn dot_pos(p: Seq<char>) -> int {
    if exists|i: int| 0 <= i < p.len() && p[i] == '.' {
        choose|i: int| 0 <= i < p.len() && p[i] == '.'
    } else {
        p.len() as int
    }
}

/// The digits before the decimal point.
pub open spec fn int_digits(p: Seq<char>) -> Seq<char> {
    p.take(dot_pos(p))
}

/// The digits after the decimal point.
pub open spec fn frac_digits(p: Seq<char>) -> Seq<char> {
    if dot_pos(p) == p.len() {
        Seq::<char>::empty()
    } else {
        p.skip(dot_pos(p) + 1)
    }
}

pub open spec fn drop_leading_zeros(d: Seq<char>) -> Seq<char>
    decreases d.len(),
{
    if d.len() > 0 && d[0] == '0' {
        drop_leading_zeros(d.skip(1))
    } else {
        d
    }
}

pub open spec fn drop_trailing_zeros(d: Seq<char>) -> Seq<char>
    decreases d.len(),
{
    if d.len() > 0 && d.last() == '0' {
        drop_trailing_zeros(d.drop_last())
    } else {
        d
    }
}

/// The normalized numeral of a valid payload: integer part without leading
/// zeros (but never empty), fraction without trailing zeros, the point only
/// when a fraction remains.
pub open spec fn norm_magnitude(p: Seq<char>) -> Seq<char> {
    let ip = drop_leading_zeros(int_digits(p));
    let ipz = if ip.len() == 0 {
        seq!['0']
    } else {
        ip
    };
    let fp = drop_trailing_zeros(frac_digits(p));
    if fp.len() == 0 {
        ipz
    } else {
        ipz + seq!['.'] + fp
    }
}

/// The payload of a nonempty raw amount field: everything after the sign
/// (if any) and the one-character currency symbol.
pub open spec fn payload_of(s: Seq<char>) -> Seq<char>
    recommends
        s.len() > 0,
{
    let off: int = if s[0] == '-' {
        2
    } else {
        1
    };
    if off <= s.len() {
        s.skip(off)
    } else {
        Seq::<char>::empty()
    }
}

/// What parsing a raw amount field yields.
pub open spec fn amount_result(s: Seq<char>) -> Result<AmountV, ErrorView> {
    if s.len() == 0 {
        Err(ErrorView::EmptyAmountField)
    } else if !valid_decimal(payload_of(s)) {
        Err(ErrorView::AmountParseFailure)
    } else {
        Ok(AmountV { negative: s[0] == '-', magnitude: norm_magnitude(payload_of(s)) })
    }
}

proof fn lemma_drop_leading_zeros(d: Seq<char>, a: int)
    requires
        0 <= a <= d.len(),
        forall|k: int| 0 <= k < a ==> d[k] == '0',
        a == d.len() || d[a] != '0',
    ensures
        drop_leading_zeros(d) == d.skip(a),
    decreases a,
{
    if a == 0 {
        assert(d.skip(0) =~= d);
    } else {
        lemma_drop_leading_zeros(d.skip(1), a - 1);
        assert(d.skip(1).skip(a - 1) =~= d.skip(a));
    }
}

proof fn lemma_drop_trailing_zeros(d: Seq<char>, b: int)
    requires
        0 <= b <= d.len(),
        forall|k: int| b <= k < d.len() ==> d[k] == '0',
        b == 0 || d[b - 1] != '0',
    ensures
        drop_trailing_zeros(d) == d.take(b),
    decreases d.len() - b,
{
    if b == d.len() {
        assert(d.take(b) =~= d);
    } else {
        lemma_drop_trailing_zeros(d.drop_last(), b);
        assert(d.drop_last().take(b) =~= d.take(b));
    }
}

/// Parses a raw amount field, exactly as `amount_result` describes.
pub fn parse_amount(field: &str) -> (r: Result<Amount, ConvertError>)
    ensures
        amount_result(field@) matches Ok(a) ==> r matches Ok(x) && x@ == a,
        amount_result(field@) matches Err(e) ==> r matches Err(x) && x@ == e,
{
    let n = field.unicode_len();
    if n == 0 {
        return Err(ConvertError::EmptyAmountField);
    }
    let neg = field.get_char(0) == '-';
    let off: usize = if neg {
        2
    } else {
        1
    };
    let ghost p = payload_of(field@);
    if off > n {
        proof {
            assert(p =~= Seq::<char>::empty());
        }
        return Err(ConvertError::AmountParseFailure);
    }
    proof {
        assert(p =~= field@.skip(off as int));
    }
    let mut i: usize = off;
    let mut dot: usize = n;
    let mut has_digit = false;
    while i < n
        invariant
            off <= i <= n,
            n == field@.len(),
            1 <= off <= 2,
            p == payload_of(field@),
            p == field@.skip(off as int),
            forall|k: int| off <= k < i ==> is_digit(field@[k]) || field@[k] == '.',
            dot == n || (off <= dot < i && field@[dot as int] == '.'),
            forall|k: int| off <= k < i && field@[k] == '.' ==> k == dot,
            has_digit <==> exists|k: int| off <= k < i && is_digit(#[trigger] field@[k]),
        decreases n - i,
    {
        let c = field.get_char(i);
        if digit_char(c) {
            has_digit = true;
        } else if c == '.' {
            if dot < n {
                proof {
                    assert(p[dot - off] == '.');
                    assert(p[i - off] == '.');
                    assert(!valid_decimal(p));
                }
                return Err(ConvertError::AmountParseFailure);
            }
            dot = i;
        } else {
            proof {
                assert(p[i - off] == field@[i as int]);
                assert(!valid_decimal(p));
            }
            return Err(ConvertError::AmountParseFailure);
        }
        i = i + 1;
    }
    if !has_digit {
        proof {
            assert(forall|k: int| 0 <= k < p.len() ==> p[k] == field@[k + off]);
            assert(forall|k: int| 0 <= k < p.len() ==> !is_digit(p[k]));
            assert(!valid_decimal(p));
        }
        return Err(ConvertError::AmountParseFailure);
    }
    proof {
        assert(forall|k: int| 0 <= k < p.len() ==> p[k] == field@[k + off]);
        let w = choose|k: int| off <= k < n && is_digit(#[trigger] field@[k]);
        assert(is_digit(p[w - off]));
        assert(valid_decimal(p));
        if dot < n {
            assert(p[dot - off] == '.');
            let c0 = choose|k: int| 0 <= k < p.len() && p[k] == '.';
            assert(p[c0] == '.' && field@[c0 + off] == '.');
            assert(dot_pos(p) == dot - off);
        } else {
            assert(forall|k: int| 0 <= k < p.len() ==> p[k] != '.');
            assert(dot_pos(p) == p.len());
        }
    }
    // End of the integer part, as an absolute position in the field.
    let d_end: usize = if dot < n {
        dot
    } else {
        n
    };
    proof {
        assert(int_digits(p) =~= field@.subrange(off as int, d_end as int));
    }
    let mut iz: usize = off;
    while iz < d_end && field.get_char(iz) == '0'
        invariant
            off <= iz <= d_end,
            d_end <= n == field@.len(),
            forall|k: int| off <= k < iz ==> field@[k] == '0',
        decreases d_end - iz,
    {
        iz = iz + 1;
    }
    proof {
        let ig = int_digits(p);
        assert(forall|k: int| 0 <= k < ig.len() ==> ig[k] == field@[k + off]);
        lemma_drop_leading_zeros(ig, iz - off);
        assert(drop_leading_zeros(ig) =~= field@.subrange(iz as int, d_end as int));
    }
    let mut mag = String::new();
    if iz == d_end {
        mag.append("0");
        proof {
            reveal_strlit("0");
            assert(mag@ =~= seq!['0']);
        }
    } else {
        mag.append(field.substring_char(iz, d_end));
    }
    if dot < n {
        proof {
            assert(frac_digits(p) =~= field@.subrange(dot + 1, n as int));
        }
        let mut fe: usize = n;
        while fe > dot + 1 && field.get_char(fe - 1) == '0'
            invariant
                dot + 1 <= fe <= n,
                n == field@.len(),
                dot < n,
                forall|k: int| fe <= k < n ==> field@[k] == '0',
            decreases fe,
        {
            fe = fe - 1;
        }
        proof {
            let fg = frac_digits(p);
            assert(forall|k: int| 0 <= k < fg.len() ==> fg[k] == field@[k + dot + 1]);
            lemma_drop_trailing_zeros(fg, fe - (dot + 1));
            assert(drop_trailing_zeros(fg) =~= field@.subrange(dot + 1, fe as int));
        }
        if fe > dot + 1 {
            mag.append(".");
            mag.append(field.substring_char(dot + 1, fe));
            proof {
                reveal_strlit(".");
                assert(mag@ =~= norm_magnitude(p));
            }
        } else {
            proof {
                assert(drop_trailing_zeros(frac_digits(p)).len() == 0);
                assert(mag@ =~= norm_magnitude(p));
            }
        }
    } else {
        proof {
            assert(frac_digits(p) =~= Seq::<char>::empty());
            assert(mag@ =~= norm_magnitude(p));
        }
    }
    Ok(Amount { negative: neg, magnitude: mag })
}

} // verus!
