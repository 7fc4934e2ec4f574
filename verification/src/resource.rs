//! Reading the probe's headers: the decimal `Content-Length` value.

use vstd::prelude::*;
use vstd::arithmetic::div_mod::{lemma_fundamental_div_mod, lemma_mod_bound};

verus! {

/// Whether `s` is one or more ASCII decimal digits.
pub open spec fn is_decimal(s: Seq<u8>) -> bool {
    s.len() > 0 && forall|i: int| 0 <= i < s.len() ==> 48 <= #[trigger] s[i] <= 57
}

/// The numeric value of a string of ASCII decimal digits.
pub open spec fn decimal_value(s: Seq<u8>) -> int
    decreases s.len(),
{
    if s.len() == 0 {
        0
    } else {
        decimal_value(s.drop_last()) * 10 + (s.last() - 48)
    }
}

/// A digit string's value is never negative.
proof fn lemma_decimal_nonneg(s: Seq<u8>)
    requires
        forall|i: int| 0 <= i < s.len() ==> 48 <= #[trigger] s[i] <= 57,
    ensures
        decimal_value(s) >= 0,
    decreases s.len(),
{
    if s.len() > 0 {
        lemma_decimal_nonneg(s.drop_last());
    }
}

/// Extending a digit string never lowers its value: the value of any prefix
/// is at most the value of the whole.
proof fn lemma_decimal_prefix_le(s: Seq<u8>, i: int)
    requires
        forall|k: int| 0 <= k < s.len() ==> 48 <= #[trigger] s[k] <= 57,
        0 <= i <= s.len(),
    ensures
        decimal_value(s.take(i)) <= decimal_value(s),
    decreases s.len() - i,
{
    if i < s.len() {
        let t = s.take(i + 1);
        assert(t.drop_last() =~= s.take(i));
        lemma_decimal_nonneg(t.drop_last());
        lemma_decimal_prefix_le(s, i + 1);
    } else {
        assert(s.take(i) =~= s);
    }
}

/// Parses an ASCII decimal integer, as a `Content-Length` header carries
/// one: `Some` exactly when the bytes are one or more decimal digits whose
/// value fits in a `u64`, and then the value itself.
pub fn parse_content_length(bytes: &[u8]) -> (r: Option<u64>)
    ensures
        (match r {
            Option::Some(n) => is_decimal(bytes@) && n == decimal_value(bytes@),
            Option::None => !is_decimal(bytes@) || decimal_value(bytes@) > u64::MAX,
        }),
{
    if bytes.len() == 0 {
        return None;
    }
    let mut acc: u64 = 0;
    let mut i: usize = 0;
    while i < bytes.len()
        invariant
            0 <= i <= bytes@.len(),
            forall|k: int| 0 <= k < i ==> 48 <= #[trigger] bytes@[k] <= 57,
            acc == decimal_value(bytes@.take(i as int)),
        decreases bytes@.len() - i,
    {
        let b = bytes[i];
        if b < 48 || b > 57 {
            return None;
        }
        let d = (b - 48) as u64;
        let limit = (u64::MAX - d) / 10;
        proof {
            lemma_fundamental_div_mod(u64::MAX - d, 10);
            lemma_mod_bound(u64::MAX - d, 10);
            assert(bytes@.take(i as int + 1).drop_last() =~= bytes@.take(i as int));
        }
        if acc > limit {
            proof {
                lemma_decimal_nonneg(bytes@.take(i as int));
                if is_decimal(bytes@) {
                    lemma_decimal_prefix_le(bytes@, i as int + 1);
                }
            }
            return None;
        }
        acc = acc * 10 + d;
        i = i + 1;
    }
    proof {
        assert(bytes@.take(i as int) =~= bytes@);
    }
    Some(acc)
}

} // verus!
