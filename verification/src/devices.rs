//! Resolution of the configured capture device against the device names
//! the host enumerates: a numeric string selects by zero-based index,
//! anything else matches a name exactly. (The `default` keyword is
//! handled before enumeration ever happens.)

use vstd::prelude::*;
use crate::version::{is_digit, is_numeral, numeral_val, lemma_numeral_prefix_le};

verus! {

/// Why no device could be resolved.
#[derive(Debug, Clone, Copy, PartialEq, Eq, Structural)]
pub enum DeviceError {
    /// The spec was a number, but no device has that index.
    IndexOutOfRange,
    /// No device carries the given name.
    NotFound,
}

/// A numeral that fits a `usize`; larger numbers fall back to name
/// matching, as a `usize` parse of the spec string would fail on them.
pub open spec fn is_usize_numeral(s: Seq<char>) -> bool {
    is_numeral(s) && numeral_val(s) <= usize::MAX
}

/// Parses a decimal `usize` numeral.
pub fn parse_usize(s: &str) -> (r: Option<usize>)
    ensures
        r is Some <==> is_usize_numeral(s@),
        r matches Some(v) ==> v == numeral_val(s@),
{
    let n = s.unicode_len();
    if n == 0 {
        return None;
    }
    let mut acc: usize = 0;
    let mut i: usize = 0;
    while i < n
        invariant
            n == s@.len(),
            0 <= i <= n,
            forall|k: int| 0 <= k < i ==> is_digit(s@[k]),
            acc == numeral_val(s@.subrange(0, i as int)),
        decreases n - i,
    {
        let c = s.get_char(i);
        let cv = c as u32;
        if cv < 48 || cv > 57 {
            proof {
                assert(!is_digit(s@[i as int]));
            }
            return None;
        }
        let d: usize = (cv - 48) as usize;
        proof {
            let p = s@.subrange(0, i as int);
            let q = s@.subrange(0, i + 1int);
            assert(q.drop_last() =~= p);
            assert(q.last() == s@[i as int]);
        }
        if acc > (usize::MAX - d) / 10 {
            proof {
                vstd::arithmetic::div_mod::lemma_fundamental_div_mod(
                    (usize::MAX - d) as int,
                    10,
                );
                assert(acc * 10 + d > usize::MAX) by (nonlinear_arith)
                    requires
                        acc > ((usize::MAX - d) as int) / 10,
                        (usize::MAX - d) as int == 10 * (((usize::MAX - d) as int) / 10) + (
                        usize::MAX - d) as int % 10,
                        0 <= (usize::MAX - d) as int % 10 < 10,
                        d >= 0,
                ;
                assert(s@.subrange(0, s@.len() as int) =~= s@);
                if is_numeral(s@) {
                    lemma_numeral_prefix_le(s@, i + 1int);
                }
            }
            return None;
        }
        acc = acc * 10 + d;
        i = i + 1;
    }
    proof {
        assert(s@.subrange(0, n as int) =~= s@);
    }
    Some(acc)
}

/// Resolves a device spec against the enumerated device names: a numeric
/// spec selects by zero-based index (and fails when out of range), any
/// other spec must equal a device name exactly (the first match wins).
pub fn resolve_device(names: &Vec<String>, spec_str: &str) -> (r: Result<usize, DeviceError>)
    ensures
        is_usize_numeral(spec_str@) ==> match r {
            Ok(i) => i == numeral_val(spec_str@) && i < names@.len(),
            Err(e) => e is IndexOutOfRange && numeral_val(spec_str@) >= names@.len(),
        },
        !is_usize_numeral(spec_str@) ==> match r {
            Ok(i) => 0 <= i < names@.len() && names@[i as int]@ == spec_str@ && forall|j: int|
                0 <= j < i ==> names@[j]@ != spec_str@,
            Err(e) => e is NotFound && forall|j: int|
                0 <= j < names@.len() ==> names@[j]@ != spec_str@,
        },
{
    if let Some(index) = parse_usize(spec_str) {
        if index < names.len() {
            return Ok(index);
        } else {
            return Err(DeviceError::IndexOutOfRange);
        }
    }
    let mut i: usize = 0;
    while i < names.len()
        invariant
            !is_usize_numeral(spec_str@),
            i <= names@.len(),
            forall|j: int| 0 <= j < i ==> names@[j]@ != spec_str@,
        decreases names@.len() - i,
    {
        if crate::text::str_eq(names[i].as_str(), spec_str) {
            return Ok(i);
        }
        i = i + 1;
    }
    Err(DeviceError::NotFound)
}

} // verus!
