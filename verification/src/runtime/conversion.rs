//! Conversions between runtime values and host values.
use vstd::prelude::*;
use vstd::arithmetic::power2::{pow2, lemma2_to64, lemma2_to64_rest, lemma_pow2_strictly_increases};
use crate::ast::{PrimitiveKind, Type};
use crate::runtime::values::{ListValue, RuntimeValue};

verus! {

/// A host value read from a runtime value.
pub trait FromRaccoon: Sized {
    fn from_raccoon(val: &RuntimeValue) -> Result<Self, String>;
}

/// A host value turned into a runtime value.
pub trait ToRaccoon {
    fn to_raccoon(self) -> RuntimeValue;
}

/// The biased exponent of the IEEE 754 double with these bits.
pub open spec fn f_exp(bits: u64) -> int {
    (bits as int / pow2(52) as int) % 2048
}

/// The fraction field of the double with these bits.
pub open spec fn f_frac(bits: u64) -> int {
    bits as int % pow2(52) as int
}

/// The sign bit of the double with these bits is set.
pub open spec fn f_neg(bits: u64) -> bool {
    bits as int >= pow2(63) as int
}

/// The magnitude of a finite double, truncated toward zero.
pub open spec fn f_trunc_mag(bits: u64) -> int {
    if f_exp(bits) < 1023 {
        0
    } else {
        let e = f_exp(bits) - 1023;
        let m = f_frac(bits) + pow2(52);
        if e >= 52 {
            m * pow2((e - 52) as nat)
        } else {
            m / pow2((52 - e) as nat) as int
        }
    }
}

pub open spec fn clamp(v: int, lo: int, hi: int) -> int {
    if v < lo {
        lo
    } else if v > hi {
        hi
    } else {
        v
    }
}

/// A double cast to an integer type with bounds `lo` and `hi`: truncated toward zero and
/// saturated at the bounds; NaN gives 0.
pub open spec fn float_to_int(bits: u64, lo: int, hi: int) -> int {
    if f_exp(bits) == 2047 {
        if f_frac(bits) != 0 {
            0
        } else if f_neg(bits) {
            lo
        } else {
            hi
        }
    } else {
        clamp(if f_neg(bits) { -f_trunc_mag(bits) } else { f_trunc_mag(bits) }, lo, hi)
    }
}

/// The double with these bits is not zero (NaN included).
pub open spec fn float_nonzero(bits: u64) -> bool {
    bits as int % pow2(63) as int != 0
}

fn float_bits_to_int(bits: u64, lo: i64, hi: i64) -> (r: i64)
    requires
        lo <= 0 <= hi,
    ensures
        r == float_to_int(bits, lo as int, hi as int),
{
    proof {
        lemma2_to64();
        lemma2_to64_rest();
    }
    let exp = (bits >> 52u64) & 0x7ffu64;
    let frac = bits & 0xfffffffffffffu64;
    let neg = (bits >> 63u64) == 1;
    assert(((bits >> 52u64) & 0x7ffu64) == (bits / 0x10000000000000u64) % 2048) by (bit_vector);
    assert((bits & 0xfffffffffffffu64) == bits % 0x10000000000000u64) by (bit_vector);
    assert(((bits >> 63u64) == 1) == (bits >= 0x8000000000000000u64)) by (bit_vector);
    if exp == 0x7ff {
        if frac != 0 {
            0
        } else if neg {
            lo
        } else {
            hi
        }
    } else if exp < 1023 {
        0
    } else {
        let e = exp - 1023;
        let m = frac | 0x10000000000000u64;
        assert(m == frac + 0x10000000000000u64) by (bit_vector)
            requires
                frac == bits & 0xfffffffffffffu64,
                m == frac | 0x10000000000000u64;
        if e >= 63 {
            proof {
                let k = (e - 52) as nat;
                if k > 11 {
                    lemma_pow2_strictly_increases(11, k);
                }
                assert(pow2(k) >= 2048);
                assert(m * pow2(k) >= 0x10000000000000u64 * 2048) by (nonlinear_arith)
                    requires
                        m >= 0x10000000000000u64,
                        pow2(k) >= 2048;
            }
            if neg {
                lo
            } else {
                hi
            }
        } else {
            let mag: u64 = if e >= 52 {
                let k = e - 52;
                proof {
                    if k < 10 {
                        lemma_pow2_strictly_increases(k as nat, 10);
                    }
                    assert(pow2(k as nat) <= 1024);
                    assert(m * pow2(k as nat) < 0x20000000000000u64 * 1024) by (nonlinear_arith)
                        requires
                            m < 0x20000000000000u64,
                            pow2(k as nat) <= 1024;
                    vstd::bits::lemma_u64_shl_is_mul(m, k);
                }
                m << k
            } else {
                let k = 52 - e;
                proof {
                    vstd::bits::lemma_u64_shr_is_div(m, k);
                    assert(m as nat / pow2(k as nat) <= m) by {
                        vstd::arithmetic::div_mod::lemma_div_is_ordered_by_denominator(m as int, 1, pow2(k as nat) as int);
                        vstd::arithmetic::power2::lemma_pow2_pos(k as nat);
                    }
                }
                m >> k
            };
            let v: i64 = if neg { -(mag as i64) } else { mag as i64 };
            if v < lo {
                lo
            } else if v > hi {
                hi
            } else {
                v
            }
        }
    }
}

impl FromRaccoon for i64 {
    /// An integer as it is; a float truncated and saturated; a boolean as 1 or 0.
    fn from_raccoon(val: &RuntimeValue) -> (r: Result<i64, String>)
        ensures
            match *val {
                RuntimeValue::Int(i) => r == Ok::<i64, String>(i),
                RuntimeValue::Float(b) => r == Ok::<i64, String>(float_to_int(b, i64::MIN as int, i64::MAX as int) as i64),
                RuntimeValue::Bool(b) => r == Ok::<i64, String>(if b { 1 } else { 0 }),
                _ => r matches Err(e) && e@ == "Expected integer"@,
            },
    {
        match val {
            RuntimeValue::Int(i) => Ok(*i),
            RuntimeValue::Float(b) => Ok(float_bits_to_int(*b, i64::MIN, i64::MAX)),
            RuntimeValue::Bool(b) => Ok(if *b { 1 } else { 0 }),
            _ => Err("Expected integer".to_string()),
        }
    }
}

impl ToRaccoon for i64 {
    fn to_raccoon(self) -> (r: RuntimeValue)
        ensures
            r == RuntimeValue::Int(self),
    {
        RuntimeValue::Int(self)
    }
}

impl FromRaccoon for i32 {
    /// An integer truncated to its low 32 bits; a float truncated and saturated; a boolean
    /// as 1 or 0.
    fn from_raccoon(val: &RuntimeValue) -> (r: Result<i32, String>)
        ensures
            match *val {
                RuntimeValue::Int(i) => r == Ok::<i32, String>(i as i32),
                RuntimeValue::Float(b) => r == Ok::<i32, String>(float_to_int(b, i32::MIN as int, i32::MAX as int) as i32),
                RuntimeValue::Bool(b) => r == Ok::<i32, String>(if b { 1 } else { 0 }),
                _ => r matches Err(e) && e@ == "Expected integer"@,
            },
    {
        match val {
            RuntimeValue::Int(i) => Ok(*i as i32),
            RuntimeValue::Float(b) => {
                let v = float_bits_to_int(*b, i32::MIN as i64, i32::MAX as i64);
                Ok(v as i32)
            },
            RuntimeValue::Bool(b) => Ok(if *b { 1 } else { 0 }),
            _ => Err("Expected integer".to_string()),
        }
    }
}

impl ToRaccoon for i32 {
    fn to_raccoon(self) -> (r: RuntimeValue)
        ensures
            r == RuntimeValue::Int(self as i64),
    {
        RuntimeValue::Int(self as i64)
    }
}

impl FromRaccoon for bool {
    /// A boolean as it is; a number as whether it is non-zero.
    fn from_raccoon(val: &RuntimeValue) -> (r: Result<bool, String>)
        ensures
            match *val {
                RuntimeValue::Bool(b) => r == Ok::<bool, String>(b),
                RuntimeValue::Int(i) => r == Ok::<bool, String>(i != 0),
                RuntimeValue::Float(b) => r == Ok::<bool, String>(float_nonzero(b)),
                _ => r matches Err(e) && e@ == "Expected boolean"@,
            },
    {
        match val {
            RuntimeValue::Bool(b) => Ok(*b),
            RuntimeValue::Int(i) => Ok(*i != 0),
            RuntimeValue::Float(b) => {
                let bits = *b;
                proof {
                    lemma2_to64_rest();
                }
                assert((bits & 0x7fffffffffffffffu64) == bits % 0x8000000000000000u64) by (bit_vector);
                Ok((bits & 0x7fffffffffffffffu64) != 0)
            },
            _ => Err("Expected boolean".to_string()),
        }
    }
}

impl ToRaccoon for bool {
    fn to_raccoon(self) -> (r: RuntimeValue)
        ensures
            r == RuntimeValue::Bool(self),
    {
        RuntimeValue::Bool(self)
    }
}

impl FromRaccoon for String {
    fn from_raccoon(val: &RuntimeValue) -> (r: Result<String, String>)
        ensures
            match *val {
                RuntimeValue::Str(s) => r matches Ok(t) && t@ == s@,
                _ => r matches Err(e) && e@ == "Expected string"@,
            },
    {
        match val {
            RuntimeValue::Str(s) => Ok(s.clone()),
            _ => Err("Expected string".to_string()),
        }
    }
}

impl ToRaccoon for String {
    fn to_raccoon(self) -> (r: RuntimeValue)
        ensures
            r == RuntimeValue::Str(self),
    {
        RuntimeValue::Str(self)
    }
}

impl<T: FromRaccoon> FromRaccoon for Vec<T> {
    /// Each element of a list read in turn, stopping at the first that fails.
    fn from_raccoon(val: &RuntimeValue) -> (r: Result<Vec<T>, String>)
        ensures
            match *val {
                RuntimeValue::List(l) => (r matches Ok(v) ==> v@.len() == l.elements@.len()),
                _ => r matches Err(e) && e@ == "Expected list"@,
            },
    {
        match val {
            RuntimeValue::List(list) => {
                let mut out: Vec<T> = Vec::new();
                let mut i: usize = 0;
                while i < list.elements.len()
                    invariant
                        *val == RuntimeValue::List(*list),
                        i <= list.elements@.len(),
                        out@.len() == i,
                    decreases list.elements@.len() - i,
                {
                    match T::from_raccoon(&list.elements[i]) {
                        Ok(x) => out.push(x),
                        Err(e) => return Err(e),
                    }
                    i = i + 1;
                }
                Ok(out)
            },
            _ => Err("Expected list".to_string()),
        }
    }
}

impl<T: ToRaccoon> ToRaccoon for Vec<T> {
    /// A list of type `any` of the converted elements.
    fn to_raccoon(self) -> (r: RuntimeValue)
        ensures
            r matches RuntimeValue::List(l) && l.elements@.len() == self@.len()
                && l.element_type == Type::Primitive(PrimitiveKind::Any),
    {
        let mut items = self;
        let n = items.len();
        let mut rev: Vec<RuntimeValue> = Vec::new();
        while items.len() > 0
            invariant
                items@.len() + rev@.len() == n,
            decreases items@.len(),
        {
            let x = items.pop().unwrap();
            rev.push(x.to_raccoon());
        }
        let mut elements: Vec<RuntimeValue> = Vec::new();
        while rev.len() > 0
            invariant
                rev@.len() + elements@.len() == n,
            decreases rev@.len(),
        {
            let x = rev.pop().unwrap();
            elements.push(x);
        }
        RuntimeValue::List(ListValue { elements, element_type: Type::Primitive(PrimitiveKind::Any) })
    }
}

impl<T: FromRaccoon> FromRaccoon for Option<T> {
    /// `null` as none; anything else read as the inner type.
    fn from_raccoon(val: &RuntimeValue) -> (r: Result<Option<T>, String>)
        ensures
            *val == RuntimeValue::Null ==> r matches Ok(None),
            *val != RuntimeValue::Null ==> exists|inner: Result<T, String>| #[trigger] call_ensures(
                T::from_raccoon,
                (val,),
                inner,
            ) && match inner {
                Ok(x) => r == Ok::<Option<T>, String>(Some(x)),
                Err(e) => r == Err::<Option<T>, String>(e),
            },
    {
        match val {
            RuntimeValue::Null => Ok(None),
            other => match T::from_raccoon(other) {
                Ok(x) => Ok(Some(x)),
                Err(e) => Err(e),
            },
        }
    }
}

impl<T: ToRaccoon> ToRaccoon for Option<T> {
    /// The inner value converted, or `null`.
    fn to_raccoon(self) -> (r: RuntimeValue)
        ensures
            self is None ==> r == RuntimeValue::Null,
    {
        match self {
            Some(v) => v.to_raccoon(),
            None => RuntimeValue::Null,
        }
    }
}

} // verus!
