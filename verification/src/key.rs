//! Property keys.
use std::hash::Hash;

use vstd::arithmetic::power2::{
    lemma2_to64, lemma2_to64_rest, lemma_pow2_adds, lemma_pow2_pos, lemma_pow2_unfold, pow2,
};
use vstd::bits::{lemma_u64_shl_is_mul, lemma_u64_shr_is_div};
use std::rc::Rc;

use vstd::prelude::*;

use crate::intern::{intern, resolve, Interner};
use crate::text::{signed_decimal, to_signed_decimal};

verus! {

/// The key of a property: an interned name, a number, or one of the simple
/// values. Fractional numbers are held by their IEEE-754 bit pattern.
#[derive(Clone, Debug)]
pub enum HashKey {
    Sym(u32),
    Int(i64),
    Float(u64),
    Bool(bool),
    Null,
    Undefined,
    Other(String),
}

/// The biased exponent of a double.
pub open spec fn exponent_of(bits: u64) -> int {
    bits as int / 0x10_0000_0000_0000 % 0x800
}

/// The fraction field of a double.
pub open spec fn fraction_of(bits: u64) -> int {
    bits as int % 0x10_0000_0000_0000
}

/// Whether the sign bit of a double is set.
pub open spec fn is_negative(bits: u64) -> bool {
    bits as int / 0x8000_0000_0000_0000 == 1
}

/// Whether a double is a zero of either sign.
pub open spec fn is_zero(bits: u64) -> bool {
    exponent_of(bits) == 0 && fraction_of(bits) == 0
}

/// Whether a double is not a number.
pub open spec fn is_nan(bits: u64) -> bool {
    exponent_of(bits) == 0x7ff && fraction_of(bits) != 0
}

/// The magnitude of the integer that a double stands for, if it stands for
/// one. With a biased exponent `e` and a fraction `f` a normal double is
/// `(2^52 + f) * 2^(e - 1075)`.
pub open spec fn integer_magnitude(bits: u64) -> Option<nat> {
    let significand = (0x10_0000_0000_0000 + fraction_of(bits)) as nat;
    let e = exponent_of(bits);
    if is_zero(bits) {
        Some(0)
    } else if e < 1023 || e == 0x7ff {
        None
    } else if e >= 1075 {
        Some(significand * pow2((e - 1075) as nat))
    } else if significand % pow2((1075 - e) as nat) == 0 {
        Some(significand / pow2((1075 - e) as nat))
    } else {
        None
    }
}

/// The integer that a double equals, when it lies between -2^63 and 2^63; the
/// upper end of that range is taken to the largest 64-bit integer.
pub open spec fn exact_integer(bits: u64) -> Option<i64> {
    match integer_magnitude(bits) {
        None => None,
        Some(m) => if m > 0x8000_0000_0000_0000 {
            None
        } else if is_negative(bits) {
            Some((-(m as int)) as i64)
        } else if m == 0x8000_0000_0000_0000 {
            Some(i64::MAX)
        } else {
            Some(m as i64)
        },
    }
}

/// The bit pattern that stands for a double as a key: one zero and one NaN.
pub open spec fn canonical_bits(bits: u64) -> u64 {
    if is_zero(bits) {
        0
    } else if is_nan(bits) {
        0x7ff8_0000_0000_0000
    } else {
        bits
    }
}

/// When two keys name the same property. Integers and doubles of the same
/// value are the same key.
pub open spec fn same_key(a: HashKey, b: HashKey) -> bool {
    match (a, b) {
        (HashKey::Sym(x), HashKey::Sym(y)) => x == y,
        (HashKey::Int(x), HashKey::Int(y)) => x == y,
        (HashKey::Float(x), HashKey::Float(y)) => x == y,
        (HashKey::Int(x), HashKey::Float(y)) => exact_integer(y) == Some(x),
        (HashKey::Float(x), HashKey::Int(y)) => exact_integer(x) == Some(y),
        (HashKey::Bool(x), HashKey::Bool(y)) => x == y,
        (HashKey::Null, HashKey::Null) => true,
        (HashKey::Undefined, HashKey::Undefined) => true,
        (HashKey::Other(x), HashKey::Other(y)) => x@ == y@,
        _ => false,
    }
}

/// What a key is hashed by: a tag, a word, and text.
#[verifier::ext_equal]
pub struct HashClass {
    pub tag: u8,
    pub word: u64,
    pub text: Seq<char>,
}

pub open spec fn hash_class(k: HashKey) -> HashClass {
    match k {
        HashKey::Sym(id) => HashClass { tag: 0, word: id as u64, text: Seq::empty() },
        HashKey::Int(v) => HashClass { tag: 1, word: v as u64, text: Seq::empty() },
        HashKey::Float(bits) => match exact_integer(bits) {
            Some(v) => HashClass { tag: 1, word: v as u64, text: Seq::empty() },
            None => HashClass { tag: 2, word: bits, text: Seq::empty() },
        },
        HashKey::Bool(v) => HashClass {
            tag: 3,
            word: if v {
                1
            } else {
                0
            },
            text: Seq::empty(),
        },
        HashKey::Null => HashClass { tag: 4, word: 0, text: Seq::empty() },
        HashKey::Undefined => HashClass { tag: 5, word: 0, text: Seq::empty() },
        HashKey::Other(s) => HashClass { tag: 6, word: 0, text: s@ },
    }
}

/// Whether a key is as the constructors make it: its double, if it holds one,
/// is in canonical form.
pub open spec fn is_canonical(k: HashKey) -> bool {
    match k {
        HashKey::Float(bits) => canonical_bits(bits) == bits,
        _ => true,
    }
}

pub(crate) fn exponent(bits: u64) -> (e: u64)
    ensures
        e == exponent_of(bits),
{
    assert((bits >> 52) & 0x7ff == (bits / 0x10_0000_0000_0000) % 0x800) by (bit_vector);
    (bits >> 52) & 0x7ff
}

fn fraction(bits: u64) -> (f: u64)
    ensures
        f == fraction_of(bits),
        f < 0x10_0000_0000_0000,
{
    assert(bits & 0xf_ffff_ffff_ffff == bits % 0x10_0000_0000_0000) by (bit_vector);
    bits & 0xf_ffff_ffff_ffff
}

pub(crate) fn negative(bits: u64) -> (r: bool)
    ensures
        r == is_negative(bits),
{
    assert((bits >> 63 == 1) == (bits / 0x8000_0000_0000_0000 == 1)) by (bit_vector);
    bits >> 63 == 1
}

fn canonical_float_bits(bits: u64) -> (r: u64)
    ensures
        r == canonical_bits(bits),
{
    let e: u64 = exponent(bits);
    let f: u64 = fraction(bits);
    if e == 0 && f == 0 {
        0
    } else if e == 0x7ff && f != 0 {
        0x7ff8_0000_0000_0000
    } else {
        bits
    }
}

/// The integer magnitude of a double, where it is at most 2^63.
pub(crate) fn small_magnitude(bits: u64) -> (r: Option<u64>)
    ensures
        match r {
            Some(m) => integer_magnitude(bits) == Some(m as nat) && m <= 0x8000_0000_0000_0000,
            None => integer_magnitude(bits) matches Some(m) ==> m > 0x8000_0000_0000_0000,
        },
{
    let e: u64 = exponent(bits);
    let f: u64 = fraction(bits);
    proof {
        lemma2_to64();
        lemma2_to64_rest();
    }
    if e == 0 && f == 0 {
        return Some(0);
    }
    if e < 1023 || e == 0x7ff {
        return None;
    }
    let significand: u64 = 0x10_0000_0000_0000 + f;
    if e >= 1075 {
        let shift: u64 = e - 1075;
        if shift > 11 {
            proof {
                lemma_pow2_adds(12, (shift - 12) as nat);
                lemma_pow2_pos((shift - 12) as nat);
                assert(significand * pow2(shift as nat) > 0x8000_0000_0000_0000)
                    by (nonlinear_arith)
                    requires
                        significand >= 0x10_0000_0000_0000,
                        pow2(shift as nat) == 4096 * pow2((shift - 12) as nat),
                        pow2((shift - 12) as nat) >= 1,
                ;
            }
            return None;
        }
        proof {
            assert(pow2(shift as nat) <= 2048) by {
                lemma_pow2_adds(shift as nat, (11 - shift) as nat);
                lemma_pow2_pos((11 - shift) as nat);
                assert(pow2(shift as nat) <= 2048) by (nonlinear_arith)
                    requires
                        pow2(shift as nat) * pow2((11 - shift) as nat) == 2048,
                        pow2((11 - shift) as nat) >= 1,
                ;
            }
            assert(significand * pow2(shift as nat) <= u64::MAX) by (nonlinear_arith)
                requires
                    significand < 0x20_0000_0000_0000,
                    pow2(shift as nat) <= 2048,
            ;
            lemma_u64_shl_is_mul(significand, shift);
        }
        let m: u64 = significand << shift;
        if m > 0x8000_0000_0000_0000 {
            None
        } else {
            Some(m)
        }
    } else {
        let shift: u64 = 1075 - e;
        proof {
            lemma_u64_shr_is_div(significand, shift);
            lemma_pow2_pos(shift as nat);
        }
        let whole: u64 = significand >> shift;
        proof {
            let p = pow2(shift as nat) as int;
            vstd::arithmetic::div_mod::lemma_fundamental_div_mod(significand as int, p);
            assert(whole * p <= significand) by (nonlinear_arith)
                requires
                    significand as int == p * (significand as int / p) + significand as int % p,
                    whole as int == significand as int / p,
                    significand as int % p >= 0,
            ;
            lemma_u64_shl_is_mul(whole, shift);
            assert(p * whole == whole * p) by (nonlinear_arith);
            assert(whole <= significand) by (nonlinear_arith)
                requires
                    whole * p <= significand,
                    p >= 1,
                    whole >= 0,
            ;
        }
        if whole << shift == significand {
            Some(whole)
        } else {
            None
        }
    }
}

/// The integer that a double equals, if it is in the range of 64-bit integers.
pub(crate) fn float_bits_to_i64_exact(bits: u64) -> (r: Option<i64>)
    ensures
        r == exact_integer(bits),
{
    match small_magnitude(bits) {
        None => None,
        Some(m) => if negative(bits) {
            if m == 0x8000_0000_0000_0000 {
                Some(i64::MIN)
            } else {
                Some(-(m as i64))
            }
        } else if m == 0x8000_0000_0000_0000 {
            Some(i64::MAX)
        } else {
            Some(m as i64)
        },
    }
}

impl PartialEq for HashKey {
    fn eq(&self, other: &Self) -> (r: bool) {
        match (self, other) {
            (HashKey::Sym(a), HashKey::Sym(b)) => *a == *b,
            (HashKey::Int(a), HashKey::Int(b)) => *a == *b,
            (HashKey::Float(a), HashKey::Float(b)) => *a == *b,
            (HashKey::Int(a), HashKey::Float(b)) => match float_bits_to_i64_exact(*b) {
                Some(v) => v == *a,
                None => false,
            },
            (HashKey::Float(a), HashKey::Int(b)) => match float_bits_to_i64_exact(*a) {
                Some(v) => v == *b,
                None => false,
            },
            (HashKey::Bool(a), HashKey::Bool(b)) => *a == *b,
            (HashKey::Null, HashKey::Null) => true,
            (HashKey::Undefined, HashKey::Undefined) => true,
            (HashKey::Other(a), HashKey::Other(b)) => *a == *b,
            _ => false,
        }
    }
}

impl vstd::std_specs::cmp::PartialEqSpecImpl for HashKey {
    open spec fn obeys_eq_spec() -> bool {
        true
    }

    open spec fn eq_spec(&self, other: &Self) -> bool {
        same_key(*self, *other)
    }
}

impl Eq for HashKey {

}

/// Calls `Hash::hash` of the standard library's impl for tuples, which feeds the
/// three parts to the hasher. Nothing is claimed of the hasher.
#[verifier::external_body]
fn feed<H: std::hash::Hasher>(parts: &(u8, u64, String), state: &mut H) {
    std::hash::Hash::hash(parts, state)
}

impl std::hash::Hash for HashKey {
    fn hash<H: std::hash::Hasher>(&self, state: &mut H) {
        let parts = self.hash_parts();
        feed(&parts, state)
    }
}

impl HashKey {
    /// What the key is hashed by.
    pub fn hash_parts(&self) -> (r: (u8, u64, String))
        ensures
            r.0 == hash_class(*self).tag,
            r.1 == hash_class(*self).word,
            r.2@ == hash_class(*self).text,
    {
        match self {
            HashKey::Sym(id) => (0, *id as u64, String::new()),
            HashKey::Int(v) => (1, *v as u64, String::new()),
            HashKey::Float(bits) => match float_bits_to_i64_exact(*bits) {
                Some(v) => (1, v as u64, String::new()),
                None => (2, *bits, String::new()),
            },
            HashKey::Bool(v) => (
                3,
                if *v {
                    1
                } else {
                    0
                },
                String::new(),
            ),
            HashKey::Null => (4, 0, String::new()),
            HashKey::Undefined => (5, 0, String::new()),
            HashKey::Other(s) => (6, 0, s.clone()),
        }
    }

    /// The key of a name.
    pub fn from_string(table: &mut Interner, s: &str) -> (k: Self)
        ensures
            k == HashKey::Sym(old(table)@.id_of(s@)),
            final(table)@ == old(table)@.with(s@),
    {
        HashKey::Sym(intern(table, s))
    }

    /// The key of a name.
    pub fn from_owned_string(table: &mut Interner, s: String) -> (k: Self)
        ensures
            k == HashKey::Sym(old(table)@.id_of(s@)),
            final(table)@ == old(table)@.with(s@),
    {
        HashKey::Sym(intern(table, s.as_str()))
    }

    pub fn from_sym(id: u32) -> (k: Self)
        ensures
            k == HashKey::Sym(id),
    {
        HashKey::Sym(id)
    }

    pub fn from_int(v: i64) -> (k: Self)
        ensures
            k == HashKey::Int(v),
    {
        HashKey::Int(v)
    }

    /// The key of a double, given by its bit pattern.
    pub fn from_float(bits: u64) -> (k: Self)
        ensures
            k == HashKey::Float(canonical_bits(bits)),
            is_canonical(k),
    {
        proof {
            assert(0x7ff8_0000_0000_0000u64 as int / 0x10_0000_0000_0000 % 0x800 == 0x7ff);
        }
        HashKey::Float(canonical_float_bits(bits))
    }

    pub fn from_bool(v: bool) -> (k: Self)
        ensures
            k == HashKey::Bool(v),
    {
        HashKey::Bool(v)
    }

    /// The name of a key that is one.
    pub fn as_str_value(&self, table: &Interner) -> (r: Option<Rc<String>>)
        requires
            self matches HashKey::Sym(id) ==> id < table@.strings.len(),
        ensures
            match *self {
                HashKey::Sym(id) => r matches Some(s) && s@ == table@.strings[id as int],
                _ => r is None,
            },
    {
        match self {
            HashKey::Sym(id) => Some(resolve(table, *id)),
            _ => None,
        }
    }

    /// The text of a key. `float_text` is the decimal text of the double, for
    /// a key that holds one.
    pub fn display_key(&self, table: &Interner, float_text: &str) -> (r: String)
        requires
            self matches HashKey::Sym(id) ==> id < table@.strings.len(),
        ensures
            r@ == key_text(*self, table@.strings, float_text@),
    {
        match self {
            HashKey::Sym(id) => (*resolve(table, *id)).clone(),
            HashKey::Int(v) => to_signed_decimal(*v),
            HashKey::Float(_) => float_text.to_owned(),
            HashKey::Bool(v) => if *v {
                "true".to_owned()
            } else {
                "false".to_owned()
            },
            HashKey::Null => "null".to_owned(),
            HashKey::Undefined => "undefined".to_owned(),
            HashKey::Other(s) => s.clone(),
        }
    }

    /// The key as an array index. A name counts when it is an unsigned 32-bit
    /// number in decimal, with or without a plus sign.
    pub fn is_numeric_index(&self, table: &Interner) -> (r: Option<u32>)
        requires
            self matches HashKey::Sym(id) ==> id < table@.strings.len(),
        ensures
            r == numeric_index(*self, table@.strings),
    {
        match self {
            HashKey::Int(v) => if *v >= 0 {
                Some(*v as u32)
            } else {
                None
            },
            HashKey::Float(bits) => match float_bits_to_i64_exact(*bits) {
                Some(v) => if v >= 0 && v <= 0xffff_ffff {
                    Some(v as u32)
                } else {
                    None
                },
                None => None,
            },
            HashKey::Sym(id) => {
                let name = resolve(table, *id);
                parse_u32(name.as_str())
            },
            _ => None,
        }
    }

    /// A copy of the key.
    pub fn copy(&self) -> (k: Self)
        ensures
            k == *self,
    {
        match self {
            HashKey::Sym(id) => HashKey::Sym(*id),
            HashKey::Int(v) => HashKey::Int(*v),
            HashKey::Float(bits) => HashKey::Float(*bits),
            HashKey::Bool(v) => HashKey::Bool(*v),
            HashKey::Null => HashKey::Null,
            HashKey::Undefined => HashKey::Undefined,
            HashKey::Other(s) => HashKey::Other(s.clone()),
        }
    }
}

/// The text of a key, given the symbols and the text of its double.
pub open spec fn key_text(
    k: HashKey,
    strings: Seq<Seq<char>>,
    float_text: Seq<char>,
) -> Seq<char> {
    match k {
        HashKey::Sym(id) => strings[id as int],
        HashKey::Int(v) => signed_decimal(v as int),
        HashKey::Float(_) => float_text,
        HashKey::Bool(v) => if v {
            "true"@
        } else {
            "false"@
        },
        HashKey::Null => "null"@,
        HashKey::Undefined => "undefined"@,
        HashKey::Other(s) => s@,
    }
}

/// The value of a decimal digit.
pub open spec fn digit_value(c: char) -> Option<nat> {
    if '0' <= c <= '9' {
        Some((c as u32 - '0' as u32) as nat)
    } else {
        None
    }
}

/// The number that a run of decimal digits stands for.
pub open spec fn digits_value(s: Seq<char>) -> Option<nat>
    decreases s.len(),
{
    if s.len() == 0 {
        Some(0)
    } else {
        match (digits_value(s.drop_last()), digit_value(s.last())) {
            (Some(n), Some(d)) => Some(n * 10 + d),
            _ => None,
        }
    }
}

/// The 32-bit number that a string stands for: an optional plus sign, then at
/// least one decimal digit.
pub open spec fn parsed_u32(s: Seq<char>) -> Option<u32> {
    let digits = if s.len() > 0 && s[0] == '+' {
        s.skip(1)
    } else {
        s
    };
    match digits_value(digits) {
        Some(n) => if digits.len() > 0 && n <= 0xffff_ffff {
            Some(n as u32)
        } else {
            None
        },
        None => None,
    }
}

/// The array index that a key stands for.
pub open spec fn numeric_index(k: HashKey, strings: Seq<Seq<char>>) -> Option<u32> {
    match k {
        HashKey::Int(v) => if v >= 0 {
            Some(v as u32)
        } else {
            None
        },
        HashKey::Float(bits) => match exact_integer(bits) {
            Some(v) => if 0 <= v <= 0xffff_ffff {
                Some(v as u32)
            } else {
                None
            },
            None => None,
        },
        HashKey::Sym(id) => parsed_u32(strings[id as int]),
        _ => None,
    }
}

proof fn lemma_digits_value_grows(s: Seq<char>, n: int)
    requires
        0 <= n <= s.len(),
        digits_value(s) is Some,
    ensures
        digits_value(s.take(n)) is Some,
        digits_value(s.take(n))->0 <= digits_value(s)->0,
    decreases s.len() - n,
{
    if n == s.len() {
        assert(s.take(n) =~= s);
    } else {
        lemma_digits_value_grows(s, n + 1);
        assert(s.take(n + 1).drop_last() =~= s.take(n));
    }
}

/// Reads an unsigned 32-bit decimal number.
fn parse_u32(s: &str) -> (r: Option<u32>)
    ensures
        r == parsed_u32(s@),
{
    let n: usize = s.unicode_len();
    let start: usize = if n > 0 && s.get_char(0) == '+' {
        1
    } else {
        0
    };
    let ghost digits = if s@.len() > 0 && s@[0] == '+' {
        s@.skip(1)
    } else {
        s@
    };
    assert(s@.skip(0) =~= s@);
    if start == n {
        return None;
    }
    let mut total: u64 = 0;
    let mut i: usize = start;
    assert(digits.take(0) =~= Seq::empty());
    while i < n
        invariant
            start <= i <= n,
            start <= 1,
            n == s@.len(),
            digits == s@.skip(start as int),
            digits == (if s@.len() > 0 && s@[0] == '+' {
                s@.skip(1)
            } else {
                s@
            }),
            total <= 0xffff_ffff,
            digits_value(digits.take(i - start)) == Some(total as nat),
        decreases n - i,
    {
        let c = s.get_char(i);
        proof {
            let longer = digits.take(i - start + 1);
            assert(longer.drop_last() =~= digits.take(i - start));
            assert(longer.last() == c);
            if digits_value(digits) is Some {
                lemma_digits_value_grows(digits, i - start + 1);
            }
        }
        if !('0' <= c && c <= '9') {
            return None;
        }
        total = total * 10 + (c as u32 - '0' as u32) as u64;
        i += 1;
        if total > 0xffff_ffff {
            return None;
        }
    }
    assert(digits.take(n - start) =~= digits);
    Some(total as u32)
}

/// Sameness of keys does not depend on which is asked about which, and every
/// key is the same as itself.
pub proof fn law_same_key_symmetric(a: HashKey, b: HashKey)
    ensures
        same_key(a, b) == same_key(b, a),
        same_key(a, a),
{
}

/// Keys that are the same are hashed alike.
pub proof fn law_same_keys_hash_alike(a: HashKey, b: HashKey)
    requires
        same_key(a, b),
    ensures
        hash_class(a) == hash_class(b),
{
}

/// A double that stands for a positive integer `m`, scaled up so that nothing is
/// divided.
proof fn lemma_scaled(bits: u64, m: nat)
    requires
        integer_magnitude(bits) == Some(m),
        m > 0,
    ensures
        1023 <= exponent_of(bits) < 0x7ff,
        0x10_0000_0000_0000 <= 0x10_0000_0000_0000 + fraction_of(bits) < 0x20_0000_0000_0000,
        (0x10_0000_0000_0000 + fraction_of(bits)) * pow2(exponent_of(bits) as nat) == m * pow2(
            1075,
        ),
        m != 0x7fff_ffff_ffff_ffff,
{
    let e = exponent_of(bits);
    let significand = 0x10_0000_0000_0000 + fraction_of(bits);
    lemma2_to64();
    if e >= 1075 {
        let k = (e - 1075) as nat;
        lemma_pow2_adds(k, 1075);
        assert(significand * pow2(e as nat) == m * pow2(1075)) by (nonlinear_arith)
            requires
                m as int == significand * pow2(k),
                pow2(e as nat) == pow2(k) * pow2(1075),
        ;
        if m == 0x7fff_ffff_ffff_ffff {
            if k > 0 {
                lemma_pow2_unfold(k);
                let half = significand * pow2((k - 1) as nat);
                assert(m as int == 2 * half) by (nonlinear_arith)
                    requires
                        m as int == significand * pow2(k),
                        pow2(k) == 2 * pow2((k - 1) as nat),
                        half == significand * pow2((k - 1) as nat),
                ;
            } else {
                assert(pow2(k) == 1);
                assert(m as int == significand) by (nonlinear_arith)
                    requires
                        m as int == significand * pow2(k),
                        pow2(k) == 1,
                ;
            }
        }
    } else {
        let k = (1075 - e) as nat;
        lemma_pow2_pos(k);
        lemma_pow2_adds(e as nat, k);
        let p = pow2(k) as int;
        vstd::arithmetic::div_mod::lemma_fundamental_div_mod(significand, p);
        assert(significand == m * p) by (nonlinear_arith)
            requires
                significand == p * (significand / p) + significand % p,
                significand % p == 0,
                m as int == significand / p,
        ;
        assert(significand * pow2(e as nat) == m * pow2(1075)) by (nonlinear_arith)
            requires
                significand == m * p,
                pow2(e as nat) * p == pow2(1075),
        ;
        assert(m <= significand) by (nonlinear_arith)
            requires
                significand == m * p,
                p >= 1,
                m >= 0,
        ;
    }
}

/// Doubles that stand for the same positive integer have the same exponent and
/// fraction.
proof fn lemma_same_fields(a: u64, b: u64, m: nat)
    requires
        integer_magnitude(a) == Some(m),
        integer_magnitude(b) == Some(m),
        m > 0,
    ensures
        exponent_of(a) == exponent_of(b),
        fraction_of(a) == fraction_of(b),
{
    lemma_scaled(a, m);
    lemma_scaled(b, m);
    let x = 0x10_0000_0000_0000 + fraction_of(a);
    let y = 0x10_0000_0000_0000 + fraction_of(b);
    let ea = exponent_of(a) as nat;
    let eb = exponent_of(b) as nat;
    lemma_exponent_is_not_less(x, ea, y, eb);
    lemma_exponent_is_not_less(y, eb, x, ea);
    lemma_pow2_pos(ea);
    assert(x == y) by (nonlinear_arith)
        requires
            x * pow2(ea) == y * pow2(ea),
            pow2(ea) > 0,
    ;
}

proof fn lemma_exponent_is_not_less(x: int, ea: nat, y: int, eb: nat)
    requires
        x * pow2(ea) == y * pow2(eb),
        0 < x < 0x20_0000_0000_0000,
        y >= 0x10_0000_0000_0000,
    ensures
        ea >= eb,
{
    if ea < eb {
        let k = (eb - ea) as nat;
        lemma_pow2_adds(ea, k);
        lemma_pow2_pos(ea);
        lemma_pow2_unfold(k);
        lemma_pow2_pos((k - 1) as nat);
        let p = pow2(k) as int;
        assert(p >= 2);
        assert(x == y * p) by (nonlinear_arith)
            requires
                x * pow2(ea) == y * pow2(eb),
                pow2(eb) == pow2(ea) * p,
                pow2(ea) > 0,
        ;
        assert(x >= 0x20_0000_0000_0000) by (nonlinear_arith)
            requires
                x == y * p,
                p >= 2,
                y >= 0x10_0000_0000_0000,
        ;
    }
}

/// Doubles in canonical form that equal the same integer are the same.
proof fn lemma_exact_integer_is_injective(a: u64, b: u64, v: i64)
    requires
        exact_integer(a) == Some(v),
        exact_integer(b) == Some(v),
        canonical_bits(a) == a,
        canonical_bits(b) == b,
    ensures
        a == b,
{
    let ma = integer_magnitude(a)->0;
    let mb = integer_magnitude(b)->0;
    if ma > 0 {
        lemma_scaled(a, ma);
    }
    if mb > 0 {
        lemma_scaled(b, mb);
    }
    assert(ma == mb);
    if ma > 0 {
        assert(is_negative(a) == is_negative(b));
        lemma_same_fields(a, b, ma);
        assert(a == b);
    } else {
        if !is_zero(a) {
            lemma_magnitude_of_others(a);
        }
        if !is_zero(b) {
            lemma_magnitude_of_others(b);
        }
    }
}

/// Only zeros stand for zero.
proof fn lemma_magnitude_of_others(bits: u64)
    requires
        !is_zero(bits),
    ensures
        integer_magnitude(bits) != Some(0nat),
{
    let e = exponent_of(bits);
    let significand = 0x10_0000_0000_0000 + fraction_of(bits);
    if e >= 1023 && e != 0x7ff {
        if e >= 1075 {
            let k = (e - 1075) as nat;
            lemma_pow2_pos(k);
            assert(significand * pow2(k) > 0) by (nonlinear_arith)
                requires
                    significand > 0,
                    pow2(k) > 0,
            ;
        } else {
            let p = pow2((1075 - e) as nat) as int;
            lemma_pow2_pos((1075 - e) as nat);
            vstd::arithmetic::div_mod::lemma_fundamental_div_mod(significand, p);
            if significand % p == 0 && significand / p == 0 {
                assert(significand == 0) by (nonlinear_arith)
                    requires
                        significand == p * (significand / p) + significand % p,
                        significand % p == 0,
                        significand / p == 0,
                ;
            }
        }
    }
}

/// Keys in canonical form that are the same as a third are the same as each
/// other.
pub proof fn law_same_key_transitive(a: HashKey, b: HashKey, c: HashKey)
    requires
        is_canonical(a),
        is_canonical(b),
        is_canonical(c),
        same_key(a, b),
        same_key(b, c),
    ensures
        same_key(a, c),
{
    if let (HashKey::Float(x), HashKey::Int(v), HashKey::Float(y)) = (a, b, c) {
        lemma_exact_integer_is_injective(x, y, v);
    }
}

} // verus!
