//! An arbitrary-precision integer, modelling the host runtime's native
//! integer objects.  A value is a sign together with a big-endian magnitude
//! held as bytes; the canonical form has no leading zero byte and never a
//! negative zero.  Its mathematical view is an unbounded `int`, which is what
//! every contract in this crate speaks of.
use vstd::prelude::*;

verus! {

/// 256 raised to the power `n`: the weight of a byte at distance `n` from the
/// least significant end of a big-endian magnitude.
pub open spec fn pow256(n: nat) -> nat
    decreases n,
{
    if n == 0 {
        1
    } else {
        256 * pow256((n - 1) as nat)
    }
}

/// The value of a big-endian byte string.
pub open spec fn be_val(s: Seq<u8>) -> nat
    decreases s.len(),
{
    if s.len() == 0 {
        0
    } else {
        (be_val(s.drop_last()) * 256 + s.last()) as nat
    }
}

/// The big-endian byte string of a natural number, with no leading zero.
pub open spec fn be_digits(x: nat) -> Seq<u8>
    decreases x,
{
    if x == 0 {
        Seq::empty()
    } else {
        be_digits(x / 256).push((x % 256) as u8)
    }
}

pub proof fn lemma_pow256_unfold(n: nat)
    requires
        n > 0,
    ensures
        pow256(n) == 256 * pow256((n - 1) as nat),
{
}

/// The weight of the seventeenth byte is just past `u128`'s range.
pub proof fn lemma_pow256_16()
    ensures
        pow256(16) == 0x1_0000_0000_0000_0000_0000_0000_0000_0000,
{
    reveal_with_fuel(pow256, 17);
}

pub proof fn lemma_pow256_pos(n: nat)
    ensures
        pow256(n) >= 1,
    decreases n,
{
    if n > 0 {
        lemma_pow256_pos((n - 1) as nat);
    }
}

/// A magnitude of `n` bytes is below `256^n`.
pub proof fn lemma_be_val_upper(s: Seq<u8>)
    ensures
        be_val(s) < pow256(s.len()),
    decreases s.len(),
{
    if s.len() > 0 {
        lemma_be_val_upper(s.drop_last());
    }
}

/// A magnitude with a nonzero leading byte is at least `256^(n-1)`.
pub proof fn lemma_be_val_lower(s: Seq<u8>)
    requires
        s.len() > 0,
        s[0] != 0,
    ensures
        be_val(s) >= pow256((s.len() - 1) as nat),
    decreases s.len(),
{
    if s.len() == 1 {
        assert(be_val(s) == be_val(s.drop_last()) * 256 + s.last());
        assert(s.last() == s[0]);
    } else {
        assert(s.drop_last()[0] == s[0]);
        lemma_be_val_lower(s.drop_last());
    }
}

/// `be_digits` and `be_val` are inverse.
pub proof fn lemma_be_digits_val(x: nat)
    ensures
        be_val(be_digits(x)) == x,
        x > 0 ==> be_digits(x).len() > 0 && be_digits(x)[0] != 0,
    decreases x,
{
    if x > 0 {
        vstd::arithmetic::div_mod::lemma_div_decreases(x as int, 256);
        lemma_be_digits_val(x / 256);
        let s = be_digits(x);
        assert(s.drop_last() =~= be_digits(x / 256));
        vstd::arithmetic::div_mod::lemma_fundamental_div_mod(x as int, 256);
        if x / 256 > 0 {
            assert(s[0] == be_digits(x / 256)[0]);
        }
    }
}

/// An arbitrary-precision integer: sign and big-endian magnitude.
#[derive(Clone, Debug, PartialEq, Eq)]
pub struct PyLong {
    pub neg: bool,
    pub mag: Vec<u8>,
}

impl PyLong {
    /// Canonical form: no leading zero byte, and zero is never negative.
    pub open spec fn wf(self) -> bool {
        &&& (self.mag@.len() > 0 ==> self.mag@[0] != 0)
        &&& (self.neg ==> self.mag@.len() > 0)
    }

    /// The integer this value stands for.
    pub open spec fn value(self) -> int {
        if self.neg {
            -(be_val(self.mag@) as int)
        } else {
            be_val(self.mag@) as int
        }
    }

    proof fn lemma_neg_value(self)
        requires
            self.wf(),
            self.neg,
        ensures
            self.value() < 0,
    {
        lemma_be_val_lower(self.mag@);
        lemma_pow256_pos((self.mag@.len() - 1) as nat);
    }

    /// Build the canonical value of a non-negative number.
    pub fn from_u128(x: u128) -> (r: PyLong)
        ensures
            r.wf(),
            r.value() == x,
    {
        let mut mag: Vec<u8> = Vec::new();
        push_be_digits(x, &mut mag);
        proof {
            lemma_be_digits_val(x as nat);
        }
        PyLong { neg: false, mag }
    }

    /// Build the canonical value of any signed 128-bit number.
    pub fn from_i128(x: i128) -> (r: PyLong)
        ensures
            r.wf(),
            r.value() == x,
    {
        if x >= 0 {
            PyLong::from_u128(x as u128)
        } else {
            let m: u128 = if x == i128::MIN {
                0x8000_0000_0000_0000_0000_0000_0000_0000u128
            } else {
                (-x) as u128
            };
            let mut mag: Vec<u8> = Vec::new();
            push_be_digits(m, &mut mag);
            proof {
                lemma_be_digits_val(m as nat);
            }
            PyLong { neg: true, mag }
        }
    }

    /// The magnitude as a `u128`; callable only when it fits.
    fn mag_as_u128(&self) -> (r: u128)
        requires
            self.mag@.len() <= 16,
        ensures
            r == be_val(self.mag@),
    {
        let mut acc: u128 = 0;
        let mut i: usize = 0;
        proof {
            assert(self.mag@.take(0) =~= Seq::empty());
        }
        while i < self.mag.len()
            invariant
                i <= self.mag@.len() <= 16,
                acc == be_val(self.mag@.take(i as int)),
            decreases self.mag@.len() - i,
        {
            proof {
                lemma_be_val_upper(self.mag@.take(i as int));
                lemma_pow256_mono(i as nat, 15);
                lemma_pow256_16();
                assert(acc * 256 + 255 < 256 * pow256(i as nat));
                lemma_pow256_mono((i + 1) as nat, 16);
                assert(self.mag@.take(i + 1).drop_last() =~= self.mag@.take(i as int));
            }
            acc = acc * 256 + (self.mag[i] as u128);
            i = i + 1;
        }
        proof {
            assert(self.mag@.take(self.mag@.len() as int) =~= self.mag@);
        }
        acc
    }

    /// The value as a `u128`, exactly when it lies in `u128`'s range.
    pub fn try_to_u128(&self) -> (r: Option<u128>)
        requires
            self.wf(),
        ensures
            match r {
                Some(x) => self.value() == x,
                None => self.value() < 0 || self.value() > u128::MAX,
            },
    {
        if self.neg {
            proof {
                self.lemma_neg_value();
            }
            None
        } else if self.mag.len() > 16 {
            proof {
                lemma_be_val_lower(self.mag@);
                lemma_pow256_mono(16, (self.mag@.len() - 1) as nat);
                lemma_pow256_16();
            }
            None
        } else {
            proof {
                lemma_be_val_upper(self.mag@);
                lemma_pow256_mono(self.mag@.len(), 16);
                lemma_pow256_16();
            }
            Some(self.mag_as_u128())
        }
    }

    /// The value as an `i128`, exactly when it lies in `i128`'s range.
    pub fn try_to_i128(&self) -> (r: Option<i128>)
        requires
            self.wf(),
        ensures
            match r {
                Some(x) => self.value() == x,
                None => self.value() < i128::MIN || self.value() > i128::MAX,
            },
    {
        if self.mag.len() > 16 {
            proof {
                lemma_be_val_lower(self.mag@);
                lemma_pow256_mono(16, (self.mag@.len() - 1) as nat);
                lemma_pow256_16();
            }
            None
        } else {
            let m = self.mag_as_u128();
            if !self.neg {
                if m <= i128::MAX as u128 {
                    Some(m as i128)
                } else {
                    None
                }
            } else {
                if m < 0x8000_0000_0000_0000_0000_0000_0000_0000u128 {
                    Some(-(m as i128))
                } else if m == 0x8000_0000_0000_0000_0000_0000_0000_0000u128 {
                    Some(i128::MIN)
                } else {
                    None
                }
            }
        }
    }

    /// Whether the value is zero.
    pub fn is_zero(&self) -> (r: bool)
        requires
            self.wf(),
        ensures
            r == (self.value() == 0),
    {
        proof {
            if self.mag@.len() > 0 {
                lemma_be_val_lower(self.mag@);
                lemma_pow256_pos((self.mag@.len() - 1) as nat);
            }
        }
        self.mag.len() == 0
    }
}

pub proof fn lemma_pow256_mono(m: nat, n: nat)
    requires
        m <= n,
    ensures
        pow256(m) <= pow256(n),
    decreases n,
{
    if m < n {
        lemma_pow256_mono(m, (n - 1) as nat);
        lemma_pow256_pos((n - 1) as nat);
    }
}

/// Append the big-endian digits of `x` to `mag`.
fn push_be_digits(x: u128, mag: &mut Vec<u8>)
    ensures
        final(mag)@ == old(mag)@ + be_digits(x as nat),
    decreases x,
{
    if x != 0 {
        proof {
            vstd::arithmetic::div_mod::lemma_div_decreases(x as int, 256);
        }
        push_be_digits(x / 256, mag);
        mag.push((x % 256) as u8);
        proof {
            assert(final(mag)@ =~= old(mag)@ + be_digits(x as nat));
        }
    } else {
        proof {
            assert(final(mag)@ =~= old(mag)@ + be_digits(0));
        }
    }
}

} // verus!
