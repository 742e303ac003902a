//! A span of time used as the pause between two attempts of a request.
use vstd::prelude::*;

verus! {

/// The largest number of nanoseconds a delay can hold: that of the longest
/// `std::time::Duration` (`u64::MAX` seconds and 999 999 999 nanoseconds).
pub open spec fn max_delay_nanos() -> nat {
    18446744073709551615nat * 1000000000nat + 999999999nat
}

/// A span of time, held as a number of nanoseconds. It holds exactly the
/// values a `std::time::Duration` holds.
#[derive(Clone, Copy, Debug, PartialEq, Eq)]
pub struct Delay {
    nanos: u128,
}

impl View for Delay {
    type V = nat;

    closed spec fn view(&self) -> nat {
        self.nanos as nat
    }
}

impl Delay {
    #[verifier::type_invariant]
    closed spec fn fits(self) -> bool {
        self.nanos <= max_delay_nanos()
    }

    /// A delay of `secs` seconds.
    pub fn from_secs(secs: u64) -> (d: Delay)
        ensures
            d@ == secs * 1000000000,
    {
        let s: u128 = secs as u128;
        assert(s * 1000000000 <= 18446744073709551615nat * 1000000000nat) by (nonlinear_arith)
            requires
                s <= 18446744073709551615u128,
        ;
        Delay { nanos: s * 1000000000 }
    }

    /// A delay of `secs` seconds and `nanos` nanoseconds; whole seconds in
    /// `nanos` are carried into the seconds. The seconds must not overflow
    /// (where `Duration::new` panics).
    pub fn new(secs: u64, nanos: u32) -> (d: Delay)
        requires
            secs + nanos / 1000000000 <= u64::MAX,
        ensures
            d@ == secs * 1000000000 + nanos,
    {
        let s: u128 = secs as u128;
        let n: u128 = nanos as u128;
        assert(s * 1000000000 + n <= 18446744073709551615nat * 1000000000nat + 999999999nat)
            by (nonlinear_arith)
            requires
                s + n / 1000000000 <= 18446744073709551615u128,
                n <= 4294967295u128,
        {
            assert(n == (n / 1000000000) * 1000000000 + n % 1000000000);
        }
        Delay { nanos: s * 1000000000 + n }
    }

    /// A delay of `millis` milliseconds.
    pub fn from_millis(millis: u64) -> (d: Delay)
        ensures
            d@ == millis * 1000000,
    {
        let m: u128 = millis as u128;
        assert(m * 1000000 <= 18446744073709551615nat * 1000000000nat) by (nonlinear_arith)
            requires
                m <= 18446744073709551615u128,
        ;
        Delay { nanos: m * 1000000 }
    }

    /// A delay of `nanos` nanoseconds.
    pub fn from_nanos(nanos: u64) -> (d: Delay)
        ensures
            d@ == nanos,
    {
        Delay { nanos: nanos as u128 }
    }

    /// The number of whole seconds in the delay.
    pub fn as_secs(&self) -> (s: u64)
        ensures
            s == self@ / 1000000000,
    {
        proof {
            use_type_invariant(self);
        }
        let s: u128 = self.nanos / 1000000000;
        assert(s <= 18446744073709551615u128) by (nonlinear_arith)
            requires
                s == self.nanos / 1000000000,
                self.nanos <= 18446744073709551615nat * 1000000000nat + 999999999nat,
        ;
        s as u64
    }

    /// The nanoseconds past the whole seconds of the delay.
    pub fn subsec_nanos(&self) -> (n: u32)
        ensures
            n == self@ % 1000000000,
    {
        (self.nanos % 1000000000) as u32
    }

    /// The whole delay in nanoseconds.
    pub fn as_nanos(&self) -> (n: u128)
        ensures
            n == self@,
            n <= max_delay_nanos(),
    {
        proof {
            use_type_invariant(self);
        }
        self.nanos
    }

    /// The delay multiplied by `factor`, or `None` where no delay can hold
    /// the product (where `Duration * u32` panics).
    pub fn checked_mul(&self, factor: u32) -> (r: Option<Delay>)
        ensures
            r is Some <==> self@ * factor <= max_delay_nanos(),
            r matches Some(d) ==> d@ == self@ * factor,
    {
        proof {
            use_type_invariant(self);
        }
        let f: u128 = factor as u128;
        assert(self.nanos * f <= 340282366920938463463374607431768211455u128) by (nonlinear_arith)
            requires
                self.nanos <= 18446744073709551615nat * 1000000000nat + 999999999nat,
                f <= 4294967295u128,
        ;
        let p: u128 = self.nanos * f;
        if p <= 18446744073709551615999999999u128 {
            Some(Delay { nanos: p })
        } else {
            None
        }
    }
}

} // verus!
