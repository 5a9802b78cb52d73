//! Lengths of time, with the precision of a second and its nanoseconds.

use vstd::prelude::*;
use vstd::arithmetic::div_mod::lemma_fundamental_div_mod_converse;

verus! {

/// Nanoseconds in one second.
pub open spec fn nanos_per_sec() -> nat {
    1_000_000_000
}

/// A span of time: whole seconds and the nanoseconds beyond them.
#[derive(Clone, Copy, Debug, PartialEq, Eq, Structural)]
pub struct Duration {
    secs: u64,
    nanos: u32,
}

impl View for Duration {
    type V = nat;

    /// The span in nanoseconds.
    closed spec fn view(&self) -> nat {
        self.secs as nat * nanos_per_sec() + self.nanos as nat
    }
}

impl Duration {
    #[verifier::type_invariant]
    spec fn inv(self) -> bool {
        self.nanos < 1_000_000_000
    }

    /// The empty span.
    pub fn zero() -> (d: Duration)
        ensures
            d@ == 0,
    {
        Duration { secs: 0, nanos: 0 }
    }

    /// `secs` seconds plus `nanos` nanoseconds; nanoseconds beyond a second carry
    /// into the seconds.
    pub fn new(secs: u64, nanos: u32) -> (d: Duration)
        requires
            secs + nanos / 1_000_000_000 <= u64::MAX,
        ensures
            d@ == secs * nanos_per_sec() + nanos,
    {
        let carry = (nanos / 1_000_000_000) as u64;
        let rest = nanos % 1_000_000_000;
        proof {
            lemma_fundamental_div_mod_converse(
                nanos as int,
                1_000_000_000,
                carry as int,
                rest as int,
            );
        }
        Duration { secs: secs + carry, nanos: rest }
    }

    /// A span of whole seconds.
    pub fn from_secs(secs: u64) -> (d: Duration)
        ensures
            d@ == secs * nanos_per_sec(),
    {
        Duration { secs, nanos: 0 }
    }

    /// The whole seconds in the span.
    pub fn as_secs(&self) -> (s: u64)
        ensures
            s == self@ / nanos_per_sec(),
    {
        proof {
            use_type_invariant(self);
            lemma_fundamental_div_mod_converse(
                self@ as int,
                1_000_000_000,
                self.secs as int,
                self.nanos as int,
            );
        }
        self.secs
    }

    /// The nanoseconds beyond the whole seconds.
    pub fn subsec_nanos(&self) -> (n: u32)
        ensures
            n == self@ % nanos_per_sec(),
    {
        proof {
            use_type_invariant(self);
            lemma_fundamental_div_mod_converse(
                self@ as int,
                1_000_000_000,
                self.secs as int,
                self.nanos as int,
            );
        }
        self.nanos
    }
}


} // verus!
