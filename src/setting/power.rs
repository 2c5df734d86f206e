use vstd::prelude::*;

use crate::conf::{RESPONSE_POWER, TERMINATOR_POWER};
use crate::parse::{format_converter, parse_field};

verus! {

/// Transmission power in dBm, 6 to 20.
#[derive(Debug, Clone, Copy, PartialEq, Eq, Structural)]
pub struct TransmissionPower(u8);

impl TransmissionPower {
    #[verifier::type_invariant]
    spec fn in_range(self) -> bool {
        6 <= self.0 && self.0 <= 20
    }

    /// The power in dBm.
    pub closed spec fn dbm(self) -> int {
        self.0 as int
    }

    /// The value whose dbm is `n`, for `n` in 6..=20.
    pub closed spec fn from_dbm(n: int) -> TransmissionPower {
        TransmissionPower(n as u8)
    }

    /// `TransmissionPower::from_dbm(n)` has dbm `n`.
    pub proof fn lemma_from_dbm(n: int)
        requires
            6 <= n <= 20,
        ensures
            TransmissionPower::from_dbm(n).dbm() == n,
    {
    }

    /// The power that an `OK+P:+<n>dBm\r\n` reply carries, in dBm.
    pub open spec fn from_reply(v: Seq<u8>) -> Option<int> {
        match parse_field(v, RESPONSE_POWER@, TERMINATOR_POWER@) {
            Some(n) => if 6 <= n <= 20 {
                Some(n)
            } else {
                None
            },
            None => None,
        }
    }

    /// The power of `dbm` dBm, or `None` outside 6..=20.
    pub fn new(dbm: u8) -> (r: Option<Self>)
        ensures
            r is Some <==> 6 <= dbm <= 20,
            r matches Some(p) ==> p.dbm() == dbm,
    {
        if dbm <= 5 || dbm >= 21 {
            None
        } else {
            Some(TransmissionPower(dbm))
        }
    }

    /// The power in dBm.
    pub fn get_power_dbm(&self) -> (r: u8)
        ensures
            r == self.dbm(),
            6 <= r <= 20,
    {
        proof {
            use_type_invariant(self);
        }
        self.0
    }

    /// Reads the power from an `OK+P:+<n>dBm\r\n` reply; fails unless the
    /// reply parses and `n` lies in 6..=20.
    pub fn from_response(value: &[u8]) -> (r: Result<Self, ()>)
        ensures
            match r {
                Ok(p) => TransmissionPower::from_reply(value@) == Some(p.dbm()) && p
                    == TransmissionPower::from_dbm(p.dbm()),
                Err(_) => TransmissionPower::from_reply(value@) is None,
            },
    {
        match format_converter(value, &RESPONSE_POWER) {
            Ok(n) => if 6 <= n && n <= 20 {
                Ok(TransmissionPower(n as u8))
            } else {
                Err(())
            },
            Err(_) => Err(()),
        }
    }
}

impl Default for TransmissionPower {
    /// The factory default, 20 dBm (longest range).
    fn default() -> (r: Self)
        ensures
            r.dbm() == 20,
    {
        TransmissionPower(20)
    }
}

impl<'a> TryFrom<&'a [u8]> for TransmissionPower {
    type Error = ();

    /// Reads the power from an `OK+P:+<n>dBm\r\n` reply.
    fn try_from(value: &'a [u8]) -> Result<Self, ()> {
        match TransmissionPower::from_response(value) {
            Ok(x) => Ok(x),
            Err(_) => Err(()),
        }
    }
}

impl<'a> vstd::std_specs::convert::TryFromSpecImpl<&'a [u8]> for TransmissionPower {
    open spec fn obeys_try_from_spec() -> bool {
        true
    }

    open spec fn try_from_spec(v: &'a [u8]) -> Result<Self, ()> {
        match TransmissionPower::from_reply(v@) {
            Some(n) => Ok(TransmissionPower::from_dbm(n)),
            None => Err(()),
        }
    }
}

} // verus!
