use vstd::prelude::*;

use crate::conf::{RESPONSE_SPEED, TERMINATOR_LINE};
use crate::parse::{format_converter, parse_field};

verus! {

/// Wireless speed class S1..S8: the higher the class, the higher the air
/// data rate and the shorter the range.
#[derive(Debug, Clone, Copy, PartialEq, Eq, Structural)]
pub enum Speed {
    /// Speed class 1.
    S1,
    /// Speed class 2.
    S2,
    /// Speed class 3.
    S3,
    /// Speed class 4.
    S4,
    /// Speed class 5.
    S5,
    /// Speed class 6.
    S6,
    /// Speed class 7.
    S7,
    /// Speed class 8.
    S8,
}

impl Speed {
    /// The class number, 1 to 8.
    pub open spec fn class(self) -> int {
        match self {
            Speed::S1 => 1,
            Speed::S2 => 2,
            Speed::S3 => 3,
            Speed::S4 => 4,
            Speed::S5 => 5,
            Speed::S6 => 6,
            Speed::S7 => 7,
            Speed::S8 => 8,
        }
    }

    /// The speed class with the given number, if there is one.
    pub open spec fn from_class(n: int) -> Option<Speed> {
        if n == 1 {
            Some(Speed::S1)
        } else if n == 2 {
            Some(Speed::S2)
        } else if n == 3 {
            Some(Speed::S3)
        } else if n == 4 {
            Some(Speed::S4)
        } else if n == 5 {
            Some(Speed::S5)
        } else if n == 6 {
            Some(Speed::S6)
        } else if n == 7 {
            Some(Speed::S7)
        } else if n == 8 {
            Some(Speed::S8)
        } else {
            None
        }
    }

    /// The speed class that an `OK+S:<n>\r\n` reply carries.
    pub open spec fn from_reply(v: Seq<u8>) -> Option<Speed> {
        match parse_field(v, RESPONSE_SPEED@, TERMINATOR_LINE@) {
            Some(n) => Speed::from_class(n),
            None => None,
        }
    }

    /// Receive sensitivity in tenths of a dBm.
    pub open spec fn sensitivity_tenth_dbm(self) -> int {
        match self {
            Speed::S1 => -1400,
            Speed::S2 => -1375,
            Speed::S3 => -1350,
            Speed::S4 => -1325,
            Speed::S5 => -1300,
            Speed::S6 => -1275,
            Speed::S7 => -1245,
            Speed::S8 => -1215,
        }
    }

    /// Largest payload of a single packet, in bytes.
    pub open spec fn max_bytes(self) -> int {
        match self {
            Speed::S1 | Speed::S2 => 40,
            Speed::S3 | Speed::S4 => 80,
            Speed::S5 | Speed::S6 => 160,
            Speed::S7 | Speed::S8 => 250,
        }
    }

    /// The speed class numbered `ch`, or `None` outside 1..=8.
    pub fn new(ch: u8) -> (r: Option<Self>)
        ensures
            r == Speed::from_class(ch as int),
            r is Some <==> 1 <= ch <= 8,
            r matches Some(s) ==> s.class() == ch,
    {
        match ch {
            1 => Some(Speed::S1),
            2 => Some(Speed::S2),
            3 => Some(Speed::S3),
            4 => Some(Speed::S4),
            5 => Some(Speed::S5),
            6 => Some(Speed::S6),
            7 => Some(Speed::S7),
            8 => Some(Speed::S8),
            _ => None,
        }
    }

    /// Receive sensitivity of this class in tenths of a dBm (-1400 is -140.0 dBm).
    pub fn get_wireless_sensitivity_tenth_dbm(&self) -> (r: i32)
        ensures
            r == self.sensitivity_tenth_dbm(),
    {
        match self {
            Speed::S1 => -1400,
            Speed::S2 => -1375,
            Speed::S3 => -1350,
            Speed::S4 => -1325,
            Speed::S5 => -1300,
            Speed::S6 => -1275,
            Speed::S7 => -1245,
            Speed::S8 => -1215,
        }
    }

    /// Largest payload of a single packet in this class, in bytes.
    pub fn get_max_bytes_size(&self) -> (r: usize)
        ensures
            r == self.max_bytes(),
    {
        match self {
            Speed::S1 | Speed::S2 => 40,
            Speed::S3 | Speed::S4 => 80,
            Speed::S5 | Speed::S6 => 160,
            Speed::S7 | Speed::S8 => 250,
        }
    }

    /// Reads the speed class from an `OK+S:<n>\r\n` reply; fails unless the
    /// reply parses and `n` lies in 1..=8.
    pub fn from_response(value: &[u8]) -> (r: Result<Self, ()>)
        ensures
            match r {
                Ok(s) => Speed::from_reply(value@) == Some(s),
                Err(_) => Speed::from_reply(value@) is None,
            },
    {
        assert(RESPONSE_SPEED@.len() == 5);
        match format_converter(value, &RESPONSE_SPEED) {
            Ok(1) => Ok(Speed::S1),
            Ok(2) => Ok(Speed::S2),
            Ok(3) => Ok(Speed::S3),
            Ok(4) => Ok(Speed::S4),
            Ok(5) => Ok(Speed::S5),
            Ok(6) => Ok(Speed::S6),
            Ok(7) => Ok(Speed::S7),
            Ok(8) => Ok(Speed::S8),
            _ => Err(()),
        }
    }
}

impl Default for Speed {
    /// The factory default, S3.
    fn default() -> (r: Self)
        ensures
            r == Speed::S3,
    {
        Speed::S3
    }
}

impl<'a> TryFrom<&'a [u8]> for Speed {
    type Error = ();

    /// Reads the speed class from an `OK+S:<n>\r\n` reply.
    fn try_from(value: &'a [u8]) -> Result<Self, ()> {
        match Speed::from_response(value) {
            Ok(x) => Ok(x),
            Err(_) => Err(()),
        }
    }
}

impl<'a> vstd::std_specs::convert::TryFromSpecImpl<&'a [u8]> for Speed {
    open spec fn obeys_try_from_spec() -> bool {
        true
    }

    open spec fn try_from_spec(v: &'a [u8]) -> Result<Self, ()> {
        match Speed::from_reply(v@) {
            Some(s) => Ok(s),
            None => Err(()),
        }
    }
}

} // verus!
