use vstd::prelude::*;

use super::parameters::Parameters;
use super::speed::Speed;
use crate::conf::{RESPONSE_BAUD, TERMINATOR_LINE};
use crate::parse::{format_converter, parse_field};
use crate::Error;

verus! {

/// Serial baud rate of the module.
#[derive(Debug, Clone, Copy, PartialEq, Eq, Structural)]
pub enum BaudRate {
    /// 1200 bauds per second.
    Bps1200,
    /// 2400 bauds per second.
    Bps2400,
    /// 4800 bauds per second.
    Bps4800,
    /// 9600 bauds per second.
    Bps9600,
    /// 19200 bauds per second.
    Bps19200,
    /// 38400 bauds per second.
    Bps38400,
    /// 57600 bauds per second.
    Bps57600,
    /// 115200 bauds per second.
    Bps115200,
}

/// Over-the-air bit rate, set by the speed class and the serial baud rate.
#[derive(Debug, Clone, Copy, PartialEq, Eq, Structural)]
pub enum AirBaudRate {
    /// 500 bauds per second (speed class S4).
    Bps500,
    /// 5000 bauds per second.
    Bps5000,
    /// 15000 bauds per second.
    Bps15000,
    /// 58000 bauds per second.
    Bps58000,
    /// 236000 bauds per second.
    Bps236000,
    /// 250000 bauds per second.
    Bps250000,
}

impl BaudRate {
    /// Bauds per second.
    pub open spec fn bps(self) -> int {
        match self {
            BaudRate::Bps1200 => 1200,
            BaudRate::Bps2400 => 2400,
            BaudRate::Bps4800 => 4800,
            BaudRate::Bps9600 => 9600,
            BaudRate::Bps19200 => 19200,
            BaudRate::Bps38400 => 38400,
            BaudRate::Bps57600 => 57600,
            BaudRate::Bps115200 => 115200,
        }
    }

    /// The baud rate of `n` bauds per second, if the module supports it.
    pub open spec fn from_bps(n: int) -> Option<BaudRate> {
        if n == 1200 {
            Some(BaudRate::Bps1200)
        } else if n == 2400 {
            Some(BaudRate::Bps2400)
        } else if n == 4800 {
            Some(BaudRate::Bps4800)
        } else if n == 9600 {
            Some(BaudRate::Bps9600)
        } else if n == 19200 {
            Some(BaudRate::Bps19200)
        } else if n == 38400 {
            Some(BaudRate::Bps38400)
        } else if n == 57600 {
            Some(BaudRate::Bps57600)
        } else if n == 115200 {
            Some(BaudRate::Bps115200)
        } else {
            None
        }
    }

    /// The baud rate that an `OK+B:<n>\r\n` reply carries.
    pub open spec fn from_reply(v: Seq<u8>) -> Option<BaudRate> {
        match parse_field(v, RESPONSE_BAUD@, TERMINATOR_LINE@) {
            Some(n) => BaudRate::from_bps(n),
            None => None,
        }
    }

    /// Bauds per second.
    pub fn to_u32(&self) -> (r: u32)
        ensures
            r == self.bps(),
    {
        match self {
            BaudRate::Bps1200 => 1200,
            BaudRate::Bps2400 => 2400,
            BaudRate::Bps4800 => 4800,
            BaudRate::Bps9600 => 9600,
            BaudRate::Bps19200 => 19200,
            BaudRate::Bps38400 => 38400,
            BaudRate::Bps57600 => 57600,
            BaudRate::Bps115200 => 115200,
        }
    }

    /// The baud rate of `value` bauds per second, or `None` when the module
    /// does not support that rate.
    pub fn from_u32(value: u32) -> (r: Option<Self>)
        ensures
            r == BaudRate::from_bps(value as int),
            r matches Some(b) ==> b.bps() == value,
    {
        match value {
            1200 => Some(BaudRate::Bps1200),
            2400 => Some(BaudRate::Bps2400),
            4800 => Some(BaudRate::Bps4800),
            9600 => Some(BaudRate::Bps9600),
            19200 => Some(BaudRate::Bps19200),
            38400 => Some(BaudRate::Bps38400),
            57600 => Some(BaudRate::Bps57600),
            115200 => Some(BaudRate::Bps115200),
            _ => None,
        }
    }

    /// Reads the baud rate from an `OK+B:<n>\r\n` reply; fails unless the
    /// reply parses and `n` is one of the eight supported rates.
    pub fn from_response(value: &[u8]) -> (r: Result<Self, ()>)
        ensures
            match r {
                Ok(b) => BaudRate::from_reply(value@) == Some(b),
                Err(_) => BaudRate::from_reply(value@) is None,
            },
    {
        assert(RESPONSE_BAUD@.len() == 5);
        match format_converter(value, &RESPONSE_BAUD) {
            Ok(1200) => Ok(BaudRate::Bps1200),
            Ok(2400) => Ok(BaudRate::Bps2400),
            Ok(4800) => Ok(BaudRate::Bps4800),
            Ok(9600) => Ok(BaudRate::Bps9600),
            Ok(19200) => Ok(BaudRate::Bps19200),
            Ok(38400) => Ok(BaudRate::Bps38400),
            Ok(57600) => Ok(BaudRate::Bps57600),
            Ok(115200) => Ok(BaudRate::Bps115200),
            _ => Err(()),
        }
    }
}

impl Default for BaudRate {
    /// The factory default, 9600 bauds per second.
    fn default() -> (r: Self)
        ensures
            r == BaudRate::Bps9600,
    {
        BaudRate::Bps9600
    }
}

/// Whether the module accepts serial baud rate `b` in speed class `s`.
pub open spec fn baud_allowed(s: Speed, b: BaudRate) -> bool {
    match s {
        Speed::S1 => true,
        Speed::S2 => b == BaudRate::Bps1200 || b == BaudRate::Bps2400 || b == BaudRate::Bps4800,
        Speed::S3 => b == BaudRate::Bps2400 || b == BaudRate::Bps4800 || b == BaudRate::Bps9600,
        Speed::S4 => b == BaudRate::Bps1200,
        Speed::S5 => b == BaudRate::Bps4800 || b == BaudRate::Bps9600 || b == BaudRate::Bps19200,
        Speed::S6 => b == BaudRate::Bps9600 || b == BaudRate::Bps19200 || b == BaudRate::Bps38400,
        Speed::S7 => b == BaudRate::Bps19200 || b == BaudRate::Bps38400 || b
            == BaudRate::Bps57600,
        Speed::S8 => b == BaudRate::Bps38400 || b == BaudRate::Bps57600 || b
            == BaudRate::Bps115200,
    }
}

/// The air bit rate of speed class `s` at serial baud rate `b`.
pub open spec fn air_baud(s: Speed, b: BaudRate) -> AirBaudRate {
    match s {
        Speed::S1 | Speed::S2 => AirBaudRate::Bps250000,
        Speed::S3 => match b {
            BaudRate::Bps1200 | BaudRate::Bps2400 => AirBaudRate::Bps5000,
            BaudRate::Bps4800 | BaudRate::Bps9600 => AirBaudRate::Bps15000,
            BaudRate::Bps19200 | BaudRate::Bps38400 => AirBaudRate::Bps58000,
            BaudRate::Bps57600 | BaudRate::Bps115200 => AirBaudRate::Bps236000,
        },
        Speed::S4 => AirBaudRate::Bps500,
        Speed::S5 => if b == BaudRate::Bps19200 {
            AirBaudRate::Bps58000
        } else {
            AirBaudRate::Bps15000
        },
        Speed::S6 => if b == BaudRate::Bps19200 || b == BaudRate::Bps38400 {
            AirBaudRate::Bps58000
        } else {
            AirBaudRate::Bps15000
        },
        Speed::S7 => if b == BaudRate::Bps57600 {
            AirBaudRate::Bps236000
        } else {
            AirBaudRate::Bps58000
        },
        Speed::S8 => if b == BaudRate::Bps57600 || b == BaudRate::Bps115200 {
            AirBaudRate::Bps236000
        } else {
            AirBaudRate::Bps58000
        },
    }
}

impl Parameters {
    /// Sets the serial baud rate if the current speed class accepts it;
    /// otherwise fails with `InvalidBaudRate` and changes nothing.
    pub fn set_baud(&mut self, rate: BaudRate) -> (r: Result<(), Error>)
        ensures
            r is Ok <==> baud_allowed(old(self).speed, rate),
            r matches Err(e) ==> e == Error::InvalidBaudRate,
            final(self).baud == (if r is Ok {
                rate
            } else {
                old(self).baud
            }),
            final(self).channel == old(self).channel,
            final(self).power == old(self).power,
            final(self).speed == old(self).speed,
    {
        let allowed = match self.speed {
            Speed::S1 => true,
            Speed::S2 => match rate {
                BaudRate::Bps1200 | BaudRate::Bps2400 | BaudRate::Bps4800 => true,
                _ => false,
            },
            Speed::S3 => match rate {
                BaudRate::Bps2400 | BaudRate::Bps4800 | BaudRate::Bps9600 => true,
                _ => false,
            },
            Speed::S4 => match rate {
                BaudRate::Bps1200 => true,
                _ => false,
            },
            Speed::S5 => match rate {
                BaudRate::Bps4800 | BaudRate::Bps9600 | BaudRate::Bps19200 => true,
                _ => false,
            },
            Speed::S6 => match rate {
                BaudRate::Bps9600 | BaudRate::Bps19200 | BaudRate::Bps38400 => true,
                _ => false,
            },
            Speed::S7 => match rate {
                BaudRate::Bps19200 | BaudRate::Bps38400 | BaudRate::Bps57600 => true,
                _ => false,
            },
            Speed::S8 => match rate {
                BaudRate::Bps38400 | BaudRate::Bps57600 | BaudRate::Bps115200 => true,
                _ => false,
            },
        };
        if allowed {
            self.baud = rate;
            Ok(())
        } else {
            Err(Error::InvalidBaudRate)
        }
    }

    /// The air bit rate that the current speed class and baud rate give.
    pub fn get_air_baud(&self) -> (r: AirBaudRate)
        ensures
            r == air_baud(self.speed, self.baud),
    {
        match self.speed {
            Speed::S1 => AirBaudRate::Bps250000,
            Speed::S2 => AirBaudRate::Bps250000,
            Speed::S3 => match self.baud {
                BaudRate::Bps1200 => AirBaudRate::Bps5000,
                BaudRate::Bps2400 => AirBaudRate::Bps5000,
                BaudRate::Bps4800 => AirBaudRate::Bps15000,
                BaudRate::Bps9600 => AirBaudRate::Bps15000,
                BaudRate::Bps19200 => AirBaudRate::Bps58000,
                BaudRate::Bps38400 => AirBaudRate::Bps58000,
                BaudRate::Bps57600 => AirBaudRate::Bps236000,
                BaudRate::Bps115200 => AirBaudRate::Bps236000,
            },
            Speed::S4 => AirBaudRate::Bps500,
            Speed::S5 => match self.baud {
                BaudRate::Bps19200 => AirBaudRate::Bps58000,
                _ => AirBaudRate::Bps15000,
            },
            Speed::S6 => match self.baud {
                BaudRate::Bps19200 => AirBaudRate::Bps58000,
                BaudRate::Bps38400 => AirBaudRate::Bps58000,
                _ => AirBaudRate::Bps15000,
            },
            Speed::S7 => match self.baud {
                BaudRate::Bps57600 => AirBaudRate::Bps236000,
                _ => AirBaudRate::Bps58000,
            },
            Speed::S8 => match self.baud {
                BaudRate::Bps57600 => AirBaudRate::Bps236000,
                BaudRate::Bps115200 => AirBaudRate::Bps236000,
                _ => AirBaudRate::Bps58000,
            },
        }
    }
}

impl AirBaudRate {
    /// Receive sensitivity at this air rate, in dBm.
    pub open spec fn sensitivity_dbm(self) -> int {
        match self {
            AirBaudRate::Bps500 => -124,
            AirBaudRate::Bps5000 => -116,
            AirBaudRate::Bps15000 => -111,
            AirBaudRate::Bps58000 => -106,
            AirBaudRate::Bps236000 => -100,
            AirBaudRate::Bps250000 => -100,
        }
    }

    /// Receive sensitivity at this air rate, in dBm. Every 6 dBm less
    /// sensitivity halves the range.
    pub fn get_wireless_sensitivity_dbm(&self) -> (r: i32)
        ensures
            r == self.sensitivity_dbm(),
    {
        match self {
            AirBaudRate::Bps500 => -124,
            AirBaudRate::Bps5000 => -116,
            AirBaudRate::Bps15000 => -111,
            AirBaudRate::Bps58000 => -106,
            AirBaudRate::Bps236000 => -100,
            AirBaudRate::Bps250000 => -100,
        }
    }
}

/// In speed class S4 the only serial baud rate accepted is 1200: `set_baud`
/// fails with `InvalidBaudRate` for each of the other seven.
pub proof fn lemma_s4_accepts_only_1200(params: Parameters, rate: BaudRate)
    requires
        params.speed == Speed::S4,
    ensures
        baud_allowed(params.speed, rate) <==> rate == BaudRate::Bps1200,
{
}

impl<'a> TryFrom<&'a [u8]> for BaudRate {
    type Error = ();

    /// Reads the baud rate from an `OK+B:<n>\r\n` reply.
    fn try_from(value: &'a [u8]) -> Result<Self, ()> {
        match BaudRate::from_response(value) {
            Ok(x) => Ok(x),
            Err(_) => Err(()),
        }
    }
}

impl<'a> vstd::std_specs::convert::TryFromSpecImpl<&'a [u8]> for BaudRate {
    open spec fn obeys_try_from_spec() -> bool {
        true
    }

    open spec fn try_from_spec(v: &'a [u8]) -> Result<Self, ()> {
        match BaudRate::from_reply(v@) {
            Some(b) => Ok(b),
            None => Err(()),
        }
    }
}

} // verus!
