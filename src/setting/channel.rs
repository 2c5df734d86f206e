use vstd::prelude::*;

use crate::conf::{RESPONSE_CHANNEL, TERMINATOR_LINE};
use crate::parse::{format_converter, parse_field};

verus! {

/// Centre frequency of each channel in kHz; entry `i` belongs to channel `i + 1`.
pub const CHANNEL_FREQ_KHZ: [u32; 50] = [
    415090, 415700, 416310, 416920, 417530, 418140, 419360, 420580,
    421190, 421800, 422410, 423630, 424240, 424850, 425460, 426070,
    426680, 427290, 427900, 429120, 429730, 430340, 430950, 431560,
    432170, 432780, 433390, 434000, 434610, 435220, 435830, 436440,
    437050, 437660, 438270, 438880, 440100, 440710, 441320, 441930,
    442540, 443150, 443760, 444370, 445590, 446200, 446810, 447420,
    448640, 449860,
];

/// Wireless channel, 1 to 50.
#[derive(Debug, Clone, Copy, PartialEq, Eq, Structural)]
pub struct Channel(u8);

impl Channel {
    #[verifier::type_invariant]
    spec fn in_range(self) -> bool {
        1 <= self.0 && self.0 <= 50
    }

    /// The channel number.
    pub closed spec fn number(self) -> int {
        self.0 as int
    }

    /// The value whose number is `n`, for `n` in 1..=50.
    pub closed spec fn from_number(n: int) -> Channel {
        Channel(n as u8)
    }

    /// `Channel::from_number(n)` has number `n`.
    pub proof fn lemma_from_number(n: int)
        requires
            1 <= n <= 50,
        ensures
            Channel::from_number(n).number() == n,
    {
    }

    /// The channel that an `OK+C:<n>\r\n` reply carries, as its number.
    pub open spec fn from_reply(v: Seq<u8>) -> Option<int> {
        match parse_field(v, RESPONSE_CHANNEL@, TERMINATOR_LINE@) {
            Some(n) => if 1 <= n <= 50 {
                Some(n)
            } else {
                None
            },
            None => None,
        }
    }

    /// The channel numbered `ch`, or `None` outside 1..=50.
    pub fn new(ch: u8) -> (r: Option<Self>)
        ensures
            r is Some <==> 1 <= ch <= 50,
            r matches Some(c) ==> c.number() == ch,
    {
        if 1 <= ch && ch <= 50 {
            Some(Channel(ch))
        } else {
            None
        }
    }

    /// The channel number.
    pub fn get_number(&self) -> (r: u8)
        ensures
            r == self.number(),
            1 <= r <= 50,
    {
        proof {
            use_type_invariant(self);
        }
        self.0
    }

    /// Centre frequency of this channel in kHz (434000 is 434.00 MHz), read
    /// from the channel table.
    pub fn get_freq_khz(&self) -> (r: Result<u32, &'static str>)
        ensures
            r == Ok::<u32, &'static str>(CHANNEL_FREQ_KHZ@[self.number() - 1]),
    {
        proof {
            use_type_invariant(self);
        }
        if self.0 >= 51 || self.0 == 0 {
            Err("Invalid index, channel range: 1-50")
        } else {
            Ok(CHANNEL_FREQ_KHZ[self.0 as usize - 1])
        }
    }

    /// Reads the channel from an `OK+C:<n>\r\n` reply; fails unless the
    /// reply parses and `n` lies in 1..=50.
    pub fn from_response(value: &[u8]) -> (r: Result<Self, ()>)
        ensures
            match r {
                Ok(c) => Channel::from_reply(value@) == Some(c.number()) && c == Channel::from_number(
                    c.number(),
                ),
                Err(_) => Channel::from_reply(value@) is None,
            },
    {
        assert(RESPONSE_CHANNEL@.len() == 5);
        match format_converter(value, &RESPONSE_CHANNEL) {
            Ok(n) => if 1 <= n && n <= 50 {
                Ok(Channel(n as u8))
            } else {
                Err(())
            },
            Err(_) => Err(()),
        }
    }
}

impl Default for Channel {
    /// The factory default, channel 28 (434.00 MHz).
    fn default() -> (r: Self)
        ensures
            r.number() == 28,
    {
        Channel(28)
    }
}

impl<'a> TryFrom<&'a [u8]> for Channel {
    type Error = ();

    /// Reads the channel from an `OK+C:<n>\r\n` reply.
    fn try_from(value: &'a [u8]) -> Result<Self, ()> {
        match Channel::from_response(value) {
            Ok(x) => Ok(x),
            Err(_) => Err(()),
        }
    }
}

impl<'a> vstd::std_specs::convert::TryFromSpecImpl<&'a [u8]> for Channel {
    open spec fn obeys_try_from_spec() -> bool {
        true
    }

    open spec fn try_from_spec(v: &'a [u8]) -> Result<Self, ()> {
        match Channel::from_reply(v@) {
            Some(n) => Ok(Channel::from_number(n)),
            None => Err(()),
        }
    }
}

} // verus!
