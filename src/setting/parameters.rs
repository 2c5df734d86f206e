use vstd::prelude::*;

use super::baudrate::BaudRate;
use super::channel::Channel;
use super::power::TransmissionPower;
use super::speed::Speed;

verus! {

/// All settings of the module, as the `AT+RX` query reports them.
#[derive(Debug, Clone, Copy, PartialEq, Eq, Structural)]
pub struct Parameters {
    /// Serial baud rate.
    pub baud: BaudRate,
    /// Wireless channel.
    pub channel: Channel,
    /// Transmission power.
    pub power: TransmissionPower,
    /// Wireless speed class.
    pub speed: Speed,
}

impl Parameters {
    /// Each of the four replies parses to a valid value.
    pub open spec fn replies_valid(
        baud: Seq<u8>,
        channel: Seq<u8>,
        speed: Seq<u8>,
        power: Seq<u8>,
    ) -> bool {
        &&& BaudRate::from_reply(baud) is Some
        &&& Channel::from_reply(channel) is Some
        &&& Speed::from_reply(speed) is Some
        &&& TransmissionPower::from_reply(power) is Some
    }

    /// These settings are what the four replies carry.
    pub open spec fn described_by(
        self,
        baud: Seq<u8>,
        channel: Seq<u8>,
        speed: Seq<u8>,
        power: Seq<u8>,
    ) -> bool {
        &&& BaudRate::from_reply(baud) == Some(self.baud)
        &&& Channel::from_reply(channel) == Some(self.channel.number())
        &&& Speed::from_reply(speed) == Some(self.speed)
        &&& TransmissionPower::from_reply(power) == Some(self.power.dbm())
    }

    /// Builds the settings from the four replies to `AT+RX`, in the order the
    /// module sends them: baud rate, channel, speed class, power. `None` if
    /// any of them fails to parse; partial results are never returned.
    pub fn from_responses(baud: &[u8], channel: &[u8], speed: &[u8], power: &[u8]) -> (r: Option<
        Parameters,
    >)
        ensures
            r is Some <==> Parameters::replies_valid(baud@, channel@, speed@, power@),
            r matches Some(p) ==> p.described_by(baud@, channel@, speed@, power@),
    {
        let baud = match BaudRate::from_response(baud) {
            Ok(b) => b,
            Err(_) => return None,
        };
        let channel = match Channel::from_response(channel) {
            Ok(c) => c,
            Err(_) => return None,
        };
        let speed = match Speed::from_response(speed) {
            Ok(s) => s,
            Err(_) => return None,
        };
        let power = match TransmissionPower::from_response(power) {
            Ok(p) => p,
            Err(_) => return None,
        };
        Some(Parameters { baud, channel, power, speed })
    }
}

impl Default for Parameters {
    /// The factory defaults: 9600 bauds, channel 28, 20 dBm, speed class S3.
    fn default() -> (r: Self)
        ensures
            r.baud == BaudRate::Bps9600,
            r.channel.number() == 28,
            r.power.dbm() == 20,
            r.speed == Speed::S3,
    {
        Parameters {
            baud: BaudRate::default(),
            channel: Channel::default(),
            power: TransmissionPower::default(),
            speed: Speed::default(),
        }
    }
}

} // verus!
