use vstd::prelude::*;

use super::baudrate::BaudRate;
use super::channel::Channel;
use super::power::TransmissionPower;
use super::speed::Speed;
use super::{copy_prefix, GenerateAtCommand};
use crate::conf::{
    AT_COMMAND_SET_BAUD, AT_COMMAND_SET_CHANNEL, AT_COMMAND_SET_POWER, AT_COMMAND_SET_SPEED,
};

verus! {

// The complete command for each value of the settings whose command is a
// fixed string: `AT+B<bps>`, `AT+S<class>` and `AT+P<dbm>`.
const CMD_BAUD_1200: [u8; 8] = [65, 84, 43, 66, 49, 50, 48, 48];
const CMD_BAUD_2400: [u8; 8] = [65, 84, 43, 66, 50, 52, 48, 48];
const CMD_BAUD_4800: [u8; 8] = [65, 84, 43, 66, 52, 56, 48, 48];
const CMD_BAUD_9600: [u8; 8] = [65, 84, 43, 66, 57, 54, 48, 48];
const CMD_BAUD_19200: [u8; 9] = [65, 84, 43, 66, 49, 57, 50, 48, 48];
const CMD_BAUD_38400: [u8; 9] = [65, 84, 43, 66, 51, 56, 52, 48, 48];
const CMD_BAUD_57600: [u8; 9] = [65, 84, 43, 66, 53, 55, 54, 48, 48];
const CMD_BAUD_115200: [u8; 10] = [65, 84, 43, 66, 49, 49, 53, 50, 48, 48];
const CMD_SPEED_1: [u8; 5] = [65, 84, 43, 83, 49];
const CMD_SPEED_2: [u8; 5] = [65, 84, 43, 83, 50];
const CMD_SPEED_3: [u8; 5] = [65, 84, 43, 83, 51];
const CMD_SPEED_4: [u8; 5] = [65, 84, 43, 83, 52];
const CMD_SPEED_5: [u8; 5] = [65, 84, 43, 83, 53];
const CMD_SPEED_6: [u8; 5] = [65, 84, 43, 83, 54];
const CMD_SPEED_7: [u8; 5] = [65, 84, 43, 83, 55];
const CMD_SPEED_8: [u8; 5] = [65, 84, 43, 83, 56];
const CMD_POWER_6: [u8; 5] = [65, 84, 43, 80, 54];
const CMD_POWER_7: [u8; 5] = [65, 84, 43, 80, 55];
const CMD_POWER_8: [u8; 5] = [65, 84, 43, 80, 56];
const CMD_POWER_9: [u8; 5] = [65, 84, 43, 80, 57];
const CMD_POWER_10: [u8; 6] = [65, 84, 43, 80, 49, 48];
const CMD_POWER_11: [u8; 6] = [65, 84, 43, 80, 49, 49];
const CMD_POWER_12: [u8; 6] = [65, 84, 43, 80, 49, 50];
const CMD_POWER_13: [u8; 6] = [65, 84, 43, 80, 49, 51];
const CMD_POWER_14: [u8; 6] = [65, 84, 43, 80, 49, 52];
const CMD_POWER_15: [u8; 6] = [65, 84, 43, 80, 49, 53];
const CMD_POWER_16: [u8; 6] = [65, 84, 43, 80, 49, 54];
const CMD_POWER_17: [u8; 6] = [65, 84, 43, 80, 49, 55];
const CMD_POWER_18: [u8; 6] = [65, 84, 43, 80, 49, 56];
const CMD_POWER_19: [u8; 6] = [65, 84, 43, 80, 49, 57];
const CMD_POWER_20: [u8; 6] = [65, 84, 43, 80, 50, 48];

/// Three ASCII digits of `n`, zero-padded on the left.
pub open spec fn padded3(n: int) -> Seq<u8> {
    seq![(48 + n / 100 % 10) as u8, (48 + n / 10 % 10) as u8, (48 + n % 10) as u8]
}

impl BaudRate {
    /// The `AT+B<bps>` command that sets this baud rate.
    pub open spec fn command(self) -> Seq<u8> {
        AT_COMMAND_SET_BAUD@ + super::decimal(self.bps() as nat)
    }

    /// The `AT+B<bps>` command that sets this baud rate.
    pub fn make_command(&self) -> (r: &'static [u8])
        ensures
            r@ =~= self.command(),
    {
        proof {
            reveal_with_fuel(super::decimal, 7);
        }
        match self {
            BaudRate::Bps1200 => &CMD_BAUD_1200,
            BaudRate::Bps2400 => &CMD_BAUD_2400,
            BaudRate::Bps4800 => &CMD_BAUD_4800,
            BaudRate::Bps9600 => &CMD_BAUD_9600,
            BaudRate::Bps19200 => &CMD_BAUD_19200,
            BaudRate::Bps38400 => &CMD_BAUD_38400,
            BaudRate::Bps57600 => &CMD_BAUD_57600,
            BaudRate::Bps115200 => &CMD_BAUD_115200,
        }
    }
}

impl Speed {
    /// The `AT+S<class>` command that selects this speed class.
    pub open spec fn command(self) -> Seq<u8> {
        AT_COMMAND_SET_SPEED@ + super::decimal(self.class() as nat)
    }

    /// The `AT+S<class>` command that selects this speed class.
    pub fn make_command(&self) -> (r: &'static [u8])
        ensures
            r@ =~= self.command(),
    {
        proof {
            reveal_with_fuel(super::decimal, 2);
        }
        match self {
            Speed::S1 => &CMD_SPEED_1,
            Speed::S2 => &CMD_SPEED_2,
            Speed::S3 => &CMD_SPEED_3,
            Speed::S4 => &CMD_SPEED_4,
            Speed::S5 => &CMD_SPEED_5,
            Speed::S6 => &CMD_SPEED_6,
            Speed::S7 => &CMD_SPEED_7,
            Speed::S8 => &CMD_SPEED_8,
        }
    }
}

impl TransmissionPower {
    /// The `AT+P<dbm>` command that sets this power.
    pub open spec fn command(self) -> Seq<u8> {
        AT_COMMAND_SET_POWER@ + super::decimal(self.dbm() as nat)
    }

    /// The `AT+P<dbm>` command that sets this power.
    pub fn make_command(&self) -> (r: &'static [u8])
        ensures
            r@ =~= self.command(),
    {
        proof {
            reveal_with_fuel(super::decimal, 3);
        }
        match self.get_power_dbm() {
            6 => &CMD_POWER_6,
            7 => &CMD_POWER_7,
            8 => &CMD_POWER_8,
            9 => &CMD_POWER_9,
            10 => &CMD_POWER_10,
            11 => &CMD_POWER_11,
            12 => &CMD_POWER_12,
            13 => &CMD_POWER_13,
            14 => &CMD_POWER_14,
            15 => &CMD_POWER_15,
            16 => &CMD_POWER_16,
            17 => &CMD_POWER_17,
            18 => &CMD_POWER_18,
            19 => &CMD_POWER_19,
            _ => &CMD_POWER_20,
        }
    }
}

impl Channel {
    /// The `AT+C<nnn>` command that tunes to this channel, with the number
    /// written as three zero-padded digits.
    pub open spec fn command(self) -> Seq<u8> {
        AT_COMMAND_SET_CHANNEL@ + padded3(self.number())
    }
}

impl GenerateAtCommand for BaudRate {
    open spec fn at_command(&self) -> Seq<u8> {
        self.command()
    }

    fn make_command_buf<'a>(&self, buffer: &'a mut [u8]) -> (r: &'a [u8]) {
        copy_prefix(buffer, self.make_command())
    }
}

impl GenerateAtCommand for Speed {
    open spec fn at_command(&self) -> Seq<u8> {
        self.command()
    }

    fn make_command_buf<'a>(&self, buffer: &'a mut [u8]) -> (r: &'a [u8]) {
        copy_prefix(buffer, self.make_command())
    }
}

impl GenerateAtCommand for TransmissionPower {
    open spec fn at_command(&self) -> Seq<u8> {
        self.command()
    }

    fn make_command_buf<'a>(&self, buffer: &'a mut [u8]) -> (r: &'a [u8]) {
        copy_prefix(buffer, self.make_command())
    }
}

impl GenerateAtCommand for Channel {
    open spec fn at_command(&self) -> Seq<u8> {
        self.command()
    }

    /// Writes `AT+C` and the channel number as three zero-padded digits.
    /// The digits are peeled least significant first into a scratch array,
    /// then written to the command's tail in reverse.
    fn make_command_buf<'a>(&self, buffer: &'a mut [u8]) -> (r: &'a [u8]) {
        let ghost before = buffer@;
        let mut n: u8 = self.get_number();
        let ghost n0 = n as int;
        let mut scratch: [u8; 3] = [0u8; 3];
        let mut k: usize = 0;
        while k < 3
            invariant
                k <= 3,
                n0 <= 50,
                k == 0 ==> n as int == n0,
                k == 1 ==> n as int == n0 / 10,
                k == 2 ==> n as int == n0 / 100,
                k > 0 ==> scratch@[0] == (48 + n0 % 10) as u8,
                k > 1 ==> scratch@[1] == (48 + n0 / 10 % 10) as u8,
                k > 2 ==> scratch@[2] == (48 + n0 / 100 % 10) as u8,
            decreases 3 - k,
        {
            scratch[k] = n % 10 + 48;
            n = n / 10;
            k += 1;
        }
        copy_prefix(buffer, &AT_COMMAND_SET_CHANNEL);
        proof {
            let mid = buffer@;
            assert forall|j: int| 4 <= j < mid.len() implies mid[j] == before[j] by {
                assert(mid.subrange(4, mid.len() as int)[j - 4] == before.subrange(
                    4,
                    before.len() as int,
                )[j - 4]);
            }
        }
        buffer[4] = scratch[2];
        buffer[5] = scratch[1];
        buffer[6] = scratch[0];
        assert(buffer@.subrange(0, 7) =~= self.command());
        assert(buffer@.subrange(7, buffer@.len() as int) =~= before.subrange(7, before.len() as int));
        let whole: &'a [u8] = buffer;
        vstd::slice::slice_subrange(whole, 0, 7)
    }
}

} // verus!
