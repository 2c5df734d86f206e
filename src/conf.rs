use vstd::prelude::*;

verus! {

// AT query commands.

/// Firmware version query: `AT+VERSION`.
pub const AT_COMMAND_QUERY_VERSION: [u8; 10] = [65, 84, 43, 86, 69, 82, 83, 73, 79, 78];

/// Probe whether the module listens for AT commands: `AT`.
pub const AT_COMMAND_QUERY_MODE: [u8; 2] = [65, 84];

/// Serial baud rate query: `AT+B?`.
pub const AT_COMMAND_QUERY_BAUD: [u8; 5] = [65, 84, 43, 66, 63];

/// Wireless channel query: `AT+C?`.
pub const AT_COMMAND_QUERY_CHANNEL: [u8; 5] = [65, 84, 43, 67, 63];

/// Wireless speed class query: `AT+S?`.
pub const AT_COMMAND_QUERY_SPEED: [u8; 5] = [65, 84, 43, 83, 63];

/// Query of all basic parameters: `AT+RX`.
pub const AT_COMMAND_QUERY_ALL: [u8; 5] = [65, 84, 43, 82, 88];

/// Transmission power query: `AT+P?`.
pub const AT_COMMAND_QUERY_POWER: [u8; 5] = [65, 84, 43, 80, 63];

// AT setter commands.

/// Restore factory defaults: `AT+DEFAULT`.
pub const AT_COMMAND_DEFAULT: [u8; 10] = [65, 84, 43, 68, 69, 70, 65, 85, 76, 84];

/// Prefix of the baud rate setter: `AT+B`.
pub const AT_COMMAND_SET_BAUD: [u8; 4] = [65, 84, 43, 66];

/// Prefix of the channel setter: `AT+C`.
pub const AT_COMMAND_SET_CHANNEL: [u8; 4] = [65, 84, 43, 67];

/// Prefix of the speed class setter: `AT+S`.
pub const AT_COMMAND_SET_SPEED: [u8; 4] = [65, 84, 43, 83];

/// Prefix of the transmission power setter: `AT+P`.
pub const AT_COMMAND_SET_POWER: [u8; 4] = [65, 84, 43, 80];

// Responses.

/// Reply to the `AT` probe: `OK\r\n`.
pub const RESPONSE_OK: [u8; 4] = [79, 75, 13, 10];

/// Reply to a factory reset: `OK+DEFAULT\r\n`.
pub const RESPONSE_RESET_SETTINGS: [u8; 12] = [79, 75, 43, 68, 69, 70, 65, 85, 76, 84, 13, 10];

/// Prefix of a baud rate reply: `OK+B:`.
pub const RESPONSE_BAUD: [u8; 5] = [79, 75, 43, 66, 58];

/// Prefix of a channel reply: `OK+C:`.
pub const RESPONSE_CHANNEL: [u8; 5] = [79, 75, 43, 67, 58];

/// Prefix of a speed class reply: `OK+S:`.
pub const RESPONSE_SPEED: [u8; 5] = [79, 75, 43, 83, 58];

/// Prefix of a transmission power reply: `OK+P:+`.
pub const RESPONSE_POWER: [u8; 6] = [79, 75, 43, 80, 58, 43];

/// Terminator of every numeric reply but the power reply: `\r\n`.
pub const TERMINATOR_LINE: [u8; 2] = [13, 10];

/// Terminator of the power reply: `dBm\r\n`.
pub const TERMINATOR_POWER: [u8; 5] = [100, 66, 109, 13, 10];

} // verus!
