use hc14_at_rs::conf::{
    RESPONSE_BAUD, RESPONSE_CHANNEL, RESPONSE_OK, RESPONSE_POWER, RESPONSE_RESET_SETTINGS,
    RESPONSE_SPEED,
};
use hc14_at_rs::parse::format_converter;
use hc14_at_rs::serial::{decimal_digits, even_parity, odd_parity};
use hc14_at_rs::setting::baudrate::{AirBaudRate, BaudRate};
use hc14_at_rs::setting::channel::Channel;
use hc14_at_rs::setting::parameters::Parameters;
use hc14_at_rs::setting::power::TransmissionPower;
use hc14_at_rs::setting::speed::Speed;
use hc14_at_rs::setting::GenerateAtCommand;
use hc14_at_rs::Error;

const FREQ_MHZ: [f32; 50] = [
    415.09, 415.70, 416.31, 416.92, 417.53, 418.14, 419.36, 420.58, 421.19, 421.80, 422.41,
    423.63, 424.24, 424.85, 425.46, 426.07, 426.68, 427.29, 427.90, 429.12, 429.73, 430.34,
    430.95, 431.56, 432.17, 432.78, 433.39, 434.00, 434.61, 435.22, 435.83, 436.44, 437.05,
    437.66, 438.27, 438.88, 440.10, 440.71, 441.32, 441.93, 442.54, 443.15, 443.76, 444.37,
    445.59, 446.20, 446.81, 447.42, 448.64, 449.86,
];

const ALL_BAUDS: [BaudRate; 8] = [
    BaudRate::Bps1200,
    BaudRate::Bps2400,
    BaudRate::Bps4800,
    BaudRate::Bps9600,
    BaudRate::Bps19200,
    BaudRate::Bps38400,
    BaudRate::Bps57600,
    BaudRate::Bps115200,
];

fn with_speed(speed: Speed) -> Parameters {
    Parameters { speed, ..Parameters::default() }
}

#[test]
fn parser_reads_baud_reply() {
    assert_eq!(format_converter(b"OK+B:9600\r\n", &RESPONSE_BAUD), Ok(9600));
}

#[test]
fn parser_rejects_corrupted_prefix() {
    assert_eq!(format_converter(b"OK+X:9600\r\n", &RESPONSE_BAUD), Err(Error::Parse));
    assert_eq!(format_converter(b"K+B:9600\r\n", &RESPONSE_BAUD), Err(Error::Parse));
}

#[test]
fn parser_rejects_bad_digits_or_terminator() {
    assert_eq!(format_converter(b"OK+B:\r\n", &RESPONSE_BAUD), Err(Error::Parse));
    assert_eq!(format_converter(b"OK+B:96x0\r\n", &RESPONSE_BAUD), Err(Error::Parse));
    assert_eq!(format_converter(b"OK+B:9600\r", &RESPONSE_BAUD), Err(Error::Parse));
    assert_eq!(format_converter(b"OK+B:9600", &RESPONSE_BAUD), Err(Error::Parse));
    assert_eq!(format_converter(b"OK+B:-9600\r\n", &RESPONSE_BAUD), Err(Error::Parse));
    assert_eq!(format_converter(b"", &RESPONSE_BAUD), Err(Error::Parse));
}

#[test]
fn parser_power_uses_dbm_terminator() {
    assert_eq!(format_converter(b"OK+P:+20dBm\r\n", &RESPONSE_POWER), Ok(20));
    assert_eq!(format_converter(b"OK+P:+20\r\n", &RESPONSE_POWER), Err(Error::Parse));
    assert_eq!(format_converter(b"OK+S:3dBm\r\n", &RESPONSE_SPEED), Err(Error::Parse));
}

#[test]
fn parser_limits_and_trailing_bytes() {
    assert_eq!(format_converter(b"OK+C:2147483647\r\n", &RESPONSE_CHANNEL), Ok(i32::MAX));
    assert_eq!(format_converter(b"OK+C:2147483648\r\n", &RESPONSE_CHANNEL), Err(Error::Parse));
    assert_eq!(format_converter(b"OK+C:99999999999999\r\n", &RESPONSE_CHANNEL), Err(Error::Parse));
    assert_eq!(format_converter(b"OK+C:007\r\n\0\0\0", &RESPONSE_CHANNEL), Ok(7));
}

#[test]
fn parser_agrees_with_at_commands_on_well_formed_replies() {
    for (reply, prefix) in [
        (&b"OK+B:9600\r\n"[..], &RESPONSE_BAUD[..]),
        (&b"OK+C:028\r\n"[..], &RESPONSE_CHANNEL[..]),
        (&b"OK+S:3\r\n"[..], &RESPONSE_SPEED[..]),
    ] {
        let theirs = at_commands::parser::CommandParser::parse(reply)
            .expect_identifier(prefix)
            .expect_int_parameter()
            .expect_identifier(b"\r\n")
            .finish()
            .unwrap()
            .0;
        assert_eq!(format_converter(reply, prefix), Ok(theirs));
    }
}

#[test]
fn channel_construction_and_frequency() {
    for n in 1u8..=50 {
        let ch = Channel::new(n).unwrap();
        assert_eq!(ch.get_number(), n);
        let expected = (FREQ_MHZ[n as usize - 1] * 1000.0).round() as u32;
        assert_eq!(ch.get_freq_khz(), Ok(expected));
    }
    assert_eq!(Channel::new(0), None);
    assert_eq!(Channel::new(51), None);
    assert_eq!(Channel::new(255), None);
    assert_eq!(Channel::default().get_freq_khz(), Ok(434000));
    assert_eq!(Channel::default().get_number(), 28);
}

#[test]
fn power_construction() {
    for dbm in 0u8..=255 {
        let p = TransmissionPower::new(dbm);
        if (6..=20).contains(&dbm) {
            assert_eq!(p.unwrap().get_power_dbm(), dbm);
        } else {
            assert_eq!(p, None);
        }
    }
    assert_eq!(TransmissionPower::default().get_power_dbm(), 20);
}

#[test]
fn channel_command_is_zero_padded() {
    let mut buffer = [0u8; 7];
    assert_eq!(Channel::new(1).unwrap().make_command_buf(&mut buffer), b"AT+C001");
    let mut buffer = [0u8; 7];
    assert_eq!(Channel::new(26).unwrap().make_command_buf(&mut buffer), b"AT+C026");
    let mut buffer = [0u8; 7];
    assert_eq!(Channel::new(50).unwrap().make_command_buf(&mut buffer), b"AT+C050");
    let mut buffer = [9u8; 10];
    assert_eq!(Channel::new(7).unwrap().make_command_buf(&mut buffer), b"AT+C007");
    assert_eq!(buffer, *b"AT+C007\x09\x09\x09");
}

#[test]
fn static_commands() {
    assert_eq!(BaudRate::Bps115200.make_command(), b"AT+B115200");
    assert_eq!(BaudRate::Bps1200.make_command(), b"AT+B1200");
    assert_eq!(BaudRate::Bps9600.make_command(), b"AT+B9600");
    assert_eq!(Speed::S8.make_command(), b"AT+S8");
    assert_eq!(Speed::S3.make_command(), b"AT+S3");
    assert_eq!(TransmissionPower::new(14).unwrap().make_command(), b"AT+P14");
    assert_eq!(TransmissionPower::new(6).unwrap().make_command(), b"AT+P6");
    assert_eq!(TransmissionPower::new(20).unwrap().make_command(), b"AT+P20");
}

#[test]
fn static_commands_into_buffer() {
    let mut buffer = [0u8; 12];
    assert_eq!(BaudRate::Bps57600.make_command_buf(&mut buffer), b"AT+B57600");
    let mut buffer = [0u8; 5];
    assert_eq!(Speed::S1.make_command_buf(&mut buffer), b"AT+S1");
    let mut buffer = [0u8; 6];
    assert_eq!(TransmissionPower::new(11).unwrap().make_command_buf(&mut buffer), b"AT+P11");
}

#[test]
fn set_baud_with_s4_accepts_only_1200() {
    for rate in ALL_BAUDS {
        let mut p = with_speed(Speed::S4);
        let r = p.set_baud(rate);
        if rate == BaudRate::Bps1200 {
            assert_eq!(r, Ok(()));
            assert_eq!(p.baud, BaudRate::Bps1200);
        } else {
            assert_eq!(r, Err(Error::InvalidBaudRate));
            assert_eq!(p.baud, BaudRate::Bps9600);
        }
    }
}

#[test]
fn set_baud_compatibility_table() {
    let table: [(Speed, &[u32]); 8] = [
        (Speed::S1, &[1200, 2400, 4800, 9600, 19200, 38400, 57600, 115200]),
        (Speed::S2, &[1200, 2400, 4800]),
        (Speed::S3, &[2400, 4800, 9600]),
        (Speed::S4, &[1200]),
        (Speed::S5, &[4800, 9600, 19200]),
        (Speed::S6, &[9600, 19200, 38400]),
        (Speed::S7, &[19200, 38400, 57600]),
        (Speed::S8, &[38400, 57600, 115200]),
    ];
    for (speed, allowed) in table {
        for rate in ALL_BAUDS {
            let mut p = with_speed(speed);
            let ok = p.set_baud(rate).is_ok();
            assert_eq!(ok, allowed.contains(&rate.to_u32()), "{:?} {:?}", speed, rate);
            assert_eq!(p.speed, speed);
        }
    }
}

#[test]
fn air_baud_table() {
    let mut p = with_speed(Speed::S3);
    p.baud = BaudRate::Bps1200;
    assert_eq!(p.get_air_baud(), AirBaudRate::Bps5000);
    p.baud = BaudRate::Bps9600;
    assert_eq!(p.get_air_baud(), AirBaudRate::Bps15000);
    p.baud = BaudRate::Bps115200;
    assert_eq!(p.get_air_baud(), AirBaudRate::Bps236000);
    let mut p = with_speed(Speed::S4);
    for rate in ALL_BAUDS {
        p.baud = rate;
        assert_eq!(p.get_air_baud(), AirBaudRate::Bps500);
    }
    let mut p = with_speed(Speed::S7);
    p.baud = BaudRate::Bps57600;
    assert_eq!(p.get_air_baud(), AirBaudRate::Bps236000);
    p.baud = BaudRate::Bps38400;
    assert_eq!(p.get_air_baud(), AirBaudRate::Bps58000);
    let mut p = with_speed(Speed::S8);
    p.baud = BaudRate::Bps115200;
    assert_eq!(p.get_air_baud(), AirBaudRate::Bps236000);
    assert_eq!(with_speed(Speed::S1).get_air_baud(), AirBaudRate::Bps250000);
    let mut p = with_speed(Speed::S6);
    p.baud = BaudRate::Bps38400;
    assert_eq!(p.get_air_baud(), AirBaudRate::Bps58000);
    let mut p = with_speed(Speed::S5);
    p.baud = BaudRate::Bps19200;
    assert_eq!(p.get_air_baud(), AirBaudRate::Bps58000);
}

#[test]
fn air_baud_sensitivity() {
    assert_eq!(AirBaudRate::Bps500.get_wireless_sensitivity_dbm(), -124);
    assert_eq!(AirBaudRate::Bps5000.get_wireless_sensitivity_dbm(), -116);
    assert_eq!(AirBaudRate::Bps15000.get_wireless_sensitivity_dbm(), -111);
    assert_eq!(AirBaudRate::Bps58000.get_wireless_sensitivity_dbm(), -106);
    assert_eq!(AirBaudRate::Bps236000.get_wireless_sensitivity_dbm(), -100);
    assert_eq!(AirBaudRate::Bps250000.get_wireless_sensitivity_dbm(), -100);
}

#[test]
fn speed_metadata() {
    assert_eq!(Speed::new(0), None);
    assert_eq!(Speed::new(9), None);
    assert_eq!(Speed::new(1), Some(Speed::S1));
    assert_eq!(Speed::new(8), Some(Speed::S8));
    let sizes: Vec<usize> = (1..=8).map(|n| Speed::new(n).unwrap().get_max_bytes_size()).collect();
    assert_eq!(sizes, vec![40, 40, 80, 80, 160, 160, 250, 250]);
    assert_eq!(Speed::S1.get_wireless_sensitivity_tenth_dbm(), -1400);
    assert_eq!(Speed::S2.get_wireless_sensitivity_tenth_dbm(), -1375);
    assert_eq!(Speed::S8.get_wireless_sensitivity_tenth_dbm(), -1215);
    assert_eq!(Speed::default(), Speed::S3);
}

#[test]
fn baud_conversions() {
    for rate in ALL_BAUDS {
        assert_eq!(BaudRate::from_u32(rate.to_u32()), Some(rate));
    }
    assert_eq!(BaudRate::from_u32(9601), None);
    assert_eq!(BaudRate::default(), BaudRate::Bps9600);
}

#[test]
fn replies_to_settings() {
    assert_eq!(BaudRate::from_response(b"OK+B:9600\r\n"), Ok(BaudRate::Bps9600));
    assert_eq!(BaudRate::from_response(b"OK+B:9601\r\n"), Err(()));
    assert_eq!(Channel::from_response(b"OK+C:028\r\n").unwrap().get_number(), 28);
    assert_eq!(Channel::from_response(b"OK+C:000\r\n"), Err(()));
    assert_eq!(Channel::from_response(b"OK+C:051\r\n"), Err(()));
    assert_eq!(Channel::from_response(b"OK+C:257\r\n"), Err(()));
    assert_eq!(Speed::from_response(b"OK+S:3\r\n"), Ok(Speed::S3));
    assert_eq!(Speed::from_response(b"OK+S:0\r\n"), Err(()));
    assert_eq!(TransmissionPower::from_response(b"OK+P:+20dBm\r\n").unwrap().get_power_dbm(), 20);
    assert_eq!(TransmissionPower::from_response(b"OK+P:+5dBm\r\n"), Err(()));
    assert_eq!(TransmissionPower::from_response(b"OK+P:+262dBm\r\n"), Err(()));
}

#[test]
fn parameters_from_responses() {
    let p = Parameters::from_responses(b"OK+B:4800\r\n", b"OK+C:050\r\n", b"OK+S:2\r\n", b"OK+P:+13dBm\r\n")
        .unwrap();
    assert_eq!(p.baud, BaudRate::Bps4800);
    assert_eq!(p.channel.get_number(), 50);
    assert_eq!(p.speed, Speed::S2);
    assert_eq!(p.power.get_power_dbm(), 13);
    assert_eq!(
        Parameters::from_responses(b"OK+B:4800\r\n", b"OK+C:050\r\n", b"OK+S:2\r\n", b"OK+P:13dBm\r\n"),
        None
    );
}

#[test]
fn parameters_default() {
    let p = Parameters::default();
    assert_eq!(p.baud, BaudRate::Bps9600);
    assert_eq!(p.channel.get_number(), 28);
    assert_eq!(p.power.get_power_dbm(), 20);
    assert_eq!(p.speed, Speed::S3);
}

#[test]
fn parity_bits() {
    assert_eq!(odd_parity(0b1101_0010), 0b1101_0011);
    assert_eq!(even_parity(0b1101_0010), 0b1101_0010);
    assert_eq!(odd_parity(0b0000_0100), 0b0000_0100);
    assert_eq!(even_parity(0b0000_0100), 0b0000_0101);
    assert_eq!(odd_parity(0), 1);
    assert_eq!(even_parity(0), 0);
    assert_eq!(odd_parity(0xff), 0xff);
    assert_eq!(even_parity(0x7f), 0x7f);
}

#[test]
fn decimal_rendering() {
    let mut scratch = [0u8; 10];
    let start = decimal_digits(40961, &mut scratch);
    assert_eq!(&scratch[start..], b"40961");
    let start = decimal_digits(0, &mut scratch);
    assert_eq!(&scratch[start..], b"0");
    let start = decimal_digits(u32::MAX, &mut scratch);
    assert_eq!(&scratch[start..], b"4294967295");
}

#[test]
fn response_constants() {
    assert_eq!(&RESPONSE_OK, b"OK\r\n");
    assert_eq!(&RESPONSE_RESET_SETTINGS, b"OK+DEFAULT\r\n");
    assert_eq!(&RESPONSE_POWER, b"OK+P:+");
}

#[test]
fn try_from_replies() {
    assert_eq!(BaudRate::try_from(&b"OK+B:19200\r\n"[..]), Ok(BaudRate::Bps19200));
    assert_eq!(Speed::try_from(&b"OK+S:5\r\n"[..]), Ok(Speed::S5));
    assert_eq!(Channel::try_from(&b"OK+C:049\r\n"[..]).unwrap().get_number(), 49);
    assert_eq!(TransmissionPower::try_from(&b"OK+P:+7dBm\r\n"[..]).unwrap().get_power_dbm(), 7);
    assert_eq!(Speed::try_from(&b"OK+B:5\r\n"[..]), Err(()));
}

#[test]
fn receive_step_keeps_line_without_line_feed() {
    let mut buffer = [0u8; 3];
    let mut stored = 0;
    for &b in b"abcde" {
        stored = hc14_at_rs::serial::receive_step(&mut buffer, stored, b).unwrap();
    }
    assert_eq!(stored, 3);
    assert_eq!(&buffer, b"abc");
    assert_eq!(hc14_at_rs::serial::receive_step(&mut buffer, stored, b'\n'), None);
    assert_eq!(hc14_at_rs::serial::receive_step(&mut buffer, 1, b'z'), Some(2));
    assert_eq!(&buffer, b"azc");
}
