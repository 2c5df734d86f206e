use std::cell::{Cell, RefCell};
use std::rc::Rc;

use hc14_at_rs::driver::{Configuration, DelayUs, Hc14, KeyPin, Link, Normal, SerialPort};
use hc14_at_rs::setting::baudrate::BaudRate;
use hc14_at_rs::setting::channel::Channel;
use hc14_at_rs::setting::parameters::Parameters;
use hc14_at_rs::setting::power::TransmissionPower;
use hc14_at_rs::setting::speed::Speed;
use hc14_at_rs::Error;

#[derive(Default)]
struct Line {
    rx: Vec<u8>,
    pos: usize,
    tx: Vec<u8>,
    fail_writes: bool,
}

#[derive(Clone)]
struct MockSerial(Rc<RefCell<Line>>);

impl SerialPort for MockSerial {
    fn read(&mut self) -> Result<u8, ()> {
        let mut line = self.0.borrow_mut();
        if line.pos < line.rx.len() {
            let b = line.rx[line.pos];
            line.pos += 1;
            Ok(b)
        } else {
            Err(())
        }
    }

    fn write(&mut self, word: u8) -> Result<(), ()> {
        let mut line = self.0.borrow_mut();
        if line.fail_writes {
            Err(())
        } else {
            line.tx.push(word);
            Ok(())
        }
    }
}

#[derive(Clone)]
struct MockPin {
    low: Rc<Cell<bool>>,
    fail: Rc<Cell<bool>>,
}

impl KeyPin for MockPin {
    fn set_low(&mut self) -> Result<(), ()> {
        if self.fail.get() {
            return Err(());
        }
        self.low.set(true);
        Ok(())
    }

    fn set_high(&mut self) -> Result<(), ()> {
        if self.fail.get() {
            return Err(());
        }
        self.low.set(false);
        Ok(())
    }
}

#[derive(Clone)]
struct MockDelay(Rc<Cell<u64>>);

impl DelayUs for MockDelay {
    fn delay_us(&mut self, us: u32) {
        self.0.set(self.0.get() + us as u64);
    }
}

struct Rig {
    line: Rc<RefCell<Line>>,
    low: Rc<Cell<bool>>,
    fail: Rc<Cell<bool>>,
    waited: Rc<Cell<u64>>,
}

impl Rig {
    fn new(reply: &[u8]) -> Rig {
        let line = Line { rx: reply.to_vec(), ..Default::default() };
        Rig {
            line: Rc::new(RefCell::new(line)),
            low: Rc::new(Cell::new(true)),
            fail: Rc::new(Cell::new(false)),
            waited: Rc::new(Cell::new(0)),
        }
    }

    fn normal(&self) -> Hc14<MockSerial, MockPin, MockDelay, Normal> {
        Hc14::new(
            MockSerial(self.line.clone()),
            MockPin { low: self.low.clone(), fail: self.fail.clone() },
            MockDelay(self.waited.clone()),
        )
        .unwrap()
    }

    fn configuration(&self) -> Hc14<MockSerial, MockPin, MockDelay, Configuration> {
        self.normal().into_configuration_mode().unwrap()
    }

    fn sent(&self) -> Vec<u8> {
        self.line.borrow().tx.clone()
    }
}

#[test]
fn new_drives_pin_high_and_waits() {
    let rig = Rig::new(b"");
    let _h = rig.normal();
    assert!(!rig.low.get());
    assert_eq!(rig.waited.get(), 100_000);
}

#[test]
fn new_fails_when_pin_fails() {
    let rig = Rig::new(b"");
    rig.fail.set(true);
    let r = Hc14::new(
        MockSerial(rig.line.clone()),
        MockPin { low: rig.low.clone(), fail: rig.fail.clone() },
        MockDelay(rig.waited.clone()),
    );
    assert!(matches!(r, Err(Error::Pin)));
}

#[test]
fn mode_transitions_set_pin_level() {
    let rig = Rig::new(b"");
    let h = rig.normal();
    assert!(!rig.low.get());
    let c = h.into_configuration_mode().unwrap();
    assert!(rig.low.get());
    let n = c.into_normal_mode().unwrap();
    assert!(!rig.low.get());
    let c = n.into_configuration_mode().unwrap();
    assert!(rig.low.get());
    assert_eq!(rig.waited.get(), 400_000);
    drop(c);
}

#[test]
fn configuration_mode_leaves_pin_low_whatever_its_level() {
    let rig = Rig::new(b"");
    let h = rig.normal();
    // The pin is already low before the transition: it stays low.
    rig.low.set(true);
    let _c = h.into_configuration_mode().unwrap();
    assert!(rig.low.get());
}

#[test]
fn transition_fails_when_pin_fails() {
    let rig = Rig::new(b"");
    let h = rig.normal();
    rig.fail.set(true);
    assert!(matches!(h.into_configuration_mode(), Err(Error::Pin)));
    let rig = Rig::new(b"");
    let c = rig.configuration();
    rig.fail.set(true);
    assert!(matches!(c.into_normal_mode(), Err(Error::Pin)));
}

#[test]
fn release_returns_resources() {
    let rig = Rig::new(b"");
    let (serial, pin, _delay) = rig.normal().release();
    assert!(Rc::ptr_eq(&serial.0, &rig.line));
    assert!(Rc::ptr_eq(&pin.low, &rig.low));
}

#[test]
fn reset_settings_accepts_exact_reply() {
    let rig = Rig::new(b"OK+DEFAULT\r\n");
    let mut c = rig.configuration();
    assert!(c.reset_settings());
    assert_eq!(rig.sent(), b"AT+DEFAULT".to_vec());
}

#[test]
fn reset_settings_rejects_truncated_reply() {
    let rig = Rig::new(b"OK+DEF\r\n");
    let mut c = rig.configuration();
    assert!(!c.reset_settings());
}

#[test]
fn reset_settings_rejects_mismatched_reply() {
    let rig = Rig::new(b"OK+DEFAULX\r\n");
    let mut c = rig.configuration();
    assert!(!c.reset_settings());
    let rig = Rig::new(b"ERROR\r\n");
    let mut c = rig.configuration();
    assert!(!c.reset_settings());
}

#[test]
fn reset_settings_rejects_missing_reply() {
    let rig = Rig::new(b"OK+DEFA");
    let mut c = rig.configuration();
    assert!(!c.reset_settings());
}

#[test]
fn reset_settings_fails_when_write_fails() {
    let rig = Rig::new(b"OK+DEFAULT\r\n");
    let mut c = rig.configuration();
    rig.line.borrow_mut().fail_writes = true;
    assert!(!c.reset_settings());
}

#[test]
fn get_parameters_parses_all_fields() {
    let rig = Rig::new(b"OK+B:9600\r\nOK+C:028\r\nOK+S:3\r\nOK+P:+20dBm\r\n");
    let mut c = rig.configuration();
    let p = c.get_parameters().unwrap();
    let expected = Parameters {
        baud: BaudRate::Bps9600,
        channel: Channel::new(28).unwrap(),
        power: TransmissionPower::new(20).unwrap(),
        speed: Speed::S3,
    };
    assert_eq!(p, expected);
    assert_eq!(p.channel.get_number(), 28);
    assert_eq!(p.power.get_power_dbm(), 20);
    assert_eq!(rig.sent(), b"AT+RX".to_vec());
}

#[test]
fn get_parameters_other_values() {
    let rig = Rig::new(b"OK+B:115200\r\nOK+C:001\r\nOK+S:8\r\nOK+P:+6dBm\r\n");
    let mut c = rig.configuration();
    let p = c.get_parameters().unwrap();
    assert_eq!(p.baud, BaudRate::Bps115200);
    assert_eq!(p.channel.get_number(), 1);
    assert_eq!(p.speed, Speed::S8);
    assert_eq!(p.power.get_power_dbm(), 6);
}

#[test]
fn get_parameters_none_on_any_bad_field() {
    for stream in [
        &b"OK+B:9601\r\nOK+C:028\r\nOK+S:3\r\nOK+P:+20dBm\r\n"[..],
        &b"OK+B:9600\r\nOK+C:051\r\nOK+S:3\r\nOK+P:+20dBm\r\n"[..],
        &b"OK+B:9600\r\nOK+C:028\r\nOK+S:9\r\nOK+P:+20dBm\r\n"[..],
        &b"OK+B:9600\r\nOK+C:028\r\nOK+S:3\r\nOK+P:+21dBm\r\n"[..],
        &b"OK+B:9600\r\nOK+C:028\r\nOK+S:3\r\nOK+P:+20\r\n"[..],
        &b"OK+B:9600\r\nOK+C:028\r\nOK+S:3\r\n"[..],
    ] {
        let rig = Rig::new(stream);
        let mut c = rig.configuration();
        assert_eq!(c.get_parameters(), None);
    }
}

#[test]
fn is_at_mode_probe() {
    let rig = Rig::new(b"OK\r\n");
    let mut c = rig.configuration();
    assert!(c.is_at_mode());
    assert_eq!(rig.sent(), b"AT".to_vec());
    let rig = Rig::new(b"ER\r\n");
    let mut c = rig.configuration();
    assert!(!c.is_at_mode());
    let rig = Rig::new(b"OK\r");
    let mut c = rig.configuration();
    assert!(!c.is_at_mode());
}

#[test]
fn wirte_command_round_trip() {
    let rig = Rig::new(b"OK+B:9600\r\nrest");
    let mut c = rig.configuration();
    let mut buffer = [0u8; 32];
    let reply = c.wirte_command(BaudRate::Bps9600.make_command(), &mut buffer).unwrap();
    assert_eq!(reply, b"OK+B:9600\r\n");
    assert_eq!(rig.sent(), b"AT+B9600".to_vec());
}

#[test]
fn wirte_command_write_error() {
    let rig = Rig::new(b"OK\r\n");
    let mut c = rig.configuration();
    rig.line.borrow_mut().fail_writes = true;
    let mut buffer = [0u8; 8];
    assert!(matches!(c.wirte_command(b"AT", &mut buffer), Err(Error::Write)));
}

#[test]
fn wirte_set_channel_sends_padded_number() {
    let rig = Rig::new(b"OK+C:026\r\n");
    let mut c = rig.configuration();
    let mut buffer = [0u8; 16];
    let reply = c.wirte_set_channel(26, &mut buffer).unwrap();
    assert_eq!(reply, b"OK+C:026\r\n");
    assert_eq!(rig.sent(), b"AT+C026".to_vec());
}

#[test]
fn wirte_set_channel_rejects_out_of_range() {
    let rig = Rig::new(b"OK+C:000\r\n");
    let mut c = rig.configuration();
    let mut buffer = [0u8; 16];
    assert!(matches!(c.wirte_set_channel(0, &mut buffer), Err(Error::InvalidChannel)));
    assert!(matches!(c.wirte_set_channel(51, &mut buffer), Err(Error::InvalidChannel)));
    assert!(matches!(c.wirte_set_channel(-3, &mut buffer), Err(Error::InvalidChannel)));
    assert!(rig.sent().is_empty());
}

#[test]
fn configuration_read_buffer_stops_at_line_feed() {
    let rig = Rig::new(b"ab\ncd\n");
    let mut c = rig.configuration();
    let mut buffer = [0u8; 8];
    assert_eq!(c.read_buffer(&mut buffer).unwrap(), b"ab\n");
    assert_eq!(c.read_buffer(&mut buffer).unwrap(), b"cd\n");
    assert!(matches!(c.read_buffer(&mut buffer), Err(Error::Read)));
}

#[test]
fn configuration_send_byte_and_buffer() {
    let rig = Rig::new(b"");
    let mut c = rig.configuration();
    c.send_byte(b'A').unwrap();
    c.send_buffer(b"T+RX").unwrap();
    assert_eq!(rig.sent(), b"AT+RX".to_vec());
}

#[test]
fn normal_read_buffer_fills_buffer() {
    let rig = Rig::new(b"abcdefgh");
    let mut h = rig.normal();
    let mut buffer = [0u8; 4];
    assert_eq!(h.read_buffer(&mut buffer).unwrap(), b"abcd");
    assert_eq!(rig.waited.get(), 200_000);
}

#[test]
fn normal_send_operations() {
    let rig = Rig::new(b"");
    let mut h = rig.normal();
    h.send_byte(b'x').unwrap();
    h.send_buffer(b"hc14").unwrap();
    h.send_string("ab\0cd").unwrap();
    h.send_string("ef").unwrap();
    h.send_number(0).unwrap();
    h.send_number(1234).unwrap();
    h.send_number(u32::MAX).unwrap();
    assert_eq!(rig.sent(), b"xhc14abef012344294967295".to_vec());
}

#[test]
fn normal_send_reports_write_error() {
    let rig = Rig::new(b"");
    let mut h = rig.normal();
    rig.line.borrow_mut().fail_writes = true;
    assert!(matches!(h.send_byte(1), Err(Error::Write)));
    assert!(matches!(h.send_buffer(b"ab"), Err(Error::Write)));
    assert!(matches!(h.send_number(7), Err(Error::Write)));
    assert!(matches!(h.send_string("a"), Err(Error::Write)));
}

#[test]
fn serial_helpers() {
    let rig = Rig::new(b"line\nmore");
    let mut s = Link::new(MockSerial(rig.line.clone()));
    hc14_at_rs::serial::send_byte(&mut s, b'[').unwrap();
    hc14_at_rs::serial::send_bytes(&mut s, b"ab").unwrap();
    hc14_at_rs::serial::send_string(&mut s, "cd\0e").unwrap();
    hc14_at_rs::serial::send_number(&mut s, 905).unwrap();
    assert_eq!(rig.sent(), b"[abcd905".to_vec());
}

#[test]
fn framing_read_until_newline_and_write_all() {
    let rig = Rig::new(b"abc\ndefghij\n");
    let mut link = Link::new(MockSerial(rig.line.clone()));
    let mut buffer = [0u8; 5];
    assert_eq!(hc14_at_rs::driver::read_until_newline(&mut link, &mut buffer), Ok(4));
    assert_eq!(&buffer[..4], b"abc\n");
    assert_eq!(hc14_at_rs::driver::read_until_newline(&mut link, &mut buffer), Ok(5));
    assert_eq!(&buffer, b"defgh");
    let mut empty: [u8; 0] = [];
    assert_eq!(hc14_at_rs::driver::read_until_newline(&mut link, &mut empty), Ok(0));
    assert_eq!(hc14_at_rs::driver::read_until_newline(&mut link, &mut buffer), Ok(3));
    assert_eq!(&buffer[..3], b"ij\n");
    assert_eq!(hc14_at_rs::driver::read_until_newline(&mut link, &mut buffer), Err(Error::Read));
    assert_eq!(hc14_at_rs::driver::write_all(&mut link, b"AT+RX"), Ok(()));
    assert_eq!(rig.sent(), b"AT+RX".to_vec());
    rig.line.borrow_mut().fail_writes = true;
    assert_eq!(hc14_at_rs::driver::write_all(&mut link, b"x"), Err(Error::Write));
    assert_eq!(hc14_at_rs::driver::write_all(&mut link, b""), Ok(()));
    let serial = link.into_inner();
    assert!(Rc::ptr_eq(&serial.0, &rig.line));
}

#[test]
fn get_parameters_none_on_overlong_field() {
    let rig = Rig::new(b"OK+B:96000000000000000\r\nOK+C:028\r\nOK+S:3\r\nOK+P:+20dBm\r\n");
    let mut c = rig.configuration();
    assert_eq!(c.get_parameters(), None);
}

#[test]
fn get_parameters_none_when_query_not_sent() {
    let rig = Rig::new(b"OK+B:9600\r\nOK+C:028\r\nOK+S:3\r\nOK+P:+20dBm\r\n");
    let mut c = rig.configuration();
    rig.line.borrow_mut().fail_writes = true;
    assert_eq!(c.get_parameters(), None);
}

#[test]
fn receive_string_reads_line_without_line_feed() {
    let rig = Rig::new(b"hello\nrest");
    let mut s = Link::new(MockSerial(rig.line.clone()));
    let line = hc14_at_rs::serial::receive_string(&mut s).unwrap();
    assert_eq!(line.as_str(), "hello");
    let rig = Rig::new(b"\n");
    let mut s = Link::new(MockSerial(rig.line.clone()));
    assert_eq!(hc14_at_rs::serial::receive_string(&mut s).unwrap().as_str(), "");
}

#[test]
fn receive_string_limits() {
    let mut full = vec![b'x'; 64];
    full.push(b'\n');
    let rig = Rig::new(&full);
    let mut s = Link::new(MockSerial(rig.line.clone()));
    assert_eq!(hc14_at_rs::serial::receive_string(&mut s).unwrap().len(), 64);
    let long = vec![b'y'; 70];
    let rig = Rig::new(&long);
    let mut s = Link::new(MockSerial(rig.line.clone()));
    assert!(matches!(hc14_at_rs::serial::receive_string(&mut s), Err(Error::Overflow)));
    let rig = Rig::new(b"abc");
    let mut s = Link::new(MockSerial(rig.line.clone()));
    assert!(matches!(hc14_at_rs::serial::receive_string(&mut s), Err(Error::Read)));
}
