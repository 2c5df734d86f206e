use vstd::prelude::*;

use super::{
    framed_line, read_until_newline, sent_then_received, write_all, Configuration, DelayUs, Hc14,
    KeyLine, KeyPin, Link, Normal, PinCall, SerialPort, Timer, Transfer, SETTLE_DELAY_US,
};
use crate::serial::{str_bytes, until_nul, write_decimal, write_until_nul};
use crate::setting::decimal;
use crate::Error;

verus! {

impl<S: SerialPort, P: KeyPin, D: DelayUs> Hc14<S, P, D, Normal> {
    /// Builds a handle in normal mode: drives the key pin high, then waits
    /// for the module to settle. Fails with `Pin` if the pin could not be
    /// driven.
    pub fn new(serial: S, key_pin: P, delay: D) -> (r: Result<Self, Error>)
        ensures
            match r {
                Ok(h) => {
                    &&& h.port().transfers() == Seq::<Transfer>::empty()
                    &&& h.port().received() == Seq::<u8>::empty()
                    &&& h.port().sent() == Seq::<u8>::empty()
                    &&& h.port().failures() == 0
                    &&& *h.port().inner() == serial
                    &&& h.key_line().calls() == seq![PinCall::SetHigh { ok: true }]
                    &&& h.timer().waited() == SETTLE_DELAY_US
                    &&& !h.key_pin_low()
                },
                Err(e) => e == Error::Pin,
            },
    {
        let mut key = KeyLine::new(key_pin);
        let mut timer = Timer::new(delay);
        let at_off = key.set_high();
        timer.delay_us(SETTLE_DELAY_US);
        match at_off {
            Ok(_) => Ok(Hc14 { serial: Link::new(serial), key, timer, mode: Normal }),
            Err(_) => Err(Error::Pin),
        }
    }

    /// Switches to AT configuration mode: drives the key pin low, then waits
    /// for the module to settle. Fails with `Pin` if the pin could not be
    /// driven; the resources are then lost with the handle.
    pub fn into_configuration_mode(self) -> (r: Result<Hc14<S, P, D, Configuration>, Error>)
        ensures
            match r {
                Ok(h) => {
                    &&& h.port() == self.port()
                    &&& h.key_line().calls() == self.key_line().calls().push(
                        PinCall::SetLow { ok: true },
                    )
                    &&& h.timer().waited() == self.timer().waited() + SETTLE_DELAY_US
                    &&& h.key_pin_low()
                },
                Err(e) => e == Error::Pin,
            },
    {
        let mut key = self.key;
        let mut timer = self.timer;
        let at_on = key.set_low();
        timer.delay_us(SETTLE_DELAY_US);
        match at_on {
            Ok(_) => Ok(Hc14 { serial: self.serial, key, timer, mode: Configuration }),
            Err(_) => Err(Error::Pin),
        }
    }

    /// Gives back the serial port, the key pin and the delay source.
    pub fn release(self) -> (r: (S, P, D))
        ensures
            r.0 == *self.port().inner(),
            r.1 == *self.key_line().inner(),
            r.2 == *self.timer().inner(),
    {
        (self.serial.into_inner(), self.key.into_inner(), self.timer.into_inner())
    }

    /// Waits for the settle delay, then reads one line into `buffer`: up to
    /// and including the first line feed, or until the buffer is full.
    pub fn read_buffer<'a>(&mut self, buffer: &'a mut [u8]) -> (r: Result<&'a [u8], Error>)
        ensures
            r is Ok <==> final(self).port().failures() == old(self).port().failures(),
            final(self).key_line() == old(self).key_line(),
            final(self).timer().waited() == old(self).timer().waited() + SETTLE_DELAY_US,
            final(self).port().sent() == old(self).port().sent(),
            sent_then_received(old(self).port(), final(self).port()),
            final(buffer)@.len() == old(buffer)@.len(),
            match r {
                Ok(s) => {
                    &&& framed_line(s@, old(buffer)@.len() as nat)
                    &&& final(self).port().received() == old(self).port().received() + s@
                    &&& final(buffer)@.subrange(0, s@.len() as int) == s@
                    &&& final(buffer)@.subrange(s@.len() as int, old(buffer)@.len() as int) == old(
                        buffer,
                    )@.subrange(s@.len() as int, old(buffer)@.len() as int)
                },
                Err(e) => e == Error::Read,
            },
    {
        self.timer.delay_us(SETTLE_DELAY_US);
        let n = read_until_newline(&mut self.serial, buffer)?;
        let whole: &'a [u8] = buffer;
        Ok(vstd::slice::slice_subrange(whole, 0, n))
    }

    /// Sends one byte.
    pub fn send_byte(&mut self, word: u8) -> (r: Result<(), Error>)
        ensures
            r is Ok <==> final(self).port().failures() == old(self).port().failures(),
            final(self).key_line() == old(self).key_line(),
            final(self).timer() == old(self).timer(),
            final(self).port().received() == old(self).port().received(),
            sent_then_received(old(self).port(), final(self).port()),
            match r {
                Ok(_) => final(self).port().sent() == old(self).port().sent().push(word),
                Err(e) => e == Error::Write && final(self).port().sent() == old(self).port().sent(),
            },
    {
        match self.serial.write(word) {
            Ok(_) => Ok(()),
            Err(_) => Err(Error::Write),
        }
    }

    /// Sends the bytes of `words` up to its first NUL byte.
    pub fn send_string(&mut self, words: &str) -> (r: Result<(), Error>)
        ensures
            r is Ok <==> final(self).port().failures() == old(self).port().failures(),
            final(self).key_line() == old(self).key_line(),
            final(self).timer() == old(self).timer(),
            final(self).port().received() == old(self).port().received(),
            sent_then_received(old(self).port(), final(self).port()),
            match r {
                Ok(_) => final(self).port().sent() == old(self).port().sent() + until_nul(
                    str_bytes(words),
                ),
                Err(e) => e == Error::Write,
            },
    {
        write_until_nul(&mut self.serial, words)
    }

    /// Waits for the settle delay, then sends every byte of `buffer`,
    /// stopping at the first failure.
    pub fn send_buffer(&mut self, buffer: &[u8]) -> (r: Result<(), Error>)
        ensures
            r is Ok <==> final(self).port().failures() == old(self).port().failures(),
            final(self).key_line() == old(self).key_line(),
            final(self).timer().waited() == old(self).timer().waited() + SETTLE_DELAY_US,
            final(self).port().received() == old(self).port().received(),
            sent_then_received(old(self).port(), final(self).port()),
            match r {
                Ok(_) => final(self).port().sent() == old(self).port().sent() + buffer@,
                Err(e) => e == Error::Write,
            },
    {
        self.timer.delay_us(SETTLE_DELAY_US);
        write_all(&mut self.serial, buffer)
    }

    /// Sends `number` in base 10, most significant digit first.
    pub fn send_number(&mut self, number: u32) -> (r: Result<(), Error>)
        ensures
            r is Ok <==> final(self).port().failures() == old(self).port().failures(),
            final(self).key_line() == old(self).key_line(),
            final(self).timer() == old(self).timer(),
            final(self).port().received() == old(self).port().received(),
            sent_then_received(old(self).port(), final(self).port()),
            match r {
                Ok(_) => final(self).port().sent() == old(self).port().sent() + decimal(
                    number as nat,
                ),
                Err(e) => e == Error::Write,
            },
    {
        write_decimal(&mut self.serial, number)
    }
}

} // verus!
