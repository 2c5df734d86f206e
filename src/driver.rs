use vstd::prelude::*;

/// Operations of a handle in AT configuration mode.
pub mod configure;

/// Operations of a handle in normal (transparent relay) mode.
pub mod normal;

/// Recording wrappers around the serial port, the key pin and the delay source.
pub mod record;

pub use record::{
    added, ends_low, is_prefix, lemma_sent_then_received_chain, lemma_sent_then_received_none,
    receives, sends, sent_then_received, KeyLine, Link, PinCall, Timer, Transfer,
};

verus! {

/// Line feed, the last byte of every reply.
pub const LINE_FEED: u8 = 10;

/// Time the module needs to settle after the key pin changes level, in microseconds.
pub const SETTLE_DELAY_US: u32 = 100_000;

/// The module's serial line: a blocking duplex byte channel.
///
/// An implementation waits until the underlying channel is ready; an error
/// means the transfer failed.
pub trait SerialPort {
    /// Waits for the next byte and returns it.
    fn read(&mut self) -> Result<u8, ()>;

    /// Waits until `word` can be sent and sends it.
    fn write(&mut self, word: u8) -> Result<(), ()>;
}

/// The module's key pin: low selects AT configuration mode, high selects
/// normal mode.
pub trait KeyPin {
    /// Drives the pin low.
    fn set_low(&mut self) -> Result<(), ()>;

    /// Drives the pin high.
    fn set_high(&mut self) -> Result<(), ()>;
}

/// A blocking delay source.
pub trait DelayUs {
    /// Waits for `us` microseconds.
    fn delay_us(&mut self, us: u32);
}

/// Marker of a handle in normal mode.
#[derive(Debug)]
pub struct Normal;

/// Marker of a handle in AT configuration mode.
#[derive(Debug)]
pub struct Configuration;

/// HC-14 handle: owns the serial port, the key pin and the delay source.
/// The mode `M` is `Normal` or `Configuration`, and changes only by consuming
/// the handle. Every way to obtain a `Configuration` handle ends with the key
/// pin driven low, and every way to obtain a `Normal` handle with it driven
/// high; the other operations leave the pin alone.
pub struct Hc14<S, P, D, M> {
    serial: Link<S>,
    key: KeyLine<P>,
    timer: Timer<D>,
    mode: M,
}

impl<S, P, D, M> Hc14<S, P, D, M> {
    /// The serial port and what it has carried since the handle was built.
    pub closed spec fn port(self) -> Link<S> {
        self.serial
    }

    /// The key pin and the calls made on it since the handle was built.
    pub closed spec fn key_line(self) -> KeyLine<P> {
        self.key
    }

    /// The delay source and the time it has waited since the handle was built.
    pub closed spec fn timer(self) -> Timer<D> {
        self.timer
    }

    /// Whether the key pin was last driven low successfully.
    pub open spec fn key_pin_low(self) -> bool {
        self.key_line().is_low()
    }
}

/// `s` is what one line read into a buffer of `cap` bytes holds: reading
/// stops after the first line feed or when the buffer is full.
pub open spec fn framed_line(s: Seq<u8>, cap: nat) -> bool {
    &&& s.len() <= cap
    &&& forall|j: int| 0 <= j < s.len() - 1 ==> s[j] != LINE_FEED
    &&& (s.len() == cap || (s.len() > 0 && s[s.len() - 1] == LINE_FEED))
}

/// `after` extends `before` by bytes none of which is a line feed.
pub open spec fn extended_without_line_feed(before: Seq<u8>, after: Seq<u8>) -> bool {
    &&& before.len() <= after.len()
    &&& after.subrange(0, before.len() as int) == before
    &&& forall|j: int| before.len() <= j < after.len() ==> after[j] != LINE_FEED
}

/// Writes every byte of `bytes`, stopping at the first failure.
pub fn write_all<S: SerialPort>(serial: &mut Link<S>, bytes: &[u8]) -> (r: Result<(), crate::Error>)
    ensures
        final(serial).received() == old(serial).received(),
        sent_then_received(*old(serial), *final(serial)),
        r is Ok <==> final(serial).failures() == old(serial).failures(),
        match r {
            Ok(_) => final(serial).sent() == old(serial).sent() + bytes@,
            Err(e) => e == crate::Error::Write && final(serial).sent().len() < old(serial).sent().len() + bytes@.len(),
        },
{
    let ghost s0 = serial.sent();
    let ghost start = *serial;
    proof {
        lemma_sent_then_received_none(start);
    }
    let mut i: usize = 0;
    while i < bytes.len()
        invariant
            start == *old(serial),
            sent_then_received(start, *serial),
            i <= bytes@.len(),
            serial.received() == old(serial).received(),
            serial.sent() == s0 + bytes@.subrange(0, i as int),
            serial.failures() == old(serial).failures(),
            s0 == old(serial).sent(),
        decreases bytes@.len() - i,
    {
        let ghost prev = *serial;
        let res = serial.write(bytes[i]);
        proof {
            lemma_sent_then_received_chain(start, prev, *serial);
        }
        match res {
            Ok(_) => {
                assert(bytes@.subrange(0, i + 1) =~= bytes@.subrange(0, i as int).push(bytes@[i as int]));
            },
            Err(_) => {
                return Err(crate::Error::Write);
            },
        }
        i += 1;
    }
    assert(bytes@.subrange(0, bytes@.len() as int) =~= bytes@);
    Ok(())
}

/// Reads one line into `buffer`: byte by byte, up to and including the first
/// line feed, or until the buffer is full. Returns how many bytes were read.
pub fn read_until_newline<S: SerialPort>(serial: &mut Link<S>, buffer: &mut [u8]) -> (r: Result<usize, crate::Error>)
    ensures
        final(serial).sent() == old(serial).sent(),
        sent_then_received(*old(serial), *final(serial)),
        r is Ok <==> final(serial).failures() == old(serial).failures(),
        final(buffer)@.len() == old(buffer)@.len(),
        match r {
            Ok(n) => {
                &&& n <= old(buffer)@.len()
                &&& framed_line(final(buffer)@.subrange(0, n as int), old(buffer)@.len() as nat)
                &&& final(serial).received() == old(serial).received() + final(buffer)@.subrange(
                    0,
                    n as int,
                )
                &&& final(buffer)@.subrange(n as int, old(buffer)@.len() as int) == old(buffer)@.subrange(n as int, old(buffer)@.len() as int)
            },
            Err(e) => {
                &&& e == crate::Error::Read
                &&& extended_without_line_feed(old(serial).received(), final(serial).received())
                &&& final(serial).received().len() < old(serial).received().len() + old(buffer)@.len()
            },
        },
{
    let ghost r0 = serial.received();
    let ghost b0 = buffer@;
    let ghost start = *serial;
    proof {
        lemma_sent_then_received_none(start);
    }
    let mut count: usize = 0;
    while count < buffer.len()
        invariant
            start == *old(serial),
            sent_then_received(start, *serial),
            count <= buffer@.len(),
            buffer@.len() == b0.len(),
            b0 == old(buffer)@,
            r0 == old(serial).received(),
            serial.sent() == old(serial).sent(),
            serial.failures() == old(serial).failures(),
            serial.received() == r0 + buffer@.subrange(0, count as int),
            forall|j: int| 0 <= j < count ==> buffer@[j] != LINE_FEED,
            forall|j: int| count <= j < buffer@.len() ==> buffer@[j] == b0[j],
        decreases buffer@.len() - count,
    {
        let ghost before = *serial;
        let res = serial.read();
        proof {
            lemma_sent_then_received_chain(start, before, *serial);
        }
        match res {
            Ok(ch) => {
                let ghost prev = buffer@.subrange(0, count as int);
                buffer[count] = ch;
                assert(buffer@.subrange(0, count + 1) =~= prev.push(ch));
                count += 1;
                if ch == LINE_FEED {
                    assert(buffer@.subrange(count as int, buffer@.len() as int) =~= b0.subrange(
                        count as int,
                        b0.len() as int,
                    ));
                    return Ok(count);
                }
            },
            Err(_) => {
                proof {
                    let added = buffer@.subrange(0, count as int);
                    assert((r0 + added).subrange(0, r0.len() as int) =~= r0);
                    assert forall|j: int| r0.len() <= j < (r0 + added).len() implies (r0
                        + added)[j] != LINE_FEED by {
                        assert((r0 + added)[j] == buffer@[j - r0.len()]);
                    }
                }
                return Err(crate::Error::Read);
            },
        }
    }
    assert(buffer@.subrange(count as int, buffer@.len() as int) =~= b0.subrange(
        count as int,
        b0.len() as int,
    ));
    Ok(count)
}

} // verus!
