use vstd::prelude::*;

use crate::driver::{
    added, lemma_sent_then_received_chain, lemma_sent_then_received_none, sent_then_received,
    write_all, Link, SerialPort, LINE_FEED,
};
use crate::setting::decimal;
use crate::Error;

verus! {

/// 10 to the power `k`.
pub open spec fn pow10(k: nat) -> nat
    decreases k,
{
    if k == 0 {
        1
    } else {
        10 * pow10((k - 1) as nat)
    }
}

/// The UTF-8 bytes of `s`.
pub open spec fn str_bytes(s: &str) -> Seq<u8> {
    <str as vstd::string::StringSliceAdditionalSpecFns>::spec_bytes(s)
}

/// The bytes of `s` before its first NUL byte (all of `s` if it has none).
pub open spec fn until_nul(s: Seq<u8>) -> Seq<u8>
    decreases s.len(),
{
    if s.len() == 0 || s[0] == 0 {
        Seq::empty()
    } else {
        seq![s[0]] + until_nul(s.drop_first())
    }
}

/// Number of one bits in `b`.
pub open spec fn ones(b: nat) -> nat
    decreases b,
{
    if b == 0 {
        0
    } else {
        b % 2 + ones(b / 2)
    }
}

proof fn lemma_until_nul(s: Seq<u8>, n: int)
    requires
        0 <= n <= s.len(),
        forall|j: int| 0 <= j < n ==> #[trigger] s[j] != 0,
        n == s.len() || s[n] == 0,
    ensures
        until_nul(s) == s.subrange(0, n),
    decreases n,
{
    if n == 0 {
        assert(s.subrange(0, 0) =~= Seq::<u8>::empty());
    } else {
        let t = s.drop_first();
        assert forall|j: int| 0 <= j < n - 1 implies #[trigger] t[j] != 0 by {
            assert(t[j] == s[j + 1]);
        }
        if n < s.len() {
            assert(t[n - 1] == s[n]);
        }
        lemma_until_nul(t, n - 1);
        assert(seq![s[0]] + t.subrange(0, n - 1) =~= s.subrange(0, n));
    }
}

/// Renders `number` in base 10 into the tail of `scratch`, peeling the least
/// significant digit first. Returns where the digits start.
pub fn decimal_digits(number: u32, scratch: &mut [u8]) -> (start: usize)
    requires
        old(scratch)@.len() == 10,
    ensures
        start < 10,
        final(scratch)@.len() == 10,
        final(scratch)@.subrange(start as int, 10) == decimal(number as nat),
{
    proof {
        reveal_with_fuel(pow10, 11);
    }
    let mut n: u32 = number;
    let mut pos: usize = 10;
    loop
        invariant
            scratch@.len() == 10,
            pos <= 10,
            n < pow10(pos as nat),
            pos == 10 || n >= 1,
            decimal(number as nat) == decimal(n as nat) + scratch@.subrange(pos as int, 10),
        decreases pos,
    {
        let ghost tail = scratch@.subrange(pos as int, 10);
        assert(pos >= 1);
        pos -= 1;
        scratch[pos] = (n % 10) as u8 + 48;
        assert(scratch@.subrange(pos as int, 10) =~= seq![scratch@[pos as int]] + tail);
        if n < 10 {
            return pos;
        }
        assert(decimal(n as nat) == decimal((n / 10) as nat).push((48 + n % 10) as u8));
        assert(decimal(n as nat) + tail =~= decimal((n / 10) as nat) + scratch@.subrange(
            pos as int,
            10,
        ));
        n = n / 10;
    }
}

/// Writes the bytes of `words` up to its first NUL byte.
pub fn write_until_nul<S: SerialPort>(serial: &mut Link<S>, words: &str) -> (r: Result<(), Error>)
    ensures
        sent_then_received(*old(serial), *final(serial)),
        r is Ok <==> final(serial).failures() == old(serial).failures(),
        final(serial).received() == old(serial).received(),
        match r {
            Ok(_) => final(serial).sent() == old(serial).sent() + until_nul(str_bytes(words)),
            Err(e) => e == Error::Write,
        },
{
    let bytes = words.as_bytes();
    let ghost s0 = serial.sent();
    let ghost start = *serial;
    proof {
        lemma_sent_then_received_none(start);
    }
    let mut i: usize = 0;
    while i < bytes.len() && bytes[i] != 0
        invariant
            start == *old(serial),
            sent_then_received(start, *serial),
            i <= bytes@.len(),
            bytes@ == str_bytes(words),
            forall|j: int| 0 <= j < i ==> #[trigger] bytes@[j] != 0,
            serial.received() == old(serial).received(),
            serial.failures() == old(serial).failures(),
            s0 == old(serial).sent(),
            serial.sent() == s0 + bytes@.subrange(0, i as int),
        decreases bytes@.len() - i,
    {
        let ghost prev = *serial;
        let res = serial.write(bytes[i]);
        proof {
            lemma_sent_then_received_chain(start, prev, *serial);
        }
        match res {
            Ok(_) => {
                assert(bytes@.subrange(0, i + 1) =~= bytes@.subrange(0, i as int).push(bytes@[i as int]));
            },
            Err(_) => {
                return Err(Error::Write);
            },
        }
        i += 1;
    }
    proof {
        lemma_until_nul(bytes@, i as int);
    }
    Ok(())
}

/// Writes `number` in base 10, most significant digit first.
pub fn write_decimal<S: SerialPort>(serial: &mut Link<S>, number: u32) -> (r: Result<(), Error>)
    ensures
        sent_then_received(*old(serial), *final(serial)),
        r is Ok <==> final(serial).failures() == old(serial).failures(),
        final(serial).received() == old(serial).received(),
        match r {
            Ok(_) => final(serial).sent() == old(serial).sent() + decimal(number as nat),
            Err(e) => e == Error::Write,
        },
{
    let mut scratch: [u8; 10] = [0u8; 10];
    let start = decimal_digits(number, &mut scratch);
    let digits = vstd::slice::slice_subrange(scratch.as_slice(), start, 10);
    match write_all(serial, digits) {
        Ok(_) => Ok(()),
        Err(_) => Err(Error::Write),
    }
}

/// Sends one byte.
pub fn send_byte<S: SerialPort>(tx: &mut Link<S>, word: u8) -> (r: Result<(), Error>)
    ensures
        sent_then_received(*old(tx), *final(tx)),
        r is Ok <==> final(tx).failures() == old(tx).failures(),
        final(tx).received() == old(tx).received(),
        match r {
            Ok(_) => final(tx).sent() == old(tx).sent().push(word),
            Err(e) => e == Error::Write && final(tx).sent() == old(tx).sent(),
        },
{
    match tx.write(word) {
        Ok(_) => Ok(()),
        Err(_) => Err(Error::Write),
    }
}

/// Sends every byte of `words`, stopping at the first failure.
pub fn send_bytes<S: SerialPort>(tx: &mut Link<S>, words: &[u8]) -> (r: Result<(), Error>)
    ensures
        sent_then_received(*old(tx), *final(tx)),
        r is Ok <==> final(tx).failures() == old(tx).failures(),
        final(tx).received() == old(tx).received(),
        match r {
            Ok(_) => final(tx).sent() == old(tx).sent() + words@,
            Err(e) => e == Error::Write,
        },
{
    write_all(tx, words)
}

/// Sends the bytes of `words` up to its first NUL byte.
pub fn send_string<S: SerialPort>(tx: &mut Link<S>, words: &str) -> (r: Result<(), Error>)
    ensures
        sent_then_received(*old(tx), *final(tx)),
        r is Ok <==> final(tx).failures() == old(tx).failures(),
        final(tx).received() == old(tx).received(),
        match r {
            Ok(_) => final(tx).sent() == old(tx).sent() + until_nul(str_bytes(words)),
            Err(e) => e == Error::Write,
        },
{
    write_until_nul(tx, words)
}

/// Sends `number` in base 10, most significant digit first.
pub fn send_number<S: SerialPort>(tx: &mut Link<S>, number: u32) -> (r: Result<(), Error>)
    ensures
        sent_then_received(*old(tx), *final(tx)),
        r is Ok <==> final(tx).failures() == old(tx).failures(),
        final(tx).received() == old(tx).received(),
        match r {
            Ok(_) => final(tx).sent() == old(tx).sent() + decimal(number as nat),
            Err(e) => e == Error::Write,
        },
{
    write_decimal(tx, number)
}

/// One step of receiving a line whose line feed is not kept and whose bytes
/// beyond the end of `buffer` are dropped. Given how many bytes are stored and
/// the next byte received, returns the new count, or `None` when the byte is
/// the line feed that ends the line.
pub fn receive_step(buffer: &mut [u8], stored: usize, byte: u8) -> (r: Option<usize>)
    requires
        stored <= old(buffer)@.len(),
    ensures
        byte == LINE_FEED ==> r is None && final(buffer)@ == old(buffer)@,
        byte != LINE_FEED && stored < old(buffer)@.len() ==> r == Some((stored + 1) as usize)
            && final(buffer)@ == old(buffer)@.update(stored as int, byte),
        byte != LINE_FEED && stored == old(buffer)@.len() ==> r == Some(stored) && final(buffer)@
            == old(buffer)@,
{
    if byte == LINE_FEED {
        return None;
    }
    if stored < buffer.len() {
        buffer[stored] = byte;
        Some(stored + 1)
    } else {
        Some(stored)
    }
}

#[verifier::external_type_specification]
#[verifier::external_body]
pub struct ExHeaplessString<const N: usize>(heapless::String<N>);

/// The characters that a 64-byte heapless string holds, in order.
pub uninterp spec fn line_chars(s: heapless::String<64>) -> Seq<char>;

/// Relies on heapless::String::new: the new string holds no character.
#[verifier::external_body]
fn empty_line() -> (r: heapless::String<64>)
    ensures
        line_chars(r) == Seq::<char>::empty(),
{
    heapless::String::new()
}

/// Relies on heapless::String::push: on success `c` is appended; on failure
/// (no room for its UTF-8 bytes) the string is left as it was.
#[verifier::external_body]
fn push_char(s: &mut heapless::String<64>, c: char) -> (r: Result<(), ()>)
    ensures
        match r {
            Ok(_) => line_chars(*final(s)) == line_chars(*old(s)).push(c),
            Err(_) => line_chars(*final(s)) == line_chars(*old(s)),
        },
{
    s.push(c)
}

/// Each byte of `s` read as the character with that code.
pub open spec fn bytes_as_chars(s: Seq<u8>) -> Seq<char> {
    Seq::new(s.len(), |i: int| s[i] as char)
}

/// Receives a line as a string of at most 64 bytes, each byte taken as the
/// character with that code, without its line feed. Fails with `Overflow`
/// when a 65th byte arrives before the line feed, or when a character does
/// not fit, and with `Read` when a read fails.
pub fn receive_string<S: SerialPort>(rx: &mut Link<S>) -> (r: Result<heapless::String<64>, Error>)
    ensures
        final(rx).sent() == old(rx).sent(),
        sent_then_received(*old(rx), *final(rx)),
        (r == Err::<heapless::String<64>, Error>(Error::Read)) <==> final(rx).failures() != old(
            rx,
        ).failures(),
        final(rx).received().len() <= old(rx).received().len() + 65,
        match r {
            Ok(s) => {
                let line = added(old(rx).received(), final(rx).received());
                &&& line.len() > 0
                &&& line.last() == LINE_FEED
                &&& forall|j: int| 0 <= j < line.len() - 1 ==> line[j] != LINE_FEED
                &&& line_chars(s) == bytes_as_chars(line.drop_last())
            },
            Err(e) => e == Error::Read || e == Error::Overflow,
        },
{
    let ghost start = *rx;
    let ghost r0 = rx.received();
    proof {
        lemma_sent_then_received_none(start);
    }
    let mut s = empty_line();
    let mut count: usize = 0;
    let ghost mut got: Seq<u8> = Seq::empty();
    while count < 65
        invariant
            start == *old(rx),
            r0 == old(rx).received(),
            sent_then_received(start, *rx),
            rx.sent() == old(rx).sent(),
            rx.failures() == old(rx).failures(),
            count <= 65,
            got.len() == count,
            rx.received() == r0 + got,
            forall|j: int| 0 <= j < got.len() ==> got[j] != LINE_FEED,
            line_chars(s) == bytes_as_chars(got),
        decreases 65 - count,
    {
        let ghost before = *rx;
        let res = rx.read();
        proof {
            lemma_sent_then_received_chain(start, before, *rx);
        }
        let w = match res {
            Ok(w) => w,
            Err(_) => return Err(Error::Read),
        };
        if w == LINE_FEED {
            proof {
                let line = added(r0, rx.received());
                assert(line =~= got.push(w));
                assert(line.drop_last() =~= got);
            }
            return Ok(s);
        }
        if count == 64 {
            return Err(Error::Overflow);
        }
        match push_char(&mut s, w as char) {
            Ok(_) => {},
            Err(_) => return Err(Error::Overflow),
        }
        proof {
            assert(bytes_as_chars(got.push(w)) =~= bytes_as_chars(got).push(w as char));
            got = got.push(w);
        }
        count += 1;
    }
    Err(Error::Overflow)
}

/// Sets the low bit of `byte` when it holds an even number of one bits, so
/// that the result has odd parity in the usual case.
pub fn odd_parity(byte: u8) -> (r: u8)
    ensures
        r == (if ones(byte as nat) % 2 == 0 {
            byte | 1
        } else {
            byte
        }),
{
    let count = count_ones(byte);
    if count % 2 == 0 {
        byte | 1
    } else {
        byte
    }
}

/// Sets the low bit of `byte` when it holds an odd number of one bits, so
/// that the result has even parity in the usual case.
pub fn even_parity(byte: u8) -> (r: u8)
    ensures
        r == (if ones(byte as nat) % 2 == 0 {
            byte
        } else {
            byte | 1
        }),
{
    let count = count_ones(byte);
    if count % 2 == 0 {
        byte
    } else {
        byte | 1
    }
}

/// Number of one bits in `byte`.
fn count_ones(byte: u8) -> (r: u8)
    ensures
        r == ones(byte as nat),
{
    proof {
        lemma_ones_le(byte as nat);
    }
    let mut count: u8 = 0;
    let mut data: u8 = byte;
    while data > 0
        invariant
            count + ones(data as nat) == ones(byte as nat),
            ones(data as nat) <= data,
            ones(byte as nat) <= 255,
        decreases data,
    {
        assert(data & 1 == data % 2) by (bit_vector);
        assert(data >> 1 == data / 2) by (bit_vector);
        proof {
            lemma_ones_le((data / 2) as nat);
            assert(ones(data as nat) == (data as nat) % 2 + ones((data as nat) / 2));
        }
        count += data & 1;
        data >>= 1;
    }
    count
}

proof fn lemma_ones_le(b: nat)
    ensures
        ones(b) <= b,
    decreases b,
{
    if b > 0 {
        lemma_ones_le(b / 2);
    }
}

} // verus!
