use vstd::prelude::*;

use super::{
    lemma_sent_then_received_chain, lemma_sent_then_received_none, sent_then_received, PinCall,
    extended_without_line_feed, framed_line, read_until_newline, write_all, Configuration, DelayUs, Hc14,
    KeyPin, Normal, SerialPort, LINE_FEED, SETTLE_DELAY_US,
};
use crate::conf::{
    AT_COMMAND_DEFAULT, AT_COMMAND_QUERY_ALL, AT_COMMAND_QUERY_MODE, AT_COMMAND_SET_CHANNEL,
    RESPONSE_OK, RESPONSE_RESET_SETTINGS,
};
use crate::parse::bytes_equal;
use crate::setting::channel::Channel;
use crate::setting::command::padded3;
use crate::setting::parameters::Parameters;
use crate::setting::GenerateAtCommand;
use crate::Error;

verus! {

/// Size of the slot that each field of the `AT+RX` reply is read into.
pub const FIELD_SLOT: usize = 16;

/// The lines of `l` one after the other.
pub open spec fn flatten(l: Seq<Seq<u8>>) -> Seq<u8>
    decreases l.len(),
{
    if l.len() == 0 {
        Seq::empty()
    } else {
        l[0] + flatten(l.drop_first())
    }
}

/// Each line of `l` is what one read into a field slot yields.
pub open spec fn all_framed(l: Seq<Seq<u8>>) -> bool {
    forall|i: int| 0 <= i < l.len() ==> framed_line(#[trigger] l[i], FIELD_SLOT as nat)
}

/// `after` extends `before` by the four lines in `l`, each of which is what
/// one read into a field slot yields.
pub open spec fn four_fields(before: Seq<u8>, after: Seq<u8>, l: Seq<Seq<u8>>) -> bool {
    &&& l.len() == 4
    &&& all_framed(l)
    &&& after == before + flatten(l)
}

proof fn lemma_flatten_push(l: Seq<Seq<u8>>, x: Seq<u8>)
    ensures
        flatten(l.push(x)) == flatten(l) + x,
    decreases l.len(),
{
    if l.len() == 0 {
        assert(l.push(x).drop_first() =~= Seq::<Seq<u8>>::empty());
        assert(flatten(l.push(x).drop_first()) == Seq::<u8>::empty());
        assert(l.push(x)[0] == x);
        assert(flatten(l.push(x)) =~= x);
    } else {
        assert(l.push(x).drop_first() =~= l.drop_first().push(x));
        lemma_flatten_push(l.drop_first(), x);
        assert(flatten(l.push(x)) =~= flatten(l) + x);
    }
}

/// A line that ends one read is fixed by the stream it starts.
proof fn lemma_line_unique(a: Seq<u8>, x: Seq<u8>, b: Seq<u8>, y: Seq<u8>, cap: nat)
    requires
        framed_line(a, cap),
        framed_line(b, cap),
        a + x == b + y,
    ensures
        a == b,
        x == y,
{
    let t = a + x;
    if a.len() < b.len() {
        assert(a[a.len() - 1] == LINE_FEED);
        assert(t[a.len() - 1] == a[a.len() - 1]);
        assert((b + y)[a.len() - 1] == b[a.len() - 1]);
        assert(b[a.len() - 1] != LINE_FEED);
    } else if b.len() < a.len() {
        assert(b[b.len() - 1] == LINE_FEED);
        assert((b + y)[b.len() - 1] == b[b.len() - 1]);
        assert(t[b.len() - 1] == a[b.len() - 1]);
        assert(a[b.len() - 1] != LINE_FEED);
    }
    assert(a.len() == b.len());
    assert forall|j: int| 0 <= j < a.len() implies a[j] == b[j] by {
        assert(t[j] == a[j]);
        assert((b + y)[j] == b[j]);
    }
    assert(a =~= b);
    assert(t.len() == (b + y).len());
    assert(x.len() == y.len());
    assert forall|j: int| 0 <= j < x.len() implies x[j] == y[j] by {
        assert(t[a.len() + j] == x[j]);
        assert((b + y)[b.len() + j] == y[j]);
    }
    assert(x =~= y);
}

/// Framed lines that make up the same stream are the same lines.
proof fn lemma_lines_unique(l: Seq<Seq<u8>>, m: Seq<Seq<u8>>)
    requires
        l.len() == m.len(),
        all_framed(l),
        all_framed(m),
        flatten(l) == flatten(m),
    ensures
        l == m,
    decreases l.len(),
{
    if l.len() > 0 {
        lemma_line_unique(
            l[0],
            flatten(l.drop_first()),
            m[0],
            flatten(m.drop_first()),
            FIELD_SLOT as nat,
        );
        assert forall|i: int| 0 <= i < l.len() - 1 implies framed_line(
            #[trigger] l.drop_first()[i],
            FIELD_SLOT as nat,
        ) by {
            assert(l.drop_first()[i] == l[i + 1]);
        }
        assert forall|i: int| 0 <= i < m.len() - 1 implies framed_line(
            #[trigger] m.drop_first()[i],
            FIELD_SLOT as nat,
        ) by {
            assert(m.drop_first()[i] == m[i + 1]);
        }
        lemma_lines_unique(l.drop_first(), m.drop_first());
        assert forall|i: int| 0 <= i < l.len() implies l[i] == m[i] by {
            if i > 0 {
                assert(l[i] == l.drop_first()[i - 1]);
                assert(m[i] == m.drop_first()[i - 1]);
            }
        }
        assert(l =~= m);
    }
}

/// More framed lines than were read in full cannot make up a stream that
/// ends in an interrupted read: fewer than a slot's bytes, none a line feed.
proof fn lemma_no_lines_after_partial(l: Seq<Seq<u8>>, m: Seq<Seq<u8>>, p: Seq<u8>)
    requires
        m.len() < l.len(),
        all_framed(l),
        all_framed(m),
        p.len() < FIELD_SLOT,
        forall|j: int| 0 <= j < p.len() ==> p[j] != LINE_FEED,
    ensures
        flatten(l) != flatten(m) + p,
    decreases m.len(),
{
    let a = l[0];
    let x = flatten(l.drop_first());
    assert(framed_line(a, FIELD_SLOT as nat));
    assert forall|i: int| 0 <= i < l.len() - 1 implies framed_line(
        #[trigger] l.drop_first()[i],
        FIELD_SLOT as nat,
    ) by {
        assert(l.drop_first()[i] == l[i + 1]);
    }
    if m.len() == 0 {
        assert(flatten(m) + p =~= p);
        if flatten(l) == p {
            assert(p[a.len() - 1] == (a + x)[a.len() - 1]);
        }
    } else {
        assert(flatten(m) + p =~= m[0] + (flatten(m.drop_first()) + p));
        assert forall|i: int| 0 <= i < m.len() - 1 implies framed_line(
            #[trigger] m.drop_first()[i],
            FIELD_SLOT as nat,
        ) by {
            assert(m.drop_first()[i] == m[i + 1]);
        }
        lemma_no_lines_after_partial(l.drop_first(), m.drop_first(), p);
        if flatten(l) == flatten(m) + p {
            lemma_line_unique(a, x, m[0], flatten(m.drop_first()) + p, FIELD_SLOT as nat);
        }
    }
}

/// After a read of field `m.len()` failed, no four lines make up what came in.
proof fn lemma_partial_read(r0: Seq<u8>, m: Seq<Seq<u8>>, rk: Seq<u8>, fin: Seq<u8>)
    requires
        m.len() < 4,
        all_framed(m),
        rk == r0 + flatten(m),
        extended_without_line_feed(rk, fin),
        fin.len() < rk.len() + FIELD_SLOT,
    ensures
        forall|l: Seq<Seq<u8>>| !#[trigger] four_fields(r0, fin, l),
{
    assert forall|l: Seq<Seq<u8>>| !#[trigger] four_fields(r0, fin, l) by {
        if four_fields(r0, fin, l) {
            let p = fin.subrange(rk.len() as int, fin.len() as int);
            assert(fin =~= rk + p);
            assert forall|j: int| 0 <= j < p.len() implies p[j] != LINE_FEED by {
                assert(p[j] == fin[rk.len() + j]);
            }
            assert((r0 + flatten(l)).subrange(r0.len() as int, fin.len() as int) =~= flatten(l));
            assert((r0 + (flatten(m) + p)).subrange(r0.len() as int, fin.len() as int) =~= flatten(
                m,
            ) + p);
            assert(r0 + (flatten(m) + p) =~= rk + p);
            lemma_no_lines_after_partial(l, m, p);
        }
    }
}

impl<S: SerialPort, P: KeyPin, D: DelayUs> Hc14<S, P, D, Configuration> {
    /// Switches to normal mode: drives the key pin high and waits for the
    /// module to settle. Fails with `Pin` if the pin could not be driven; the
    /// resources are then lost with the handle.
    pub fn into_normal_mode(self) -> (r: Result<Hc14<S, P, D, Normal>, Error>)
        ensures
            match r {
                Ok(h) => {
                    &&& h.port() == self.port()
                    &&& h.key_line().calls() == self.key_line().calls().push(
                        PinCall::SetHigh { ok: true },
                    )
                    &&& h.timer().waited() == self.timer().waited() + SETTLE_DELAY_US
                    &&& !h.key_pin_low()
                },
                Err(e) => e == Error::Pin,
            },
    {
        let mut key = self.key;
        let mut timer = self.timer;
        let at_off = key.set_high();
        timer.delay_us(SETTLE_DELAY_US);
        match at_off {
            Ok(_) => Ok(Hc14 { serial: self.serial, key, timer, mode: Normal }),
            Err(_) => Err(Error::Pin),
        }
    }

    /// Sends the `AT` probe and reads four bytes: true exactly when the probe
    /// went out and the module answered `OK\r\n`.
    pub fn is_at_mode(&mut self) -> (r: bool)
        ensures
            final(self).key_line() == old(self).key_line(),
            final(self).timer() == old(self).timer(),
            sent_then_received(old(self).port(), final(self).port()),
            r == (final(self).port().sent() == old(self).port().sent() + AT_COMMAND_QUERY_MODE@
                && final(self).port().received() == old(self).port().received() + RESPONSE_OK@),
            final(self).port().received().len() <= old(self).port().received().len() + 4,
            final(self).port().failures() == old(self).port().failures() ==> {
                &&& final(self).port().sent() == old(self).port().sent() + AT_COMMAND_QUERY_MODE@
                &&& final(self).port().received().len() == old(self).port().received().len() + 4
            },
    {
        let ghost r0 = self.serial.received();
        let ghost start = self.serial;
        if write_all(&mut self.serial, &AT_COMMAND_QUERY_MODE).is_err() {
            assert(RESPONSE_OK@.len() == 4);
            return false;
        }
        let mut buffer: [u8; 4] = [0u8; 4];
        let mut n: usize = 0;
        while n < 4
            invariant
                n <= 4,
                buffer@.len() == 4,
                self.key == old(self).key,
                self.timer == old(self).timer,
                start == old(self).serial,
                sent_then_received(start, self.serial),
                self.serial.sent() == old(self).serial.sent() + AT_COMMAND_QUERY_MODE@,
                self.serial.failures() == old(self).serial.failures(),
                self.serial.received() == r0 + buffer@.subrange(0, n as int),
                r0 == old(self).serial.received(),
            decreases 4 - n,
        {
            let ghost before = self.serial;
            let res = self.serial.read();
            proof {
                lemma_sent_then_received_chain(start, before, self.serial);
            }
            match res {
                Ok(ch) => {
                    let ghost prev = buffer@.subrange(0, n as int);
                    buffer[n] = ch;
                    assert(buffer@.subrange(0, n + 1) =~= prev.push(ch));
                    n += 1;
                },
                Err(_) => {
                    assert(RESPONSE_OK@.len() == 4);
                    assert(self.serial.received().len() < r0.len() + 4int);
                    return false;
                },
            }
        }
        assert(buffer@.subrange(0, 4) =~= buffer@);
        let ok = bytes_equal(buffer.as_slice(), &RESPONSE_OK);
        proof {
            if self.serial.received() == r0 + RESPONSE_OK@ {
                assert(buffer@ =~= (r0 + RESPONSE_OK@).subrange(r0.len() as int, r0.len() + 4int));
                assert(RESPONSE_OK@ =~= (r0 + RESPONSE_OK@).subrange(
                    r0.len() as int,
                    r0.len() + 4int,
                ));
            }
        }
        ok
    }

    /// Reads one line into `buffer`: up to and including the first line
    /// feed, or until the buffer is full.
    pub fn read_buffer<'a>(&mut self, buffer: &'a mut [u8]) -> (r: Result<&'a [u8], Error>)
        ensures
            r is Ok <==> final(self).port().failures() == old(self).port().failures(),
            final(self).key_line() == old(self).key_line(),
            final(self).timer() == old(self).timer(),
            sent_then_received(old(self).port(), final(self).port()),
            final(self).port().sent() == old(self).port().sent(),
            final(buffer)@.len() == old(buffer)@.len(),
            match r {
                Ok(s) => {
                    &&& framed_line(s@, old(buffer)@.len() as nat)
                    &&& final(self).port().received() == old(self).port().received() + s@
                    &&& final(buffer)@.subrange(0, s@.len() as int) == s@
                    &&& final(buffer)@.subrange(s@.len() as int, old(buffer)@.len() as int) == old(
                        buffer,
                    )@.subrange(s@.len() as int, old(buffer)@.len() as int)
                },
                Err(e) => e == Error::Read,
            },
    {
        let n = read_until_newline(&mut self.serial, buffer)?;
        let whole: &'a [u8] = buffer;
        Ok(vstd::slice::slice_subrange(whole, 0, n))
    }

    /// Sends one byte.
    pub fn send_byte(&mut self, word: u8) -> (r: Result<(), Error>)
        ensures
            r is Ok <==> final(self).port().failures() == old(self).port().failures(),
            final(self).key_line() == old(self).key_line(),
            final(self).timer() == old(self).timer(),
            sent_then_received(old(self).port(), final(self).port()),
            final(self).port().received() == old(self).port().received(),
            match r {
                Ok(_) => final(self).port().sent() == old(self).port().sent().push(word),
                Err(e) => e == Error::Write && final(self).port().sent() == old(self).port().sent(),
            },
    {
        match self.serial.write(word) {
            Ok(_) => Ok(()),
            Err(_) => Err(Error::Write),
        }
    }

    /// Sends every byte of `buffer`, stopping at the first failure.
    pub fn send_buffer(&mut self, buffer: &[u8]) -> (r: Result<(), Error>)
        ensures
            r is Ok <==> final(self).port().failures() == old(self).port().failures(),
            final(self).key_line() == old(self).key_line(),
            final(self).timer() == old(self).timer(),
            sent_then_received(old(self).port(), final(self).port()),
            final(self).port().received() == old(self).port().received(),
            match r {
                Ok(_) => final(self).port().sent() == old(self).port().sent() + buffer@,
                Err(e) => e == Error::Write,
            },
    {
        write_all(&mut self.serial, buffer)
    }

    /// Sends `command`, then reads the reply line into `buffer`.
    pub fn wirte_command<'a>(&mut self, command: &[u8], buffer: &'a mut [u8]) -> (r: Result<
        &'a [u8],
        Error,
    >)
        ensures
            r is Ok <==> final(self).port().failures() == old(self).port().failures(),
            final(self).key_line() == old(self).key_line(),
            final(self).timer() == old(self).timer(),
            sent_then_received(old(self).port(), final(self).port()),
            match r {
                Ok(s) => {
                    &&& final(self).port().sent() == old(self).port().sent() + command@
                    &&& framed_line(s@, old(buffer)@.len() as nat)
                    &&& final(self).port().received() == old(self).port().received() + s@
                    &&& final(buffer)@.len() == old(buffer)@.len()
                    &&& final(buffer)@.subrange(0, s@.len() as int) == s@
                    &&& final(buffer)@.subrange(s@.len() as int, old(buffer)@.len() as int) == old(
                        buffer,
                    )@.subrange(s@.len() as int, old(buffer)@.len() as int)
                },
                Err(e) => e == Error::Write || e == Error::Read,
            },
    {
        let ghost start = self.serial;
        self.send_buffer(command)?;
        let ghost mid = self.serial;
        let r = self.read_buffer(buffer);
        proof {
            lemma_sent_then_received_chain(start, mid, self.serial);
        }
        r
    }

    /// Restores the factory settings: sends `AT+DEFAULT` and reads a reply
    /// of at most 12 bytes. True exactly when the command went out and the
    /// module answered `OK+DEFAULT\r\n`.
    pub fn reset_settings(&mut self) -> (r: bool)
        ensures
            final(self).key_line() == old(self).key_line(),
            final(self).timer() == old(self).timer(),
            sent_then_received(old(self).port(), final(self).port()),
            r == (final(self).port().sent() == old(self).port().sent() + AT_COMMAND_DEFAULT@
                && final(self).port().received() == old(self).port().received()
                + RESPONSE_RESET_SETTINGS@),
            final(self).port().received().len() <= old(self).port().received().len() + 12,
            final(self).port().failures() == old(self).port().failures() ==> {
                &&& final(self).port().sent() == old(self).port().sent() + AT_COMMAND_DEFAULT@
                &&& old(self).port().received().len() <= final(self).port().received().len()
                &&& final(self).port().received().subrange(
                    0,
                    old(self).port().received().len() as int,
                ) == old(self).port().received()
                &&& framed_line(
                    final(self).port().received().subrange(
                        old(self).port().received().len() as int,
                        final(self).port().received().len() as int,
                    ),
                    12,
                )
            },
    {
        let ghost r0 = self.serial.received();
        let ghost start = self.serial;
        assert(RESPONSE_RESET_SETTINGS@.len() == 12);
        if write_all(&mut self.serial, &AT_COMMAND_DEFAULT).is_err() {
            return false;
        }
        let mut response: [u8; 12] = [0u8; 12];
        let ghost mid = self.serial;
        let res = read_until_newline(&mut self.serial, &mut response);
        proof {
            lemma_sent_then_received_chain(start, mid, self.serial);
        }
        let count = match res {
            Ok(n) => n,
            Err(_) => {
                proof {
                    let rcv = self.serial.received();
                    if rcv == r0 + RESPONSE_RESET_SETTINGS@ {
                        assert(rcv[r0.len() + 11int] == RESPONSE_RESET_SETTINGS@[11]);
                    }
                }
                return false;
            },
        };
        let line = vstd::slice::slice_subrange(response.as_slice(), 0, count);
        let ok = count == 12 && bytes_equal(line, &RESPONSE_RESET_SETTINGS);
        proof {
            let rcv = self.serial.received();
            if rcv == r0 + RESPONSE_RESET_SETTINGS@ {
                assert(line@ =~= rcv.subrange(r0.len() as int, rcv.len() as int));
                assert(RESPONSE_RESET_SETTINGS@ =~= rcv.subrange(r0.len() as int, rcv.len() as int));
            }
        }
        ok
    }

    /// Reads all settings: sends `AT+RX`, then reads the four reply lines
    /// (baud rate, channel, speed class, power) into 16-byte slots and parses
    /// them. `None` when the query could not be sent, a line could not be
    /// read, or any line fails to parse; partial results are never returned.
    pub fn get_parameters(&mut self) -> (r: Option<Parameters>)
        ensures
            final(self).key_line() == old(self).key_line(),
            final(self).timer() == old(self).timer(),
            sent_then_received(old(self).port(), final(self).port()),
            r matches Some(p) ==> {
                &&& final(self).port().sent() == old(self).port().sent() + AT_COMMAND_QUERY_ALL@
                &&& exists|l: Seq<Seq<u8>>|
                    {
                        &&& #[trigger] four_fields(
                            old(self).port().received(),
                            final(self).port().received(),
                            l,
                        )
                        &&& p.described_by(l[0], l[1], l[2], l[3])
                    }
            },
            (final(self).port().sent() == old(self).port().sent() + AT_COMMAND_QUERY_ALL@ && exists|
                l: Seq<Seq<u8>>,
            |
                {
                    &&& #[trigger] four_fields(
                        old(self).port().received(),
                        final(self).port().received(),
                        l,
                    )
                    &&& Parameters::replies_valid(l[0], l[1], l[2], l[3])
                }) ==> r is Some,
            final(self).port().received().len() <= old(self).port().received().len() + 4 * FIELD_SLOT,
            final(self).port().failures() == old(self).port().failures() ==> {
                &&& final(self).port().sent() == old(self).port().sent() + AT_COMMAND_QUERY_ALL@
                &&& exists|l: Seq<Seq<u8>>|
                    #[trigger] four_fields(
                        old(self).port().received(),
                        final(self).port().received(),
                        l,
                    )
            },
    {
        let ghost start = self.serial;
        if write_all(&mut self.serial, &AT_COMMAND_QUERY_ALL).is_err() {
            return None;
        }
        let ghost r0 = self.serial.received();
        let ghost mut rk = r0;
        let ghost mut lines: Seq<Seq<u8>> = Seq::empty();
        proof {
            assert(r0 + flatten(lines) =~= r0);
        }
        let mut f0: [u8; 16] = [0u8; 16];
        let mut f1: [u8; 16] = [0u8; 16];
        let mut f2: [u8; 16] = [0u8; 16];
        let mut f3: [u8; 16] = [0u8; 16];
        let ghost mid = self.serial;
        let res = read_until_newline(&mut self.serial, &mut f0);
        proof {
            lemma_sent_then_received_chain(start, mid, self.serial);
        }
        let n0 = match res {
            Ok(n) => n,
            Err(_) => {
                proof {
                    lemma_partial_read(r0, lines, rk, self.serial.received());
                }
                return None;
            },
        };
        proof {
            let line = f0@.subrange(0, n0 as int);
            let prev = rk;
            lemma_flatten_push(lines, line);
            lines = lines.push(line);
            rk = self.serial.received();
            assert(rk == prev + line);
            assert(rk =~= r0 + flatten(lines));
            assert forall|i: int| 0 <= i < lines.len() implies framed_line(
                #[trigger] lines[i],
                FIELD_SLOT as nat,
            ) by {
                if i == lines.len() - 1 {
                    assert(lines[i] == line);
                }
            }
        }
        let ghost mid = self.serial;
        let res = read_until_newline(&mut self.serial, &mut f1);
        proof {
            lemma_sent_then_received_chain(start, mid, self.serial);
        }
        let n1 = match res {
            Ok(n) => n,
            Err(_) => {
                proof {
                    lemma_partial_read(r0, lines, rk, self.serial.received());
                }
                return None;
            },
        };
        proof {
            let line = f1@.subrange(0, n1 as int);
            let prev = rk;
            lemma_flatten_push(lines, line);
            lines = lines.push(line);
            rk = self.serial.received();
            assert(rk == prev + line);
            assert(rk =~= r0 + flatten(lines));
            assert forall|i: int| 0 <= i < lines.len() implies framed_line(
                #[trigger] lines[i],
                FIELD_SLOT as nat,
            ) by {
                if i == lines.len() - 1 {
                    assert(lines[i] == line);
                }
            }
        }
        let ghost mid = self.serial;
        let res = read_until_newline(&mut self.serial, &mut f2);
        proof {
            lemma_sent_then_received_chain(start, mid, self.serial);
        }
        let n2 = match res {
            Ok(n) => n,
            Err(_) => {
                proof {
                    lemma_partial_read(r0, lines, rk, self.serial.received());
                }
                return None;
            },
        };
        proof {
            let line = f2@.subrange(0, n2 as int);
            let prev = rk;
            lemma_flatten_push(lines, line);
            lines = lines.push(line);
            rk = self.serial.received();
            assert(rk == prev + line);
            assert(rk =~= r0 + flatten(lines));
            assert forall|i: int| 0 <= i < lines.len() implies framed_line(
                #[trigger] lines[i],
                FIELD_SLOT as nat,
            ) by {
                if i == lines.len() - 1 {
                    assert(lines[i] == line);
                }
            }
        }
        let ghost mid = self.serial;
        let res = read_until_newline(&mut self.serial, &mut f3);
        proof {
            lemma_sent_then_received_chain(start, mid, self.serial);
        }
        let n3 = match res {
            Ok(n) => n,
            Err(_) => {
                proof {
                    lemma_partial_read(r0, lines, rk, self.serial.received());
                }
                return None;
            },
        };
        proof {
            let line = f3@.subrange(0, n3 as int);
            let prev = rk;
            lemma_flatten_push(lines, line);
            lines = lines.push(line);
            rk = self.serial.received();
            assert(rk == prev + line);
            assert(rk =~= r0 + flatten(lines));
            assert forall|i: int| 0 <= i < lines.len() implies framed_line(
                #[trigger] lines[i],
                FIELD_SLOT as nat,
            ) by {
                if i == lines.len() - 1 {
                    assert(lines[i] == line);
                }
            }
        }
        let baud = vstd::slice::slice_subrange(f0.as_slice(), 0, n0);
        let channel = vstd::slice::slice_subrange(f1.as_slice(), 0, n1);
        let speed = vstd::slice::slice_subrange(f2.as_slice(), 0, n2);
        let power = vstd::slice::slice_subrange(f3.as_slice(), 0, n3);
        let r = Parameters::from_responses(baud, channel, speed, power);
        proof {
            assert(lines[0] == baud@ && lines[1] == channel@ && lines[2] == speed@ && lines[3]
                == power@);
            assert(four_fields(r0, rk, lines));
            assert(r0 == old(self).port().received());
            assert(rk == self.port().received());
            if let Some(p) = r {
                assert(p.described_by(lines[0], lines[1], lines[2], lines[3]));
                assert(exists|l: Seq<Seq<u8>>|
                    #[trigger] four_fields(r0, rk, l) && p.described_by(l[0], l[1], l[2], l[3]));
            }
            assert forall|l: Seq<Seq<u8>>| #[trigger] four_fields(r0, rk, l) implies l == lines by {
                assert((r0 + flatten(l)).subrange(r0.len() as int, rk.len() as int) =~= flatten(l));
                assert((r0 + flatten(lines)).subrange(r0.len() as int, rk.len() as int)
                    =~= flatten(lines));
                lemma_lines_unique(l, lines);
            }
        }
        r
    }

    /// Tunes to channel `channel_number`: sends `AT+C` with the number as
    /// three zero-padded digits, then reads the reply line into `buffer`.
    /// Fails with `InvalidChannel` outside 1..=50, before sending anything.
    pub fn wirte_set_channel<'a>(&mut self, channel_number: i32, buffer: &'a mut [u8]) -> (r:
        Result<&'a [u8], Error>)
        ensures
            final(self).key_line() == old(self).key_line(),
            final(self).timer() == old(self).timer(),
            sent_then_received(old(self).port(), final(self).port()),
            (r == Err::<&[u8], Error>(Error::InvalidChannel)) <==> !(1 <= channel_number <= 50),
            1 <= channel_number <= 50 ==> (r is Ok <==> final(self).port().failures() == old(
                self,
            ).port().failures()),
            match r {
                Ok(s) => {
                    &&& final(self).port().sent() == old(self).port().sent()
                        + AT_COMMAND_SET_CHANNEL@ + padded3(channel_number as int)
                    &&& framed_line(s@, old(buffer)@.len() as nat)
                    &&& final(self).port().received() == old(self).port().received() + s@
                    &&& final(buffer)@.subrange(0, s@.len() as int) == s@
                },
                Err(e) => e == Error::InvalidChannel || e == Error::Write || e == Error::Read,
            },
    {
        proof {
            lemma_sent_then_received_none(self.serial);
        }
        if channel_number < 1 || channel_number > 50 {
            return Err(Error::InvalidChannel);
        }
        let channel = match Channel::new(channel_number as u8) {
            Some(c) => c,
            None => return Err(Error::InvalidChannel),
        };
        let mut channel_command: [u8; 7] = [0u8; 7];
        let command = channel.make_command_buf(&mut channel_command);
        self.wirte_command(command, buffer)
    }
}

} // verus!
