use vstd::prelude::*;

use super::{DelayUs, KeyPin, SerialPort};

verus! {

/// One transfer on the serial line.
#[derive(Debug, Clone, Copy, PartialEq, Eq, Structural)]
pub enum Transfer {
    /// A byte was sent.
    Sent(u8),
    /// A byte was received.
    Received(u8),
}

/// One call on the key pin, with whether it succeeded.
#[derive(Debug, Clone, Copy, PartialEq, Eq, Structural)]
pub enum PinCall {
    /// The pin was driven low.
    SetLow { ok: bool },
    /// The pin was driven high.
    SetHigh { ok: bool },
}

/// The transfers that send `s`, in order.
pub open spec fn sends(s: Seq<u8>) -> Seq<Transfer> {
    Seq::new(s.len(), |i: int| Transfer::Sent(s[i]))
}

/// The transfers that receive `s`, in order.
pub open spec fn receives(s: Seq<u8>) -> Seq<Transfer> {
    Seq::new(s.len(), |i: int| Transfer::Received(s[i]))
}

/// `a` is a prefix of `b`.
pub open spec fn is_prefix(a: Seq<u8>, b: Seq<u8>) -> bool {
    a.len() <= b.len() && b.subrange(0, a.len() as int) == a
}

/// The bytes of `b` after its first `a.len()` bytes.
pub open spec fn added(a: Seq<u8>, b: Seq<u8>) -> Seq<u8> {
    b.subrange(a.len() as int, b.len() as int)
}

/// Whether the last successful call in `calls` drove the pin low.
pub open spec fn ends_low(calls: Seq<PinCall>) -> bool
    decreases calls.len(),
{
    if calls.len() == 0 {
        false
    } else {
        match calls.last() {
            PinCall::SetLow { ok: true } => true,
            PinCall::SetHigh { ok: true } => false,
            _ => ends_low(calls.drop_last()),
        }
    }
}

/// A serial port together with a record of what it has carried since it was
/// wrapped: every transfer in order, the bytes received and the bytes sent,
/// and the number of transfers that failed. Only the port's own calls, made
/// through `read` and `write`, change the record.
pub struct Link<S> {
    port: S,
    log: Ghost<Seq<Transfer>>,
    rx: Ghost<Seq<u8>>,
    tx: Ghost<Seq<u8>>,
    failed: Ghost<nat>,
}

impl<S> Link<S> {
    /// Every successful transfer so far, oldest first.
    pub closed spec fn transfers(&self) -> Seq<Transfer> {
        self.log@
    }

    /// Every byte received so far, oldest first.
    pub closed spec fn received(&self) -> Seq<u8> {
        self.rx@
    }

    /// Every byte sent so far, oldest first.
    pub closed spec fn sent(&self) -> Seq<u8> {
        self.tx@
    }

    /// Number of reads and writes that failed so far.
    pub closed spec fn failures(&self) -> nat {
        self.failed@
    }

    /// The wrapped port.
    pub closed spec fn inner(&self) -> &S {
        &self.port
    }
}

/// Between `before` and `after` the link sent some bytes and then received
/// some bytes: the record of transfers grew by the bytes sent, in order,
/// followed by the bytes received, in order.
pub open spec fn sent_then_received<S>(before: Link<S>, after: Link<S>) -> bool {
    &&& is_prefix(before.sent(), after.sent())
    &&& is_prefix(before.received(), after.received())
    &&& after.transfers() == before.transfers() + sends(added(before.sent(), after.sent()))
        + receives(added(before.received(), after.received()))
}

proof fn lemma_added_concat(a: Seq<u8>, b: Seq<u8>, c: Seq<u8>)
    requires
        is_prefix(a, b),
        is_prefix(b, c),
    ensures
        is_prefix(a, c),
        added(a, c) == added(a, b) + added(b, c),
{
    assert forall|j: int| 0 <= j < b.len() implies c[j] == b[j] by {
        assert(c.subrange(0, b.len() as int)[j] == c[j]);
    }
    assert forall|j: int| 0 <= j < a.len() implies b[j] == a[j] by {
        assert(b.subrange(0, a.len() as int)[j] == b[j]);
    }
    assert(c.subrange(0, a.len() as int) =~= a);
    assert(added(a, c) =~= added(a, b) + added(b, c));
}

/// A phase that only sends, or that follows a phase that only sent, joins the
/// phase before it into one phase of sending then receiving.
pub proof fn lemma_sent_then_received_chain<S>(x: Link<S>, y: Link<S>, z: Link<S>)
    requires
        sent_then_received(x, y),
        sent_then_received(y, z),
        y.received() == x.received() || z.sent() == y.sent(),
    ensures
        sent_then_received(x, z),
{
    lemma_added_concat(x.sent(), y.sent(), z.sent());
    lemma_added_concat(x.received(), y.received(), z.received());
    let s1 = added(x.sent(), y.sent());
    let s2 = added(y.sent(), z.sent());
    let r1 = added(x.received(), y.received());
    let r2 = added(y.received(), z.received());
    if z.sent() == y.sent() {
        assert(s2 =~= Seq::<u8>::empty());
        assert(sends(s2) =~= Seq::<Transfer>::empty());
        assert(receives(r1 + r2) =~= receives(r1) + receives(r2));
        assert(s1 + s2 =~= s1);
        assert(z.transfers() =~= x.transfers() + sends(s1 + s2) + receives(r1 + r2));
    } else {
        assert(r1 =~= Seq::<u8>::empty());
        assert(receives(r1) =~= Seq::<Transfer>::empty());
        assert(sends(s1 + s2) =~= sends(s1) + sends(s2));
        assert(r1 + r2 =~= r2);
        assert(z.transfers() =~= x.transfers() + sends(s1 + s2) + receives(r1 + r2));
    }
}

/// Nothing carried is a phase of sending then receiving.
pub proof fn lemma_sent_then_received_none<S>(x: Link<S>)
    ensures
        sent_then_received(x, x),
{
    assert(x.sent().subrange(0, x.sent().len() as int) =~= x.sent());
    assert(x.received().subrange(0, x.received().len() as int) =~= x.received());
    assert(sends(added(x.sent(), x.sent())) =~= Seq::<Transfer>::empty());
    assert(receives(added(x.received(), x.received())) =~= Seq::<Transfer>::empty());
    assert(x.transfers() =~= x.transfers() + Seq::<Transfer>::empty() + Seq::<Transfer>::empty());
}

impl<S: SerialPort> Link<S> {
    /// Wraps `port`; nothing has been carried yet.
    pub fn new(port: S) -> (r: Self)
        ensures
            r.transfers() == Seq::<Transfer>::empty(),
            r.received() == Seq::<u8>::empty(),
            r.sent() == Seq::<u8>::empty(),
            r.failures() == 0,
            *r.inner() == port,
    {
        Link {
            port,
            log: Ghost(Seq::empty()),
            rx: Ghost(Seq::empty()),
            tx: Ghost(Seq::empty()),
            failed: Ghost(0),
        }
    }

    /// Gives back the wrapped port.
    pub fn into_inner(self) -> (r: S)
        ensures
            r == *self.inner(),
    {
        self.port
    }

    /// Waits for the next byte and returns it.
    pub fn read(&mut self) -> (r: Result<u8, ()>)
        ensures
            final(self).sent() == old(self).sent(),
            sent_then_received(*old(self), *final(self)),
            match r {
                Ok(b) => {
                    &&& final(self).received() == old(self).received().push(b)
                    &&& final(self).transfers() == old(self).transfers().push(Transfer::Received(b))
                    &&& final(self).failures() == old(self).failures()
                },
                Err(_) => {
                    &&& final(self).received() == old(self).received()
                    &&& final(self).transfers() == old(self).transfers()
                    &&& final(self).failures() == old(self).failures() + 1
                },
            },
    {
        let r = self.port.read();
        match r {
            Ok(b) => {
                self.rx = Ghost(self.rx@.push(b));
                self.log = Ghost(self.log@.push(Transfer::Received(b)));
            },
            Err(_) => {
                self.failed = Ghost(self.failed@ + 1);
            },
        }
        proof {
            let x = *old(self);
            assert(x.sent().subrange(0, x.sent().len() as int) =~= x.sent());
            assert(self.received().subrange(0, x.received().len() as int) =~= x.received());
            assert(sends(added(x.sent(), self.sent())) =~= Seq::<Transfer>::empty());
            if let Ok(b) = r {
                assert(receives(added(x.received(), self.received())) =~= seq![Transfer::Received(b)]);
            } else {
                assert(receives(added(x.received(), self.received())) =~= Seq::<Transfer>::empty());
            }
            assert(self.transfers() =~= x.transfers() + sends(added(x.sent(), self.sent()))
                + receives(added(x.received(), self.received())));
        }
        r
    }

    /// Waits until `word` can be sent and sends it.
    pub fn write(&mut self, word: u8) -> (r: Result<(), ()>)
        ensures
            final(self).received() == old(self).received(),
            sent_then_received(*old(self), *final(self)),
            match r {
                Ok(_) => {
                    &&& final(self).sent() == old(self).sent().push(word)
                    &&& final(self).transfers() == old(self).transfers().push(Transfer::Sent(word))
                    &&& final(self).failures() == old(self).failures()
                },
                Err(_) => {
                    &&& final(self).sent() == old(self).sent()
                    &&& final(self).transfers() == old(self).transfers()
                    &&& final(self).failures() == old(self).failures() + 1
                },
            },
    {
        let r = self.port.write(word);
        match r {
            Ok(_) => {
                self.tx = Ghost(self.tx@.push(word));
                self.log = Ghost(self.log@.push(Transfer::Sent(word)));
            },
            Err(_) => {
                self.failed = Ghost(self.failed@ + 1);
            },
        }
        proof {
            let x = *old(self);
            assert(x.received().subrange(0, x.received().len() as int) =~= x.received());
            assert(self.sent().subrange(0, x.sent().len() as int) =~= x.sent());
            assert(receives(added(x.received(), self.received())) =~= Seq::<Transfer>::empty());
            if r.is_ok() {
                assert(sends(added(x.sent(), self.sent())) =~= seq![Transfer::Sent(word)]);
            } else {
                assert(sends(added(x.sent(), self.sent())) =~= Seq::<Transfer>::empty());
            }
            assert(self.transfers() =~= x.transfers() + sends(added(x.sent(), self.sent()))
                + receives(added(x.received(), self.received())));
        }
        r
    }
}

/// The key pin together with a record of every call made on it since it was
/// wrapped. Only `set_low` and `set_high` change the record.
pub struct KeyLine<P> {
    pin: P,
    calls: Ghost<Seq<PinCall>>,
}

impl<P> KeyLine<P> {
    /// Every call made on the pin so far, oldest first.
    pub closed spec fn calls(&self) -> Seq<PinCall> {
        self.calls@
    }

    /// The wrapped pin.
    pub closed spec fn inner(&self) -> &P {
        &self.pin
    }

    /// Whether the pin was last driven low successfully.
    pub open spec fn is_low(&self) -> bool {
        ends_low(self.calls())
    }
}

impl<P: KeyPin> KeyLine<P> {
    /// Wraps `pin`; no call has been made yet.
    pub fn new(pin: P) -> (r: Self)
        ensures
            r.calls() == Seq::<PinCall>::empty(),
            *r.inner() == pin,
    {
        KeyLine { pin, calls: Ghost(Seq::empty()) }
    }

    /// Gives back the wrapped pin.
    pub fn into_inner(self) -> (r: P)
        ensures
            r == *self.inner(),
    {
        self.pin
    }

    /// Drives the pin low.
    pub fn set_low(&mut self) -> (r: Result<(), ()>)
        ensures
            final(self).calls() == old(self).calls().push(PinCall::SetLow { ok: r is Ok }),
    {
        let r = self.pin.set_low();
        self.calls = Ghost(self.calls@.push(PinCall::SetLow { ok: r is Ok }));
        r
    }

    /// Drives the pin high.
    pub fn set_high(&mut self) -> (r: Result<(), ()>)
        ensures
            final(self).calls() == old(self).calls().push(PinCall::SetHigh { ok: r is Ok }),
    {
        let r = self.pin.set_high();
        self.calls = Ghost(self.calls@.push(PinCall::SetHigh { ok: r is Ok }));
        r
    }
}

/// A delay source together with the total time it has waited since it was
/// wrapped. Only `delay_us` changes the total.
pub struct Timer<D> {
    delay: D,
    total: Ghost<nat>,
}

impl<D> Timer<D> {
    /// Microseconds waited so far.
    pub closed spec fn waited(&self) -> nat {
        self.total@
    }

    /// The wrapped delay source.
    pub closed spec fn inner(&self) -> &D {
        &self.delay
    }
}

impl<D: DelayUs> Timer<D> {
    /// Wraps `delay`; nothing has been waited yet.
    pub fn new(delay: D) -> (r: Self)
        ensures
            r.waited() == 0,
            *r.inner() == delay,
    {
        Timer { delay, total: Ghost(0) }
    }

    /// Gives back the wrapped delay source.
    pub fn into_inner(self) -> (r: D)
        ensures
            r == *self.inner(),
    {
        self.delay
    }

    /// Waits for `us` microseconds.
    pub fn delay_us(&mut self, us: u32)
        ensures
            final(self).waited() == old(self).waited() + us,
    {
        self.delay.delay_us(us);
        self.total = Ghost(self.total@ + us as nat);
    }
}

} // verus!
