use vstd::prelude::*;

/// Baud rates of the serial line and of the air link.
pub mod baudrate;

/// Wireless channel and its centre frequency.
pub mod channel;

/// Command encoder for each setting.
pub mod command;

/// The aggregate of all settings.
pub mod parameters;

/// Transmission power.
pub mod power;

/// Wireless speed class.
pub mod speed;

verus! {

/// Base-10 rendering of `n` in ASCII, most significant digit first, without padding.
pub open spec fn decimal(n: nat) -> Seq<u8>
    decreases n,
{
    if n < 10 {
        seq![(48 + n) as u8]
    } else {
        decimal(n / 10).push((48 + n % 10) as u8)
    }
}

/// A setting that can be turned into the AT command that applies it.
pub trait GenerateAtCommand {
    /// The bytes of the AT command that applies this setting.
    spec fn at_command(&self) -> Seq<u8>;

    /// Writes the AT command that applies this setting to the start of
    /// `buffer` and returns the written part.
    fn make_command_buf<'a>(&self, buffer: &'a mut [u8]) -> (r: &'a [u8])
        requires
            self.at_command().len() <= old(buffer)@.len(),
        ensures
            r@ == self.at_command(),
            final(buffer)@.len() == old(buffer)@.len(),
            final(buffer)@.subrange(0, r@.len() as int) == r@,
            final(buffer)@.subrange(r@.len() as int, final(buffer)@.len() as int) == old(buffer)@.subrange(r@.len() as int, old(buffer)@.len() as int),
    ;
}

/// Copies `src` to the start of `buffer` and returns the written part.
pub fn copy_prefix<'a>(buffer: &'a mut [u8], src: &[u8]) -> (r: &'a [u8])
    requires
        src@.len() <= old(buffer)@.len(),
    ensures
        r@ == src@,
        final(buffer)@.len() == old(buffer)@.len(),
        final(buffer)@.subrange(0, src@.len() as int) == src@,
        final(buffer)@.subrange(src@.len() as int, final(buffer)@.len() as int) == old(buffer)@.subrange(src@.len() as int, old(buffer)@.len() as int),
{
    let ghost before = buffer@;
    let mut i: usize = 0;
    while i < src.len()
        invariant
            src@.len() <= buffer@.len(),
            buffer@.len() == before.len(),
            i <= src@.len(),
            forall|j: int| 0 <= j < i ==> buffer@[j] == src@[j],
            forall|j: int| i <= j < buffer@.len() ==> buffer@[j] == before[j],
        decreases src@.len() - i,
    {
        buffer[i] = src[i];
        i += 1;
    }
    assert(buffer@.subrange(0, src@.len() as int) =~= src@);
    assert(buffer@.subrange(src@.len() as int, buffer@.len() as int) =~= before.subrange(
        src@.len() as int,
        before.len() as int,
    ));
    let n = src.len();
    let whole: &'a [u8] = buffer;
    vstd::slice::slice_subrange(whole, 0, n)
}

} // verus!
