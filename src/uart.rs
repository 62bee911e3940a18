use vstd::prelude::*;
use crate::channel::ChannelState;
use crate::simulator::AvrSimulator;
use vstd::string::StringSliceAdditionalSpecFns;

verus! {

/// Index of the channel named `id` (`'0'` is channel 0), if `id` is a digit.
pub open spec fn channel_index(id: char) -> int {
    if '0' <= id <= '9' {
        id as int - '0' as int
    } else {
        -1
    }
}

/// Text that `String::from_utf8_lossy` decodes from the bytes `b`.
pub uninterp spec fn utf8_lossy(b: Seq<u8>) -> Seq<char>;

/// Relies on `String::from_utf8_lossy`: decodes UTF-8, putting U+FFFD in
/// place of invalid sequences; the text depends on the bytes alone.
#[verifier::external_body]
fn decode_lossy(b: &Vec<u8>) -> (r: String)
    ensures
        r@ == utf8_lossy(b@),
        b@.len() == 0 ==> r@.len() == 0,
{
    String::from_utf8_lossy(b).into_owned()
}

/// Test-code access to one serial channel of a session.
pub struct Uart<'a> {
    sim: &'a mut AvrSimulator,
    id: char,
}

impl<'a> Uart<'a> {
    pub closed spec fn sim(&self) -> AvrSimulator {
        *self.sim
    }

    pub closed spec fn spec_id(&self) -> char {
        self.id
    }

    /// State of the channel, where it is attached.
    pub open spec fn channel(&self) -> Option<ChannelState> {
        self.sim().channel(channel_index(self.spec_id()))
    }

    /// Everything but this channel is the same in `self` and `other`.
    pub open spec fn same_elsewhere(&self, other: &Uart<'a>) -> bool {
        &&& self.spec_id() == other.spec_id()
        &&& self.sim().wf()
        &&& self.sim().same_but_channels(&other.sim())
        &&& forall|j: int|
            j != channel_index(self.spec_id()) ==> self.sim().channel(j) == other.sim().channel(j)
    }

    pub fn new(sim: &'a mut AvrSimulator, id: char) -> (r: Uart<'a>)
        ensures
            r.sim() == *old(sim),
            r.spec_id() == id,
    {
        Uart { sim, id }
    }

    fn index(&self) -> (r: Option<u8>)
        ensures
            r.is_some() <==> channel_index(self.spec_id()) >= 0,
            r matches Some(i) ==> i as int == channel_index(self.spec_id()),
    {
        if '0' <= self.id && self.id <= '9' {
            Some(((self.id as u32) - ('0' as u32)) as u8)
        } else {
            None
        }
    }

    /// Retrieves a single byte from the processor; `None` when the receive
    /// queue is empty (or the channel is not attached).
    pub fn try_read_byte(&mut self) -> (r: Option<u8>)
        requires
            old(self).sim().wf(),
        ensures
            final(self).same_elsewhere(old(self)),
            match old(self).channel() {
                None => r.is_none() && final(self).channel() == old(self).channel(),
                Some(c) => if c.rx.len() == 0 {
                    r.is_none() && final(self).channel() == Some(c)
                } else {
                    r == Some(c.rx[0]) && final(self).channel() == Some(
                        ChannelState { rx: c.rx.drop_first(), ..c },
                    )
                },
            },
    {
        match self.index() {
            Some(i) => self.sim.read_uart(i),
            None => {
                proof {
                    self.sim().lemma_no_negative_channel(channel_index(self.id));
                }
                None
            },
        }
    }

    /// Retrieves a single byte from the processor; the receive queue must
    /// hold one.
    pub fn read_byte(&mut self) -> (r: u8)
        requires
            old(self).sim().wf(),
            old(self).channel() matches Some(c) && c.rx.len() > 0,
        ensures
            final(self).same_elsewhere(old(self)),
            r == old(self).channel().unwrap().rx[0],
            final(self).channel() == Some(
                ChannelState { rx: old(self).channel().unwrap().rx.drop_first(), ..old(self).channel().unwrap() },
            ),
    {
        match self.try_read_byte() {
            Some(b) => b,
            None => 0,
        }
    }

    /// Retrieves everything in the receive queue, oldest first, and empties
    /// it; empty when nothing is queued.
    pub fn read(&mut self) -> (r: Vec<u8>)
        requires
            old(self).sim().wf(),
        ensures
            final(self).same_elsewhere(old(self)),
            match old(self).channel() {
                None => r@ == Seq::<u8>::empty() && final(self).channel().is_none(),
                Some(c) => r@ == c.rx && final(self).channel() == Some(
                    ChannelState { rx: Seq::<u8>::empty(), ..c },
                ),
            },
    {
        let mut out: Vec<u8> = Vec::new();
        loop
            invariant
                self.same_elsewhere(old(self)),
                match old(self).channel() {
                    None => out@ == Seq::<u8>::empty() && self.channel().is_none(),
                    Some(c) => self.channel() matches Some(d) && out@ + d.rx == c.rx && d.tx
                        == c.tx && d.xon == c.xon,
                },
            decreases
                match self.channel() {
                    Some(d) => d.rx.len(),
                    None => 0,
                },
        {
            let ghost before = self.channel();
            match self.try_read_byte() {
                Some(b) => {
                    proof {
                        let d = before.unwrap();
                        assert(d.rx =~= seq![b] + d.rx.drop_first());
                    }
                    out.push(b);
                    proof {
                        let c = old(self).channel().unwrap();
                        let d = before.unwrap();
                        assert(out@ + d.rx.drop_first() =~= c.rx);
                    }
                },
                None => {
                    proof {
                        if let Some(c) = old(self).channel() {
                            let d = self.channel().unwrap();
                            assert(out@ + d.rx =~= out@);
                            assert(d.rx =~= Seq::<u8>::empty());
                        }
                    }
                    return out;
                },
            }
        }
    }

    /// Retrieves everything in the receive queue as UTF-8 text (see `read`);
    /// empty when nothing is queued.
    pub fn read_string(&mut self) -> (r: String)
        requires
            old(self).sim().wf(),
        ensures
            final(self).same_elsewhere(old(self)),
            match old(self).channel() {
                None => r@ == utf8_lossy(Seq::<u8>::empty()) && r@.len() == 0 && final(self).channel().is_none(),
                Some(c) => r@ == utf8_lossy(c.rx) && final(self).channel() == Some(
                    ChannelState { rx: Seq::<u8>::empty(), ..c },
                ),
            },
    {
        let bytes = self.read();
        decode_lossy(&bytes)
    }

    /// Queues the UTF-8 bytes of `text` for the processor, in order.
    pub fn write_str(&mut self, text: &str)
        requires
            old(self).sim().wf(),
        ensures
            final(self).same_elsewhere(old(self)),
            match old(self).channel() {
                None => final(self).channel().is_none(),
                Some(c) => final(self).channel() == Some(ChannelState { tx: c.tx + text.spec_bytes(), ..c }),
            },
    {
        self.write(text.as_bytes());
    }

    /// Retrieves the `n` oldest bytes of the receive queue, which must hold
    /// at least `n`.
    pub fn read_bytes(&mut self, n: usize) -> (r: Vec<u8>)
        requires
            old(self).sim().wf(),
            old(self).channel() matches Some(c) && c.rx.len() >= n,
        ensures
            final(self).same_elsewhere(old(self)),
            r@ == old(self).channel().unwrap().rx.subrange(0, n as int),
            final(self).channel() == Some(
                ChannelState { rx: old(self).channel().unwrap().rx.subrange(n as int, old(self).channel().unwrap().rx.len() as int), ..old(self).channel().unwrap() },
            ),
    {
        let ghost c = old(self).channel().unwrap();
        let mut out: Vec<u8> = Vec::new();
        let mut i: usize = 0;
        assert(c.rx.subrange(0, c.rx.len() as int) =~= c.rx);
        assert(c.rx.subrange(0, 0) =~= Seq::<u8>::empty());
        while i < n
            invariant
                i <= n,
                n <= c.rx.len(),
                self.same_elsewhere(old(self)),
                out@ == c.rx.subrange(0, i as int),
                self.channel() == Some(
                    ChannelState { rx: c.rx.subrange(i as int, c.rx.len() as int), ..c },
                ),
            decreases n - i,
        {
            proof {
                assert(c.rx.subrange(i as int, c.rx.len() as int).drop_first() =~= c.rx.subrange(i + 1, c.rx.len() as int));
                assert(c.rx.subrange(0, i + 1) =~= c.rx.subrange(0, i as int).push(c.rx[i as int]));
            }
            let b = self.read_byte();
            out.push(b);
            i = i + 1;
        }
        out
    }

    /// Queues `bytes` for the processor, in order.
    pub fn write(&mut self, bytes: &[u8])
        requires
            old(self).sim().wf(),
        ensures
            final(self).same_elsewhere(old(self)),
            match old(self).channel() {
                None => final(self).channel().is_none(),
                Some(c) => final(self).channel() == Some(ChannelState { tx: c.tx + bytes@, ..c }),
            },
    {
        let mut i: usize = 0;
        while i < bytes.len()
            invariant
                i <= bytes@.len(),
                self.same_elsewhere(old(self)),
                match old(self).channel() {
                    None => self.channel().is_none(),
                    Some(c) => self.channel() == Some(
                        ChannelState { tx: c.tx + bytes@.subrange(0, i as int), ..c },
                    ),
                },
            decreases bytes.len() - i,
        {
            proof {
                if let Some(c) = old(self).channel() {
                    assert(c.tx + bytes@.subrange(0, i + 1) =~= (c.tx + bytes@.subrange(0, i as int)).push(bytes@[i as int]));
                }
            }
            self.write_byte(bytes[i]);
            i = i + 1;
        }
        proof {
            assert(bytes@.subrange(0, bytes@.len() as int) =~= bytes@);
        }
    }

    /// Queues one byte for the processor.
    pub fn write_byte(&mut self, value: u8)
        requires
            old(self).sim().wf(),
        ensures
            final(self).same_elsewhere(old(self)),
            match old(self).channel() {
                None => final(self).channel().is_none(),
                Some(c) => final(self).channel() == Some(ChannelState { tx: c.tx.push(value), ..c }),
            },
    {
        match self.index() {
            Some(i) => self.sim.write_uart(i, value),
            None => {
                proof {
                    self.sim().lemma_no_negative_channel(channel_index(self.id));
                }
            },
        }
    }
}

} // verus!
