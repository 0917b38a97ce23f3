//! A stream that is played while it still arrives: one side fills a buffer,
//! the other reads from it. Once everything is there, the reader sees the same
//! bytes as from a file.

use vstd::prelude::*;

verus! {

/// What has arrived so far.
#[derive(Debug)]
pub struct SharedBuf {
    pub data: Vec<u8>,
    /// Nothing more will arrive.
    pub done: bool,
    pub error: Option<String>,
    /// The whole length, where the server told it.
    pub total: Option<u64>,
    /// Nobody wants the rest.
    pub cancelled: bool,
}

/// Something that happened to the download.
#[derive(Debug)]
pub enum Fetch {
    /// The answer came, with its length where the server told it.
    Started(Option<u64>),
    Chunk(Vec<u8>),
    End,
    Failed(String),
}

impl SharedBuf {
    /// An empty buffer.
    pub fn new() -> (r: Self)
        ensures
            r.data@.len() == 0,
            !r.done,
            r.error is None,
            r.total is None,
            !r.cancelled,
    {
        SharedBuf { data: Vec::new(), done: false, error: None, total: None, cancelled: false }
    }

    /// Takes what happened to the download, and says whether it goes on.
    pub fn fetched(&mut self, event: Fetch) -> (goes_on: bool)
        ensures
            final(self).cancelled == old(self).cancelled,
            match event {
                Fetch::Started(total) => {
                    &&& goes_on
                    &&& final(self).total == (if total is Some {
                        total
                    } else {
                        old(self).total
                    })
                    &&& final(self).data@ == old(self).data@
                    &&& final(self).done == old(self).done
                    &&& final(self).error == old(self).error
                },
                Fetch::Chunk(bytes) => {
                    &&& goes_on == !old(self).cancelled
                    &&& final(self).done == (old(self).done || old(self).cancelled)
                    &&& final(self).data@ == (if old(self).cancelled {
                        old(self).data@
                    } else {
                        old(self).data@ + bytes@
                    })
                    &&& final(self).total == old(self).total
                    &&& final(self).error == old(self).error
                },
                Fetch::End => {
                    &&& !goes_on
                    &&& final(self).done
                    &&& final(self).data@ == old(self).data@
                    &&& final(self).total == old(self).total
                    &&& final(self).error == old(self).error
                },
                Fetch::Failed(why) => {
                    &&& !goes_on
                    &&& final(self).done
                    &&& final(self).data@ == old(self).data@
                    &&& final(self).total == old(self).total
                    &&& final(self).error == Some(why)
                },
            },
    {
        match event {
            Fetch::Started(total) => {
                if total.is_some() {
                    self.total = total;
                }
                true
            },
            Fetch::Chunk(bytes) => {
                if self.cancelled {
                    self.done = true;
                    return false;
                }
                let mut more: Vec<u8> = bytes;
                self.data.append(&mut more);
                true
            },
            Fetch::End => {
                self.done = true;
                false
            },
            Fetch::Failed(why) => {
                self.error = Some(why);
                self.done = true;
                false
            },
        }
    }
}

/// What a read comes to.
#[derive(Debug)]
pub enum ReadStep {
    Bytes(Vec<u8>),
    End,
    Failed(String),
    Cancelled,
    /// Nothing yet: wait until more has arrived, and ask again.
    Wait,
}

/// Where a seek starts from.
#[derive(Debug, Clone, Copy, PartialEq, Eq, Structural)]
pub enum SeekTarget {
    Start(u64),
    Current(i64),
    End(i64),
}

/// Why a seek is refused.
#[derive(Debug, Clone, Copy, PartialEq, Eq, Structural)]
pub enum SeekError {
    /// The length of a stream that still arrives is not known.
    UnknownLength,
    BeforeStart,
}

/// The reading side: a position in the stream.
#[derive(Debug, Clone, Copy)]
pub struct StreamingSource {
    pub pos: u64,
}

/// How many bytes a read of at most `want` gives at a position.
pub open spec fn readable(len: int, pos: int, want: int) -> int {
    if want <= len - pos {
        want
    } else {
        len - pos
    }
}

/// A number of 64 bits, read with a sign.
pub open spec fn signed(n: int) -> int {
    if n > i64::MAX {
        n - 0x1_0000_0000_0000_0000
    } else {
        n
    }
}

/// A sum in 64 bits with a sign.
pub open spec fn wrapped(n: int) -> int {
    if n > i64::MAX {
        n - 0x1_0000_0000_0000_0000
    } else if n < i64::MIN {
        n + 0x1_0000_0000_0000_0000
    } else {
        n
    }
}

/// Where a seek leads, as a number with a sign.
pub open spec fn seek_target(pos: u64, buf: SharedBuf, to: SeekTarget) -> Result<int, SeekError> {
    match to {
        SeekTarget::Start(n) => Ok(signed(n as int)),
        SeekTarget::Current(n) => Ok(wrapped(signed(pos as int) + n)),
        SeekTarget::End(n) => match buf.total {
            Some(t) => Ok(wrapped(signed(t as int) + n)),
            None => if buf.done {
                Ok(wrapped(buf.data@.len() + n))
            } else {
                Err(SeekError::UnknownLength)
            },
        },
    }
}

pub(crate) fn to_signed(n: u64) -> (r: i64)
    ensures
        r == signed(n as int),
{
    if n <= 0x7fff_ffff_ffff_ffff {
        n as i64
    } else {
        let below: u64 = u64::MAX - n;
        -(below as i64) - 1
    }
}

impl StreamingSource {
    /// At the start of a stream.
    pub fn new() -> (r: Self)
        ensures
            r.pos == 0,
    {
        StreamingSource { pos: 0 }
    }

    /// Reads at most `want` bytes. What has arrived is handed out even where
    /// the download has failed since.
    pub fn read(&mut self, buf: &SharedBuf, want: usize) -> (r: ReadStep)
        ensures
            ({
                let len = buf.data@.len() as int;
                let pos = old(self).pos as int;
                if want == 0 {
                    r is Bytes && r->Bytes_0@.len() == 0 && *final(self) == *old(self)
                } else if pos < len {
                    let n = readable(len, pos, want as int);
                    &&& r is Bytes
                    &&& r->Bytes_0@ == buf.data@.subrange(pos, pos + n)
                    &&& final(self).pos == pos + n
                } else {
                    &&& *final(self) == *old(self)
                    &&& if buf.done {
                        r is End
                    } else if buf.error is Some {
                        r == ReadStep::Failed(buf.error->0)
                    } else if buf.cancelled {
                        r is Cancelled
                    } else {
                        r is Wait
                    }
                }
            }),
    {
        if want == 0 {
            return ReadStep::Bytes(Vec::new());
        }
        let len: usize = buf.data.len();
        if self.pos < len as u64 {
            let start: usize = self.pos as usize;
            let n: usize = if want <= len - start {
                want
            } else {
                len - start
            };
            let mut bytes: Vec<u8> = Vec::new();
            let end: usize = start + n;
            let mut i: usize = start;
            while i < end
                invariant
                    start <= i <= end <= buf.data@.len(),
                    bytes@ == buf.data@.subrange(start as int, i as int),
                decreases end - i,
            {
                bytes.push(buf.data[i]);
                i += 1;
                proof {
                    assert(bytes@ =~= buf.data@.subrange(start as int, i as int));
                }
            }
            self.pos = end as u64;
            return ReadStep::Bytes(bytes);
        }
        if buf.done {
            return ReadStep::End;
        }
        match &buf.error {
            Some(e) => ReadStep::Failed(e.clone()),
            None => if buf.cancelled {
                ReadStep::Cancelled
            } else {
                ReadStep::Wait
            },
        }
    }

    /// Goes to another position, which may lie behind the end.
    pub fn seek(&mut self, buf: &SharedBuf, to: SeekTarget) -> (r: Result<u64, SeekError>)
        ensures
            match seek_target(old(self).pos, *buf, to) {
                Ok(t) => if t < 0 {
                    r == Err::<u64, SeekError>(SeekError::BeforeStart) && *final(self)
                        == *old(self)
                } else {
                    r == Ok::<u64, SeekError>(t as u64) && final(self).pos == t
                },
                Err(e) => r == Err::<u64, SeekError>(e) && *final(self) == *old(self),
            },
    {
        let target: i64 = match to {
            SeekTarget::Start(n) => to_signed(n),
            SeekTarget::Current(n) => to_signed(self.pos).wrapping_add(n),
            SeekTarget::End(n) => match buf.total {
                Some(t) => to_signed(t).wrapping_add(n),
                None => if buf.done {
                    to_signed(buf.data.len() as u64).wrapping_add(n)
                } else {
                    return Err(SeekError::UnknownLength);
                },
            },
        };
        if target < 0 {
            return Err(SeekError::BeforeStart);
        }
        self.pos = target as u64;
        Ok(self.pos)
    }
}

/// What is read one piece after the other is the stream, from its start, with
/// nothing left out and nothing twice.
pub proof fn lemma_reads_in_order(data: Seq<u8>, pos: int, want: int)
    requires
        0 <= pos < data.len(),
        0 < want,
    ensures
        data.take(pos) + data.subrange(pos, pos + readable(data.len() as int, pos, want))
            == data.take(pos + readable(data.len() as int, pos, want)),
        readable(data.len() as int, pos, want) > 0,
{
    let n = readable(data.len() as int, pos, want);
    assert(data.take(pos) + data.subrange(pos, pos + n) =~= data.take(pos + n));
}

/// Bytes that arrive later do not change what a reader sees of those that are
/// there.
pub proof fn lemma_arrivals_keep(data: Seq<u8>, more: Seq<u8>, pos: int, n: int)
    requires
        0 <= pos <= pos + n <= data.len(),
    ensures
        (data + more).subrange(pos, pos + n) == data.subrange(pos, pos + n),
{
    assert((data + more).subrange(pos, pos + n) =~= data.subrange(pos, pos + n));
}

// ---------------------------------------------------------------------------
// Frames of the output device
// ---------------------------------------------------------------------------

/// Whole frames in a number of interleaved samples.
pub fn frames_in(samples: usize, channels: usize) -> (r: usize)
    ensures
        r == samples as int / (if channels == 0 {
            1
        } else {
            channels as int
        }),
{
    if channels == 0 {
        samples
    } else {
        samples / channels
    }
}

/// The time that so many frames take, in whole microseconds.
pub open spec fn time_of_frames(frames: nat, rate: nat) -> nat {
    (frames * 1_000_000) / rate
}

/// The frames that a time in microseconds takes.
pub open spec fn frames_of_time(us: nat, rate: nat) -> nat {
    (us * rate) / 1_000_000
}

/// The time that the frames played so far take, in whole microseconds: what
/// was produced, less what still waits to be played.
pub fn played_us(produced: u64, pending: u64, rate: u32) -> (r: u64)
    requires
        rate > 0,
    ensures
        r == crate::num::sat64(
            ((if produced > pending {
                (produced - pending) as nat
            } else {
                0
            }) * 1_000_000) / rate as nat,
        ),
        r == crate::num::sat64(
            time_of_frames(
                if produced > pending {
                    (produced - pending) as nat
                } else {
                    0
                },
                rate as nat,
            ),
        ),
{
    let played: u64 = if produced > pending {
        produced - pending
    } else {
        0
    };
    proof {
        assert(played as nat * 1_000_000 <= u64::MAX as nat * 1_000_000);
    }
    let us: u128 = played as u128 * 1_000_000 / rate as u128;
    if us > 0xffff_ffff_ffff_ffff {
        u64::MAX
    } else {
        us as u64
    }
}

/// The frames that a time takes.
pub fn frames_for(us: u64, rate: u32) -> (r: u64)
    ensures
        r == crate::num::sat64((us as nat * rate as nat) / 1_000_000),
        r == crate::num::sat64(frames_of_time(us as nat, rate as nat)),
{
    proof {
        assert(us as int * rate as int <= 0xffff_ffff_ffff_ffff * 0xffff_ffff)
            by (nonlinear_arith)
            requires
                us <= 0xffff_ffff_ffff_ffff,
                rate <= 0xffff_ffff,
        ;
    }
    let n: u128 = us as u128 * rate as u128 / 1_000_000;
    if n > 0xffff_ffff_ffff_ffff {
        u64::MAX
    } else {
        n as u64
    }
}

/// The slots of the buffer in front of the device: a quarter of a second, but
/// at least 2048 frames.
pub fn ring_capacity(rate: u32, channels: u16) -> (r: u64)
    ensures
        r == (if rate / 4 >= 2048 {
            rate as int / 4
        } else {
            2048
        }) * channels,
{
    let quarter: u64 = rate as u64 / 4;
    let frames: u64 = if quarter >= 2048 {
        quarter
    } else {
        2048
    };
    proof {
        assert(frames * channels <= 0x4000_0000 * 0xffff) by (nonlinear_arith)
            requires
                frames <= 0x4000_0000,
                channels <= 0xffff,
        ;
    }
    frames * channels as u64
}

/// Whether the device has played all but at most one frame.
pub fn drained(free: usize, capacity: usize, channels: usize) -> (r: bool)
    ensures
        r == (free + channels >= capacity),
{
    let need: usize = if capacity > channels {
        capacity - channels
    } else {
        0
    };
    free >= need
}

/// How long to wait for frames to be played, in milliseconds: their own time,
/// but between 10 and 200.
pub fn drain_wait_ms(pending: u32, rate: u32) -> (r: u64)
    ensures
        r == crate::config::clamped(
            (pending * 1000) / (if rate == 0 {
                1
            } else {
                rate as int
            }),
            10,
            200,
        ),
{
    let rate: u64 = if rate == 0 {
        1
    } else {
        rate as u64
    };
    let ms: u64 = pending as u64 * 1000 / rate;
    if ms < 10 {
        10
    } else if ms > 200 {
        200
    } else {
        ms
    }
}

/// Where a channel of the output takes its samples from.
#[derive(Debug, Clone, Copy, PartialEq, Eq, Structural)]
pub enum ChannelSource {
    /// From a channel of the source.
    One(usize),
    /// From the mean of the source's two channels.
    Mean,
    Silence,
}

/// Where a channel of the output takes its samples from.
pub open spec fn source_of(src_ch: usize, dst_ch: usize, c: usize) -> ChannelSource {
    if src_ch == dst_ch {
        ChannelSource::One(c)
    } else if src_ch == 2 && dst_ch == 1 {
        ChannelSource::Mean
    } else if src_ch == 1 {
        ChannelSource::One(0)
    } else if c < src_ch {
        ChannelSource::One(c)
    } else if src_ch >= 2 {
        ChannelSource::One((c % 2) as usize)
    } else {
        ChannelSource::Silence
    }
}

/// Maps a channel of the output to the source: two channels are mixed for a
/// single one, a single one is heard everywhere, missing ones repeat the front
/// pair.
pub fn channel_source(src_ch: usize, dst_ch: usize, c: usize) -> (r: ChannelSource)
    requires
        c < dst_ch,
    ensures
        r == (if src_ch == dst_ch {
            ChannelSource::One(c)
        } else if src_ch == 2 && dst_ch == 1 {
            ChannelSource::Mean
        } else if src_ch == 1 {
            ChannelSource::One(0)
        } else if c < src_ch {
            ChannelSource::One(c)
        } else if src_ch >= 2 {
            ChannelSource::One((c % 2) as usize)
        } else {
            ChannelSource::Silence
        }),
        r matches ChannelSource::One(i) ==> i < src_ch,
        r == source_of(src_ch, dst_ch, c),
{
    if src_ch == dst_ch {
        ChannelSource::One(c)
    } else if src_ch == 2 && dst_ch == 1 {
        ChannelSource::Mean
    } else if src_ch == 1 {
        ChannelSource::One(0)
    } else if c < src_ch {
        ChannelSource::One(c)
    } else if src_ch >= 2 {
        ChannelSource::One(c % 2)
    } else {
        ChannelSource::Silence
    }
}

/// A seek leads to the very byte: counted from the start, from where the reader
/// is, or from the end, which is the length that was told, or what has arrived
/// once all has. Where the end is not known, it leads nowhere.
pub proof fn lemma_seek_leads(pos: u64, buf: SharedBuf, n: i64)
    requires
        pos <= 0x3fff_ffff_ffff_ffff,
        -0x3fff_ffff_ffff_ffff <= n <= 0x3fff_ffff_ffff_ffff,
        buf.data@.len() <= 0x3fff_ffff_ffff_ffff,
        buf.total is Some ==> buf.total->0 <= 0x3fff_ffff_ffff_ffff,
    ensures
        seek_target(pos, buf, SeekTarget::Start(pos)) == Ok::<int, SeekError>(pos as int),
        seek_target(pos, buf, SeekTarget::Current(n)) == Ok::<int, SeekError>(pos + n),
        buf.total is Some ==> seek_target(pos, buf, SeekTarget::End(n)) == Ok::<int, SeekError>(
            buf.total->0 + n,
        ),
        buf.total is None && buf.done ==> seek_target(pos, buf, SeekTarget::End(n)) == Ok::<
            int,
            SeekError,
        >(buf.data@.len() + n),
        buf.total is None && !buf.done ==> seek_target(pos, buf, SeekTarget::End(n)) == Err::<
            int,
            SeekError,
        >(SeekError::UnknownLength),
{
}

/// A read gives what was wanted, or all that is there where that is less.
pub proof fn lemma_readable(len: int, pos: int, want: int)
    requires
        0 <= pos <= len,
        0 <= want,
    ensures
        readable(len, pos, want) <= want,
        pos + readable(len, pos, want) <= len,
        readable(len, pos, want) == want || pos + readable(len, pos, want) == len,
{
}

/// Numbers of 64 bits that fit with a sign are themselves, and sums that do not
/// fit go round.
pub proof fn lemma_signed(n: int)
    ensures
        0 <= n <= i64::MAX ==> signed(n) == n,
        i64::MAX < n <= u64::MAX ==> signed(n) == n - 0x1_0000_0000_0000_0000,
        i64::MIN <= n <= i64::MAX ==> wrapped(n) == n,
        i64::MAX < n <= 2 * i64::MAX ==> wrapped(n) < 0,
{
}

/// A second is as many frames as the rate says, and so many frames are a second.
pub proof fn lemma_frames_and_time(secs: nat, rate: nat)
    requires
        rate > 0,
    ensures
        time_of_frames(secs * rate, rate) == secs * 1_000_000,
        frames_of_time(secs * 1_000_000, rate) == secs * rate,
{
    assert(((secs * rate) * 1_000_000) / rate == secs * 1_000_000) by (nonlinear_arith)
        requires
            rate > 0,
    ;
    assert((secs * 1_000_000) * rate == (secs * rate) * 1_000_000) by (nonlinear_arith);
}

/// With as many channels each is heard as itself; two are mixed for one, and one
/// is heard everywhere. No channel is taken that the source does not have.
pub proof fn lemma_channels(src_ch: usize, dst_ch: usize, c: usize)
    requires
        c < dst_ch,
        src_ch > 0,
    ensures
        src_ch == dst_ch ==> source_of(src_ch, dst_ch, c) == ChannelSource::One(c),
        src_ch == 2 && dst_ch == 1 ==> source_of(src_ch, dst_ch, c) == ChannelSource::Mean,
        src_ch == 1 ==> source_of(src_ch, dst_ch, c) == ChannelSource::One(0),
        src_ch == 2 && dst_ch > 2 ==> source_of(src_ch, dst_ch, c) == ChannelSource::One(
            (c % 2) as usize,
        ),
        source_of(src_ch, dst_ch, c) != ChannelSource::Silence,
        source_of(src_ch, dst_ch, c) matches ChannelSource::One(i) ==> i < src_ch,
{
}

} // verus!
