//! The arithmetic of the audio side: how much the sample ring holds, how much
//! is buffered before playback starts, and how many frames have been played.

use vstd::prelude::*;

verus! {

/// The capacity of the ring of samples between decoder and output: ten seconds
/// of audio at `sample_rate` frames per second of `channels` samples each.
pub fn ring_capacity(sample_rate: usize, channels: usize) -> (n: usize)
    requires
        sample_rate * channels * 10 <= usize::MAX,
    ensures
        n == sample_rate * channels * 10,
{
    proof {
        assert(sample_rate * channels <= sample_rate * channels * 10) by (nonlinear_arith);
    }
    sample_rate * channels * 10
}

/// How many samples are buffered before a newly loaded track starts to play:
/// five seconds of audio.
pub fn prefill_target(sample_rate: usize, channels: usize) -> (n: usize)
    requires
        sample_rate * channels * 5 <= usize::MAX,
    ensures
        n == sample_rate * channels * 5,
{
    proof {
        assert(sample_rate * channels <= sample_rate * channels * 5) by (nonlinear_arith);
    }
    sample_rate * channels * 5
}

/// Whether playback of a newly loaded track may start: enough samples are
/// buffered.
pub fn prefill_done(buffered: usize, sample_rate: usize, channels: usize) -> (r: bool)
    requires
        sample_rate * channels * 5 <= usize::MAX,
    ensures
        r == (buffered >= sample_rate * channels * 5),
{
    buffered >= prefill_target(sample_rate, channels)
}

/// The whole frames in `samples` interleaved samples of `channels` channels.
pub fn frames_played(samples: u64, channels: usize) -> (f: u64)
    requires
        channels > 0,
    ensures
        f == samples / (channels as u64),
{
    samples / (channels as u64)
}


// ---------------------------------------------------------------------------
// Interleaving decoded channels
// ---------------------------------------------------------------------------

/// The length of the shortest channel (none when there are no channels).
pub open spec fn shortest<T>(chans: Seq<Vec<T>>) -> nat
    decreases chans.len(),
{
    if chans.len() == 0 {
        0
    } else if chans.len() == 1 {
        chans[0]@.len()
    } else {
        let rest = shortest(chans.drop_last());
        let last = chans.last()@.len();
        if last < rest {
            last
        } else {
            rest
        }
    }
}

/// Frame `i`: sample `i` of every channel, in channel order.
pub open spec fn frame<T>(chans: Seq<Vec<T>>, i: int) -> Seq<T> {
    Seq::new(chans.len(), |c: int| chans[c]@[i])
}

/// The first `n` frames, one after the other.
pub open spec fn frames<T>(chans: Seq<Vec<T>>, n: nat) -> Seq<T>
    decreases n,
{
    if n == 0 {
        Seq::empty()
    } else {
        frames(chans, (n - 1) as nat) + frame(chans, n - 1)
    }
}

/// The shortest channel is no longer than any channel, and (when there is a
/// channel) it is as long as one of them: it is the least of their lengths.
pub proof fn lemma_shortest_bounds<T>(chans: Seq<Vec<T>>)
    ensures
        forall|c: int| 0 <= c < chans.len() ==> shortest(chans) <= #[trigger] chans[c]@.len(),
        chans.len() > 0 ==> exists|c: int| 0 <= c < chans.len() && shortest(chans) == #[trigger] chans[c]@.len(),
    decreases chans.len(),
{
    if chans.len() == 1 {
        assert(shortest(chans) == chans[0]@.len());
    } else if chans.len() > 1 {
        let rest = chans.drop_last();
        lemma_shortest_bounds(rest);
        assert forall|c: int| 0 <= c < chans.len() implies shortest(chans) <= #[trigger] chans[c]@.len() by {
            if c < chans.len() - 1 {
                assert(chans[c] == rest[c]);
            }
        }
        if chans.last()@.len() < shortest(rest) {
            assert(shortest(chans) == chans[chans.len() - 1]@.len());
        } else {
            let c = choose|c: int| 0 <= c < rest.len() && shortest(rest) == #[trigger] rest[c]@.len();
            assert(chans[c] == rest[c]);
            assert(shortest(chans) == chans[c]@.len());
        }
    }
}

/// Interleaving keeps every frame that all channels have: the output holds
/// one sample per channel for each of the least channel length's frames, and
/// sample `i` of channel `c` stands at `i * channels + c`.
pub proof fn lemma_interleave_keeps_all_common_frames<T>(chans: Seq<Vec<T>>)
    ensures
        frames(chans, shortest(chans)).len() == chans.len() * shortest(chans),
        forall|c: int| 0 <= c < chans.len() ==> shortest(chans) <= #[trigger] chans[c]@.len(),
        chans.len() > 0 ==> exists|c: int| 0 <= c < chans.len() && shortest(chans) == #[trigger] chans[c]@.len(),
        forall|i: int, c: int|
            0 <= i < shortest(chans) && 0 <= c < chans.len() ==> #[trigger] frames(chans, shortest(chans))[i
                * chans.len() + c] == chans[c]@[i],
{
    lemma_shortest_bounds(chans);
    lemma_frames_layout(chans, shortest(chans));
}

/// The samples of `chans` interleaved frame by frame, as the output device
/// takes them; as many frames as the shortest channel has samples.
pub fn interleave<T: Copy>(chans: &Vec<Vec<T>>) -> (out: Vec<T>)
    ensures
        out@ == frames(chans@, shortest(chans@)),
        out@.len() == chans@.len() * shortest(chans@),
        chans@.len() > 0 ==> exists|c: int| 0 <= c < chans@.len() && shortest(chans@) == #[trigger] chans@[c]@.len(),
{
    let ch = chans.len();
    let mut min_len: usize = 0;
    if ch > 0 {
        min_len = chans[0].len();
        let mut c: usize = 1;
        while c < ch
            invariant
                ch == chans@.len(),
                1 <= c <= ch,
                min_len == shortest(chans@.take(c as int)),
            decreases ch - c,
        {
            assert(chans@.take(c + 1).drop_last() =~= chans@.take(c as int));
            let len = chans[c].len();
            if len < min_len {
                min_len = len;
            }
            c = c + 1;
        }
        assert(chans@.take(ch as int) =~= chans@);
    }
    proof {
        lemma_shortest_bounds(chans@);
    }
    let mut out: Vec<T> = Vec::new();
    let mut i: usize = 0;
    while i < min_len
        invariant
            ch == chans@.len(),
            min_len == shortest(chans@),
            forall|c: int| 0 <= c < ch ==> min_len <= #[trigger] chans@[c]@.len(),
            i <= min_len,
            out@ == frames(chans@, i as nat),
        decreases min_len - i,
    {
        let ghost before = out@;
        let mut c: usize = 0;
        while c < ch
            invariant
                ch == chans@.len(),
                forall|k: int| 0 <= k < ch ==> min_len <= #[trigger] chans@[k]@.len(),
                i < min_len,
                c <= ch,
                out@ == before + frame(chans@, i as int).take(c as int),
            decreases ch - c,
        {
            out.push(chans[c][i]);
            assert(frame(chans@, i as int).take(c + 1) =~= frame(chans@, i as int).take(
                c as int,
            ).push(chans@[c as int]@[i as int]));
            c = c + 1;
        }
        assert(frame(chans@, i as int).take(ch as int) =~= frame(chans@, i as int));
        i = i + 1;
    }
    proof {
        lemma_interleave_keeps_all_common_frames(chans@);
    }
    out
}


/// Interleaved frames hold `channels` samples each, and sample `i` of channel
/// `c` stands at position `i * channels + c`.
pub proof fn lemma_frames_layout<T>(chans: Seq<Vec<T>>, n: nat)
    ensures
        frames(chans, n).len() == n * chans.len(),
        forall|i: int, c: int|
            0 <= i < n && 0 <= c < chans.len() ==> #[trigger] frames(chans, n)[i * chans.len() + c]
                == chans[c]@[i],
    decreases n,
{
    if n > 0 {
        let m = (n - 1) as nat;
        lemma_frames_layout(chans, m);
        let ch = chans.len() as int;
        assert(m * ch + ch == n * ch) by (nonlinear_arith)
            requires
                m + 1 == n,
        ;
        assert forall|i: int, c: int| 0 <= i < n && 0 <= c < ch implies #[trigger] frames(
            chans,
            n,
        )[i * ch + c] == chans[c]@[i] by {
            if i < m {
                assert(i * ch + c < m * ch) by (nonlinear_arith)
                    requires
                        0 <= i < m,
                        0 <= c < ch,
                ;
                assert(i * ch + c >= 0) by (nonlinear_arith)
                    requires
                        0 <= i,
                        0 <= c,
                        0 <= ch,
                ;
            } else {
                assert(i * ch == m * ch);
            }
        }
    } else {
        assert(n * chans.len() == 0) by (nonlinear_arith)
            requires
                n == 0,
        ;
    }
}

// ---------------------------------------------------------------------------
// The audio thread's commands
// ---------------------------------------------------------------------------

/// A command to the audio thread, other than a volume level (a floating-point
/// number, which the thread stores itself).
#[derive(Clone, Copy, Debug, PartialEq, Eq, Structural)]
pub enum EngineCommand {
    /// Load a file and play it once enough is buffered.
    Load,
    Play,
    Stop,
    Toggle,
}

/// One step the audio thread takes, in order, to carry out a command.
#[derive(Clone, Copy, Debug, PartialEq, Eq, Structural)]
pub enum EngineStep {
    /// Store the playing flag.
    SetPlaying(bool),
    /// Tell the running decoder to stop.
    StopDecoder,
    /// Empty the ring of samples and zero the count of buffered samples.
    ResetBuffer,
    /// Clear the flag that the track has finished.
    ClearFinished,
    /// Start a decoder on the file to load.
    StartDecoder,
    /// Wait until enough samples are buffered.
    AwaitPrefill,
}

/// The steps for `cmd` when the playing flag is `playing` and a decoder is
/// running when `decoding`: a load stops playback first, stops the old decoder,
/// resets the buffer and the finished flag, starts the new decoder, waits for
/// the prefill and plays; play and stop set the flag; toggle flips it.
pub open spec fn engine_steps(playing: bool, decoding: bool, cmd: EngineCommand) -> Seq<EngineStep> {
    match cmd {
        EngineCommand::Load => seq![EngineStep::SetPlaying(false)] + (if decoding {
            seq![EngineStep::StopDecoder]
        } else {
            Seq::empty()
        }) + seq![
            EngineStep::ResetBuffer,
            EngineStep::ClearFinished,
            EngineStep::StartDecoder,
            EngineStep::AwaitPrefill,
            EngineStep::SetPlaying(true),
        ],
        EngineCommand::Play => seq![EngineStep::SetPlaying(true)],
        EngineCommand::Stop => seq![EngineStep::SetPlaying(false)],
        EngineCommand::Toggle => seq![EngineStep::SetPlaying(!playing)],
    }
}

/// The steps the audio thread takes for `cmd`.
pub fn engine_steps_for(playing: bool, decoding: bool, cmd: EngineCommand) -> (steps: Vec<EngineStep>)
    ensures
        steps@ == engine_steps(playing, decoding, cmd),
{
    let mut steps: Vec<EngineStep> = Vec::new();
    match cmd {
        EngineCommand::Load => {
            steps.push(EngineStep::SetPlaying(false));
            if decoding {
                steps.push(EngineStep::StopDecoder);
            }
            steps.push(EngineStep::ResetBuffer);
            steps.push(EngineStep::ClearFinished);
            steps.push(EngineStep::StartDecoder);
            steps.push(EngineStep::AwaitPrefill);
            steps.push(EngineStep::SetPlaying(true));
        },
        EngineCommand::Play => steps.push(EngineStep::SetPlaying(true)),
        EngineCommand::Stop => steps.push(EngineStep::SetPlaying(false)),
        EngineCommand::Toggle => steps.push(EngineStep::SetPlaying(!playing)),
    }
    proof {
        assert(steps@ =~= engine_steps(playing, decoding, cmd));
    }
    steps
}

/// The playing flag after the steps, from `playing`: the last value stored.
pub open spec fn playing_after(steps: Seq<EngineStep>, playing: bool) -> bool
    decreases steps.len(),
{
    if steps.len() == 0 {
        playing
    } else {
        match steps.last() {
            EngineStep::SetPlaying(p) => p,
            _ => playing_after(steps.drop_last(), playing),
        }
    }
}

/// A load stops playback first and plays last; when a decoder runs it is told
/// to stop before the new one starts; the buffer and the finished flag are reset
/// before the new decoder starts, and the prefill is awaited after it starts and
/// before playing; no decoder is stopped when none runs.
pub proof fn lemma_load_steps(playing: bool, decoding: bool)
    ensures
        ({
            let s = engine_steps(playing, decoding, EngineCommand::Load);
            &&& s.len() > 0
            &&& s[0] == EngineStep::SetPlaying(false)
            &&& s.last() == EngineStep::SetPlaying(true)
            &&& decoding ==> exists|i: int, j: int|
                0 <= i < j < s.len() && s[i] == EngineStep::StopDecoder && s[j]
                    == EngineStep::StartDecoder
            &&& !decoding ==> !s.contains(EngineStep::StopDecoder)
            &&& exists|r: int, f: int, st: int, w: int|
                0 <= r < st && 0 <= f < st && st < w < s.len() - 1 && s[r] == EngineStep::ResetBuffer
                    && s[f] == EngineStep::ClearFinished && s[st] == EngineStep::StartDecoder
                    && s[w] == EngineStep::AwaitPrefill
        }),
{
    let s = engine_steps(playing, decoding, EngineCommand::Load);
    if decoding {
        assert(s[1] == EngineStep::StopDecoder && s[4] == EngineStep::StartDecoder);
        assert(s[2] == EngineStep::ResetBuffer && s[3] == EngineStep::ClearFinished
            && s[5] == EngineStep::AwaitPrefill);
    } else {
        assert(s[1] == EngineStep::ResetBuffer && s[2] == EngineStep::ClearFinished
            && s[3] == EngineStep::StartDecoder && s[4] == EngineStep::AwaitPrefill);
        assert forall|k: int| 0 <= k < s.len() implies s[k] != EngineStep::StopDecoder by {}
    }
}

/// A toggle is a single step that flips the playing flag, whether or not a
/// decoder runs; play and stop are single steps that set it.
pub proof fn lemma_toggle_flips(playing: bool, decoding: bool)
    ensures
        engine_steps(playing, decoding, EngineCommand::Toggle).len() == 1,
        playing_after(engine_steps(playing, decoding, EngineCommand::Toggle), playing) == !playing,
        engine_steps(playing, decoding, EngineCommand::Play).len() == 1,
        engine_steps(playing, decoding, EngineCommand::Stop).len() == 1,
{
}

/// A load and a play leave the track playing, a stop leaves it stopped, and a
/// toggle twice leaves the flag as it was.
pub proof fn lemma_engine_playing(playing: bool, decoding: bool)
    ensures
        playing_after(engine_steps(playing, decoding, EngineCommand::Load), playing),
        playing_after(engine_steps(playing, decoding, EngineCommand::Play), playing),
        !playing_after(engine_steps(playing, decoding, EngineCommand::Stop), playing),
        playing_after(
            engine_steps(
                playing_after(engine_steps(playing, decoding, EngineCommand::Toggle), playing),
                decoding,
                EngineCommand::Toggle,
            ),
            playing_after(engine_steps(playing, decoding, EngineCommand::Toggle), playing),
        ) == playing,
{
}

// ---------------------------------------------------------------------------
// The output callback's counts
// ---------------------------------------------------------------------------

/// What one block of output did while playing: samples taken from the ring
/// and played, and slots left silent because the ring was empty.
pub struct BlockTally {
    pub played: u64,
    pub underruns: u64,
}

/// The number of `true` in `s`.
pub open spec fn count_true(s: Seq<bool>) -> nat
    decreases s.len(),
{
    if s.len() == 0 {
        0
    } else {
        count_true(s.drop_last()) + if s.last() {
            1nat
        } else {
            0nat
        }
    }
}

/// The number of `false` in `s`.
pub open spec fn count_false(s: Seq<bool>) -> nat
    decreases s.len(),
{
    if s.len() == 0 {
        0
    } else {
        count_false(s.drop_last()) + if s.last() {
            0nat
        } else {
            1nat
        }
    }
}

impl BlockTally {
    /// Nothing counted yet.
    pub fn new() -> (t: BlockTally)
        ensures
            t.played == 0,
            t.underruns == 0,
    {
        BlockTally { played: 0, underruns: 0 }
    }

    /// Counts one output slot while playing: a sample when the ring gave one
    /// (`got`), an underrun when it was empty.
    pub fn record(&mut self, got: bool)
        requires
            got ==> old(self).played < u64::MAX,
            !got ==> old(self).underruns < u64::MAX,
        ensures
            final(self).played == old(self).played + if got {
                1int
            } else {
                0int
            },
            final(self).underruns == old(self).underruns + if got {
                0int
            } else {
                1int
            },
    {
        if got {
            self.played = self.played + 1;
        } else {
            self.underruns = self.underruns + 1;
        }
    }
}

/// Every slot of a block played is counted once: as a sample or as an
/// underrun.
pub proof fn lemma_every_slot_counted(s: Seq<bool>)
    ensures
        count_true(s) + count_false(s) == s.len(),
    decreases s.len(),
{
    if s.len() > 0 {
        lemma_every_slot_counted(s.drop_last());
    }
}

/// Whether the ring is empty after a block: no samples buffered.
pub fn buffer_is_empty(buffered: usize) -> (r: bool)
    ensures
        r == (buffered == 0),
{
    buffered == 0
}

} // verus!
