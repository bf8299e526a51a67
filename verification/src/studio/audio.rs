//! Preview playback: the queue between the mixer and the output device, and
//! what to do next while the timeline plays.

use crate::media::av_sync::{rounded, rounded_is_nearest, wrap64, AudioClock};
use crate::media::mixer::AudioSource;
use crate::media::samples::DecodedAudio;
use crate::model::composition::CompId;
use crate::model::curve::Curve;
use crate::model::layer::{LayerKind, LayerModel};
use crate::model::project::{asset_index, comp_index, Project, ProjectModel};
use crate::model::time::{time_of, Frame, Framerate, Rational};
use crate::scalar::{one, zero, Scalar};
use crate::seqs::{group_views, views, views_push};
use crate::text::cat;
use vstd::prelude::*;

verus! {

/// Sample rate of the master bus.
pub const MASTER_RATE: u32 = 48_000;

/// Frames that are mixed at a time.
pub const CHUNK_FRAMES: usize = 4096;

/// Samples that are kept queued ahead of the device.
pub const TARGET_QUEUE: usize = 49_152;

/// Why the output could not be opened. The texts are those of the audio
/// system.
#[derive(Clone, Debug, PartialEq, Eq)]
pub enum PlaybackError {
    NoOutputDevice,
    NoConfig,
    Build(String),
    Play(String),
}

/// The text of an error.
pub open spec fn playback_error_text(e: PlaybackError) -> Seq<char> {
    match e {
        PlaybackError::NoOutputDevice => "no audio output device"@,
        PlaybackError::NoConfig => "no compatible output config"@,
        PlaybackError::Build(t) => "build stream: "@ + t@,
        PlaybackError::Play(t) => "play stream: "@ + t@,
    }
}

impl PlaybackError {
    pub fn message(&self) -> (r: String)
        ensures
            r@ == playback_error_text(*self),
    {
        match self {
            PlaybackError::NoOutputDevice => "no audio output device".to_owned(),
            PlaybackError::NoConfig => "no compatible output config".to_owned(),
            PlaybackError::Build(t) => cat("build stream: ", t),
            PlaybackError::Play(t) => cat("play stream: ", t),
        }
    }
}

/// Interleaved stereo samples on their way to the device.
#[derive(Debug, PartialEq)]
pub struct RingBuffer {
    pub samples: Vec<Scalar>,
}

impl View for RingBuffer {
    type V = Seq<Scalar>;

    open spec fn view(&self) -> Seq<Scalar> {
        self.samples@
    }
}

/// The smaller of two lengths.
pub open spec fn shorter(a: nat, b: nat) -> nat {
    if a < b {
        a
    } else {
        b
    }
}

/// The first `n` samples of `queue`, followed by silence where there are fewer.
pub open spec fn drained(queue: Seq<Scalar>, n: nat) -> Seq<Scalar> {
    Seq::new(
        n,
        |i: int|
            if i < queue.len() {
                queue[i]
            } else {
                zero()
            },
    )
}

/// What is left of `queue` after `n` samples were taken.
pub open spec fn left_over(queue: Seq<Scalar>, n: nat) -> Seq<Scalar> {
    queue.skip(shorter(n, queue.len()) as int)
}

/// What a device with `channels` channels plays of stereo samples: left and
/// right on its first two channels and silence on the others. Samples after
/// the last whole frame stay as they were.
pub open spec fn spread(
    stereo: Seq<Scalar>,
    before: Seq<Scalar>,
    channels: int,
) -> Seq<Scalar> {
    Seq::new(
        before.len(),
        |i: int|
            if i / channels >= before.len() as int / channels {
                before[i]
            } else if i % channels == 0 {
                stereo[2 * (i / channels)]
            } else if i % channels == 1 {
                stereo[2 * (i / channels) + 1]
            } else {
                zero()
            },
    )
}

/// How many samples a device buffer of `len` samples takes from the queue.
pub open spec fn wanted(len: int, channels: int) -> int {
    if channels == 2 {
        len
    } else {
        2 * (len / channels)
    }
}

impl Default for RingBuffer {
    fn default() -> (r: Self)
        ensures
            r@ == Seq::<Scalar>::empty(),
    {
        RingBuffer { samples: Vec::new() }
    }
}

impl RingBuffer {
    /// Queues `src` behind what is there.
    pub fn enqueue(&mut self, src: &[Scalar])
        ensures
            final(self)@ == old(self)@ + src@,
    {
        let mut i: usize = 0;
        let ghost start = self@;
        while i < src.len()
            invariant
                i <= src.len(),
                self@ == start + src@.take(i as int),
            decreases src.len() - i,
        {
            self.samples.push(src[i]);
            i = i + 1;
            assert(src@.take(i as int) =~= src@.take(i - 1).push(src@[i - 1]));
        }
        assert(src@.take(i as int) =~= src@);
    }

    /// Fills `dst` from the queue, with silence once it is empty. Returns how
    /// many samples came from the queue.
    pub fn drain_into(&mut self, dst: &mut [Scalar]) -> (r: usize)
        ensures
            final(dst)@ == drained(old(self)@, old(dst)@.len()),
            final(self)@ == left_over(old(self)@, old(dst)@.len()),
            r == shorter(old(dst)@.len(), old(self)@.len()),
    {
        let n: usize = dst.len();
        let ghost queue = self.samples@;
        let take: usize = if n < self.samples.len() {
            n
        } else {
            self.samples.len()
        };
        let mut i: usize = 0;
        while i < n
            invariant
                i <= n,
                n == dst@.len(),
                self.samples@ == queue,
                take == shorter(n as nat, queue.len()),
                forall|k: int| 0 <= k < i ==> dst@[k] == drained(queue, n as nat)[k],
            decreases n - i,
        {
            if i < take {
                dst[i] = self.samples[i];
            } else {
                dst[i] = Scalar::zero();
            }
            i = i + 1;
        }
        assert(dst@ =~= drained(queue, n as nat));
        let rest = self.samples.split_off(take);
        self.samples = rest;
        assert(self.samples@ =~= left_over(queue, n as nat));
        take
    }

    /// How many samples are queued.
    pub fn len(&self) -> (r: usize)
        ensures
            r == self@.len(),
    {
        self.samples.len()
    }

    /// Fills the buffer of a device with `channels` channels from the queue
    /// and counts on `clock` the frames that were really played.
    pub fn feed_device(&mut self, out: &mut [Scalar], channels: usize, clock: &mut AudioClock)
        requires
            channels > 0,
            old(out)@.len() <= i64::MAX,
            2 * old(out)@.len() <= usize::MAX,
        ensures
            ({
                let n = wanted(old(out)@.len() as int, channels as int) as nat;
                &&& final(self)@ == left_over(old(self)@, n)
                &&& final(out)@ == if channels == 2 {
                    drained(old(self)@, n)
                } else {
                    spread(drained(old(self)@, n), old(out)@, channels as int)
                }
                &&& final(clock)@.samples == wrap64(
                    old(clock)@.samples + shorter(n, old(self)@.len()) / 2,
                )
                &&& final(clock)@.sample_rate == old(clock)@.sample_rate
            }),
    {
        if channels == 2 {
            let taken: usize = self.drain_into(out);
            clock.add_samples((taken / 2) as i64);
        } else {
            let frames: usize = out.len() / channels;
            proof {
                div_no_larger(out@.len() as int, channels as int);
            }
            let mut stereo: Vec<Scalar> = Vec::new();
            let mut k: usize = 0;
            while k < 2 * frames
                invariant
                    stereo@.len() == k,
                    k <= 2 * frames <= usize::MAX,
                decreases 2 * frames - k,
            {
                stereo.push(Scalar::zero());
                k = k + 1;
            }
            let taken: usize = self.drain_into(stereo.as_mut_slice());
            spread_into(&stereo, frames, out, channels);
            clock.add_samples((taken / 2) as i64);
        }
    }
}

proof fn div_no_larger(n: int, d: int)
    requires
        n >= 0,
        d > 0,
    ensures
        0 <= n / d <= n,
        (n / d) * d <= n,
{
    vstd::arithmetic::div_mod::lemma_div_is_ordered_by_denominator(n, 1, d);
    vstd::arithmetic::div_mod::lemma_fundamental_div_mod(n, d);
    vstd::arithmetic::div_mod::lemma_div_pos_is_pos(n, d);
    vstd::arithmetic::mul::lemma_mul_is_commutative(d, n / d);
    vstd::arithmetic::div_mod::lemma_mod_bound(n, d);
}

fn spread_into(stereo: &Vec<Scalar>, frames: usize, out: &mut [Scalar], channels: usize)
    requires
        channels > 0,
        frames == old(out)@.len() / (channels as nat),
        stereo@.len() == 2 * frames,
    ensures
        final(out)@ == spread(stereo@, old(out)@, channels as int),
{
    let ghost before = out@;
    let ghost target = spread(stereo@, before, channels as int);
    let n: usize = out.len();
    let total: usize = stereo.len();
    let mut i: usize = 0;
    let mut f: usize = 0;
    let mut c: usize = 0;
    proof {
        div_no_larger(n as int, channels as int);
    }
    while i < n && f < frames
        invariant
            0 <= i <= n,
            n == out@.len() == before.len(),
            channels > 0,
            0 <= c < channels,
            0 <= f <= frames,
            frames == n / channels,
            i == f * channels + c,
            f == frames ==> c == 0,
            stereo@.len() == 2 * frames,
            total == 2 * frames,
            target == spread(stereo@, before, channels as int),
            forall|k: int| 0 <= k < i ==> out@[k] == target[k],
            forall|k: int| i <= k < n ==> out@[k] == before[k],
        decreases n - i,
    {
        proof {
            vstd::arithmetic::div_mod::lemma_fundamental_div_mod_converse(
                i as int,
                channels as int,
                f as int,
                c as int,
            );
        }
        let v = if c == 0 {
            stereo[2 * f]
        } else if c == 1 {
            stereo[2 * f + 1]
        } else {
            Scalar::zero()
        };
        out[i] = v;
        i = i + 1;
        if c + 1 == channels {
            assert((f + 1) * channels == f * channels + channels) by (nonlinear_arith);
            c = 0;
            f = f + 1;
        } else {
            c = c + 1;
        }
    }
    proof {
        vstd::arithmetic::div_mod::lemma_fundamental_div_mod(n as int, channels as int);
        vstd::arithmetic::mul::lemma_mul_is_commutative(channels as int, frames as int);
        if f < frames {
            assert((f + 1) * channels <= frames * channels) by (nonlinear_arith)
                requires
                    f + 1 <= frames,
                    channels > 0,
            ;
            assert((f + 1) * channels == f * channels + channels) by (nonlinear_arith);
        }
        assert forall|k: int| i <= k < n implies before[k] == target[k] by {
            vstd::arithmetic::div_mod::lemma_div_is_ordered(i as int, k, channels as int);
            vstd::arithmetic::div_mod::lemma_fundamental_div_mod_converse(
                i as int,
                channels as int,
                frames as int,
                0,
            );
        }
        assert(out@ =~= target);
    }
}

/// Sound that a composition plays: where it is, and the frame at which its
/// layer begins.
#[derive(Clone, Debug, PartialEq, Eq)]
pub struct AudioTrack {
    pub path: String,
    pub in_frame: u32,
}

/// Mathematical form of [`AudioTrack`].
pub struct TrackModel {
    pub path: Seq<char>,
    pub in_frame: u32,
}

impl View for AudioTrack {
    type V = TrackModel;

    open spec fn view(&self) -> TrackModel {
        TrackModel { path: self.path@, in_frame: self.in_frame }
    }
}

/// What `layer` plays: the file of its asset, if it is an audio layer and the
/// project has the asset.
pub open spec fn track_of(p: ProjectModel, layer: LayerModel) -> Option<TrackModel> {
    match layer.kind {
        LayerKind::Audio { asset } => match asset_index(p.assets, asset) {
            Some(i) => Some(TrackModel { path: p.assets[i].path, in_frame: layer.in_frame }),
            None => None,
        },
        _ => None,
    }
}

/// What `layers` play, in their order.
pub open spec fn tracks(p: ProjectModel, layers: Seq<LayerModel>) -> Seq<TrackModel>
    decreases layers.len(),
{
    if layers.len() == 0 {
        Seq::empty()
    } else {
        let rest = tracks(p, layers.drop_last());
        match track_of(p, layers.last()) {
            Some(t) => rest.push(t),
            None => rest,
        }
    }
}

/// What the composition `comp_id` plays; nothing if the project does not have
/// it.
pub fn audio_tracks(project: &Project, comp_id: CompId) -> (r: Vec<AudioTrack>)
    ensures
        views(r@) == match comp_index(project@.compositions, comp_id) {
            Some(i) => tracks(project@, project@.compositions[i].layers),
            None => Seq::empty(),
        },
{
    broadcast use group_views;

    let mut found: Vec<AudioTrack> = Vec::new();
    let comp = match project.composition(comp_id) {
        Some(c) => c,
        None => {
            return found;
        },
    };
    let ghost layers = comp@.layers;
    let mut i: usize = 0;
    while i < comp.layers.len()
        invariant
            i <= comp.layers.len(),
            layers == views(comp.layers@),
            views(found@) == tracks(project@, layers.take(i as int)),
        decreases comp.layers.len() - i,
    {
        let layer = &comp.layers[i];
        assert(layers[i as int] == layer@);
        assert(layers.take(i + 1).drop_last() =~= layers.take(i as int));
        assert(layers.take(i + 1).last() == layer@);
        if let LayerKind::Audio { asset } = layer.kind {
            if let Some(a) = project.asset(asset) {
                let ghost before = found@;
                let track = AudioTrack { path: a.path.clone(), in_frame: layer.in_frame };
                found.push(track);
                proof {
                    views_push(before, track);
                }
            }
        }
        i = i + 1;
    }
    assert(layers.take(i as int) =~= layers);
    found
}

/// Whether one of `layers` is an audio layer that plays `t`.
pub open spec fn is_played(p: ProjectModel, layers: Seq<LayerModel>, t: TrackModel) -> bool {
    exists|j: int|
        0 <= j < layers.len() && (#[trigger] layers[j]).kind is Audio && track_of(p, layers[j])
            == Some(t)
}

/// Each layer plays at most one track, and only audio layers play.
pub proof fn only_audio_layers_play(p: ProjectModel, layers: Seq<LayerModel>)
    ensures
        tracks(p, layers).len() <= layers.len(),
        forall|k: int|
            0 <= k < tracks(p, layers).len() ==> is_played(
                p,
                layers,
                #[trigger] tracks(p, layers)[k],
            ),
    decreases layers.len(),
{
    if layers.len() > 0 {
        let before = layers.drop_last();
        only_audio_layers_play(p, before);
        assert forall|k: int| 0 <= k < tracks(p, layers).len() implies is_played(
            p,
            layers,
            #[trigger] tracks(p, layers)[k],
        ) by {
            if k < tracks(p, before).len() {
                let t = tracks(p, before)[k];
                assert(tracks(p, layers)[k] == t);
                let j = choose|j: int|
                    0 <= j < before.len() && (#[trigger] before[j]).kind is Audio && track_of(
                        p,
                        before[j],
                    ) == Some(t);
                assert(layers[j] == before[j]);
            } else {
                assert(layers[layers.len() - 1] == layers.last());
            }
        }
    }
}

/// Silence of `pad` samples, followed by `pcm`.
pub open spec fn padded(pad: nat, pcm: Seq<Scalar>) -> Seq<Scalar> {
    Seq::new(pad, |i: int| zero()) + pcm
}

/// How many frames of silence bring audio to its place when its layer begins
/// at `in_frame`: the layer's time in frames of audio, to the nearest. At a
/// framerate of zero that is more than can be counted, but where there is
/// nothing to count.
pub open spec fn leading_frames(in_frame: u32, framerate: Framerate, sample_rate: u32) -> int {
    let t = time_of(Frame(in_frame), framerate);
    if t.den == 0 {
        if t.num * sample_rate == 0 {
            0
        } else {
            usize::MAX as int
        }
    } else {
        rounded(t.num * sample_rate, t.den as int)
    }
}

/// How many frames of silence bring audio to its place when its layer begins
/// at `in_frame`.
pub fn lead_in(in_frame: u32, framerate: Framerate, sample_rate: u32) -> (r: u128)
    ensures
        r == leading_frames(in_frame, framerate, sample_rate),
        r <= 2 * 0xffff_ffff * 0xffff_ffff + 0xffff_ffff,
{
    let t = Frame(in_frame).to_time(framerate);
    assert(0 <= t.num * sample_rate <= 0xffff_ffff * 0xffff_ffff) by (nonlinear_arith)
        requires
            0 <= t.num <= 0xffff_ffff,
            0 <= sample_rate <= 0xffff_ffff,
    ;
    let n: u128 = (t.num as u128) * (sample_rate as u128);
    let d: u128 = t.den as u128;
    if d == 0 {
        if n == 0 {
            0
        } else {
            usize::MAX as u128
        }
    } else {
        proof {
            div_no_larger((2 * n + d) as int, (2 * d) as int);
        }
        (2 * n + d) / (2 * d)
    }
}

/// A mixer source for audio whose layer begins at `in_frame`: at full volume,
/// in the middle, with silence up to the layer's beginning.
pub fn layer_source(decoded: &DecodedAudio, in_frame: u32, framerate: Framerate) -> (r: AudioSource)
    requires
        leading_frames(in_frame, framerate, decoded.sample_rate) * decoded.channels
            + decoded.pcm@.len() <= usize::MAX,
    ensures
        r.sample_rate == decoded.sample_rate,
        r.channels == decoded.channels,
        r.pcm@ == padded(
            (leading_frames(in_frame, framerate, decoded.sample_rate) * decoded.channels) as nat,
            decoded.pcm@,
        ),
        r.gain@ == crate::model::curve::CurveModel::Static(one()),
        r.pan@ == crate::model::curve::CurveModel::Static(zero()),
{
    let frames: u128 = lead_in(in_frame, framerate, decoded.sample_rate);
    assert(0 <= frames * decoded.channels <= u128::MAX) by (nonlinear_arith)
        requires
            0 <= frames <= 2 * 0xffff_ffff * 0xffff_ffff + 0xffff_ffff,
            0 <= decoded.channels <= 0xffff_ffff,
    ;
    let pad: usize = (frames * (decoded.channels as u128)) as usize;
    let mut pcm: Vec<Scalar> = Vec::new();
    let mut i: usize = 0;
    while i < pad
        invariant
            i <= pad,
            pcm@ =~= Seq::new(i as nat, |k: int| zero()),
        decreases pad - i,
    {
        pcm.push(Scalar::zero());
        i = i + 1;
    }
    let mut j: usize = 0;
    while j < decoded.pcm.len()
        invariant
            j <= decoded.pcm.len(),
            pcm@ =~= padded(pad as nat, decoded.pcm@.take(j as int)),
        decreases decoded.pcm.len() - j,
    {
        pcm.push(decoded.pcm[j]);
        j = j + 1;
    }
    assert(decoded.pcm@.take(j as int) =~= decoded.pcm@);
    AudioSource {
        sample_rate: decoded.sample_rate,
        channels: decoded.channels,
        pcm,
        gain: Curve::Static(Scalar::one()),
        pan: Curve::Static(Scalar::zero()),
    }
}

/// Where preview playback stands.
#[derive(Clone, Copy, Debug, PartialEq, Eq, Structural)]
pub struct AudioDrive {
    /// Whether the output device is open.
    pub open: bool,
    /// Whether the mixer sources no longer match the composition.
    pub bus_dirty: bool,
    /// Master-rate frames handed out since playback began.
    pub emit_cursor: u64,
    /// Frame at which playback began.
    pub start_frame: u32,
}

/// What playback needs next.
#[derive(Clone, Copy, Debug, PartialEq, Eq, Structural)]
pub enum AudioStep {
    /// Close the device.
    Close,
    /// Decode the audio layers anew.
    Rebuild,
    /// Open the device.
    Open,
    /// Mix a chunk that begins at `time` and queue it.
    Mix { time: Rational },
    /// Nothing for now.
    Idle,
}

/// The time of the next chunk in master-rate frames times `den`, where `den`
/// is the numerator of the framerate.
pub open spec fn chunk_position(d: AudioDrive, framerate: Framerate) -> int {
    time_of(Frame(d.start_frame), framerate).num * MASTER_RATE + d.emit_cursor * framerate.0.num
}

/// Whether playback began at a frame that a framerate of zero never reaches.
pub open spec fn never_reached(d: AudioDrive, framerate: Framerate) -> bool {
    framerate.0.num == 0 && time_of(Frame(d.start_frame), framerate).num > 0
}

/// Whether the next chunk begins at or after the end of the composition. At a
/// framerate of zero only a frame that is never reached is at the end.
pub open spec fn past_end(d: AudioDrive, framerate: Framerate, duration_frames: u32) -> bool {
    if framerate.0.num == 0 {
        never_reached(d, framerate) && duration_frames > 0
    } else {
        chunk_position(d, framerate) >= duration_frames * framerate.0.den * MASTER_RATE
    }
}

/// The time of the next chunk, to the nearest master-rate frame. At a
/// framerate of zero it is the beginning, or later than can be counted.
pub open spec fn chunk_time(d: AudioDrive, framerate: Framerate) -> Rational {
    let n = if framerate.0.num == 0 {
        if never_reached(d, framerate) {
            u32::MAX as int
        } else {
            0
        }
    } else {
        rounded(chunk_position(d, framerate), framerate.0.num as int)
    };
    Rational {
        num: if n > u32::MAX {
            u32::MAX
        } else {
            n as u32
        },
        den: MASTER_RATE,
    }
}

/// What playback needs next: nothing while stopped, with the device closed;
/// else up-to-date sources, an open device, and a full queue up to the end of
/// the composition.
pub open spec fn audio_step(
    d: AudioDrive,
    playing: bool,
    sources: nat,
    queued: nat,
    framerate: Framerate,
    duration_frames: u32,
) -> AudioStep {
    if !playing {
        if d.open {
            AudioStep::Close
        } else {
            AudioStep::Idle
        }
    } else if !d.open {
        if d.bus_dirty {
            AudioStep::Rebuild
        } else {
            AudioStep::Open
        }
    } else if sources == 0 || queued >= TARGET_QUEUE || past_end(d, framerate, duration_frames) {
        AudioStep::Idle
    } else {
        AudioStep::Mix { time: chunk_time(d, framerate) }
    }
}

impl AudioDrive {
    /// Playback before anything was played.
    pub fn new() -> (r: Self)
        ensures
            r == (AudioDrive { open: false, bus_dirty: true, emit_cursor: 0, start_frame: 0 }),
    {
        AudioDrive { open: false, bus_dirty: true, emit_cursor: 0, start_frame: 0 }
    }

    /// What playback needs next.
    pub fn step(
        &self,
        playing: bool,
        sources: usize,
        queued: usize,
        framerate: Framerate,
        duration_frames: u32,
    ) -> (r: AudioStep)
        ensures
            r == audio_step(
                *self,
                playing,
                sources as nat,
                queued as nat,
                framerate,
                duration_frames,
            ),
    {
        if !playing {
            return if self.open {
                AudioStep::Close
            } else {
                AudioStep::Idle
            };
        }
        if !self.open {
            return if self.bus_dirty {
                AudioStep::Rebuild
            } else {
                AudioStep::Open
            };
        }
        if sources == 0 || queued >= TARGET_QUEUE {
            return AudioStep::Idle;
        }
        let t = Frame(self.start_frame).to_time(framerate);
        let den: u32 = framerate.0.num;
        if den == 0 {
            if t.num > 0 && duration_frames > 0 {
                return AudioStep::Idle;
            }
            let num: u32 = if t.num > 0 {
                0xffff_ffff
            } else {
                0
            };
            return AudioStep::Mix { time: Rational { num, den: MASTER_RATE } };
        }
        proof {
            chunk_bounds(t.num, self.emit_cursor, den, duration_frames, framerate.0.den);
        }
        let position: u128 = (t.num as u128) * 48_000 + (self.emit_cursor as u128) * (den as u128);
        let end: u128 = (duration_frames as u128) * (framerate.0.den as u128) * 48_000;
        if position >= end {
            return AudioStep::Idle;
        }
        let n: u128 = (2 * position + den as u128) / (2 * (den as u128));
        let num: u32 = if n > 0xffff_ffff {
            0xffff_ffff
        } else {
            n as u32
        };
        AudioStep::Mix { time: Rational { num, den: MASTER_RATE } }
    }

    /// The sources were decoded anew.
    pub fn rebuilt(&mut self)
        ensures
            *final(self) == (AudioDrive { bus_dirty: false, ..*old(self) }),
    {
        self.bus_dirty = false;
    }

    /// The device was opened with the playhead at `frame`.
    pub fn opened(&mut self, frame: u32)
        ensures
            *final(self) == (AudioDrive {
                open: true,
                start_frame: frame,
                emit_cursor: 0,
                ..*old(self)
            }),
            *final(self) == opened_at(*old(self), frame),
    {
        self.open = true;
        self.start_frame = frame;
        self.emit_cursor = 0;
    }

    /// The device was closed.
    pub fn closed(&mut self)
        ensures
            *final(self) == (AudioDrive { open: false, ..*old(self) }),
    {
        self.open = false;
    }

    /// A chunk was mixed and queued.
    pub fn mixed(&mut self)
        requires
            old(self).emit_cursor + CHUNK_FRAMES <= u64::MAX,
        ensures
            *final(self) == (AudioDrive {
                emit_cursor: (old(self).emit_cursor + CHUNK_FRAMES) as u64,
                ..*old(self)
            }),
            *final(self) == after_chunk(*old(self)),
    {
        self.emit_cursor = self.emit_cursor + CHUNK_FRAMES as u64;
    }
}

proof fn chunk_bounds(num: u32, cursor: u64, den: u32, duration: u32, rate_den: u32)
    ensures
        0 <= cursor * den <= 0xffff_ffff_ffff_ffff * 0xffff_ffff,
        0 <= duration * rate_den <= 0xffff_ffff * 0xffff_ffff,
{
    assert(0 <= cursor * den <= 0xffff_ffff_ffff_ffff * 0xffff_ffff) by (nonlinear_arith)
        requires
            0 <= cursor <= 0xffff_ffff_ffff_ffff,
            0 <= den <= 0xffff_ffff,
    ;
    assert(0 <= duration * rate_den <= 0xffff_ffff * 0xffff_ffff) by (nonlinear_arith)
        requires
            0 <= duration <= 0xffff_ffff,
            0 <= rate_den <= 0xffff_ffff,
    ;
}

/// What is queued comes out in order: draining a queue in two parts gives the
/// samples that draining it once gives, and leaves the same rest.
pub proof fn drains_add_up(queue: Seq<Scalar>, a: nat, b: nat)
    ensures
        drained(queue, a) + drained(left_over(queue, a), b) == drained(queue, a + b),
        left_over(left_over(queue, a), b) == left_over(queue, a + b),
{
    assert(drained(queue, a) + drained(left_over(queue, a), b) =~= drained(queue, a + b));
    assert(left_over(left_over(queue, a), b) =~= left_over(queue, a + b));
}

/// Playback does not run on: once the frames handed out cover the whole
/// composition, no chunk is left to mix.
pub proof fn chunks_reach_the_end(d: AudioDrive, framerate: Framerate, duration_frames: u32)
    requires
        framerate.0.num > 0,
        d.emit_cursor >= duration_frames * framerate.0.den * MASTER_RATE,
    ensures
        past_end(d, framerate, duration_frames),
{
    let n = framerate.0.num as int;
    assert(d.emit_cursor * n >= d.emit_cursor) by (nonlinear_arith)
        requires
            n >= 1,
            d.emit_cursor >= 0,
    ;
}

/// What is drained comes from the front of the queue, in order, and the rest
/// stays queued. Past the end of the queue there is silence.
pub proof fn queue_is_drained_in_order(queue: Seq<Scalar>, n: nat, i: int)
    requires
        0 <= i < n,
    ensures
        drained(queue, n).len() == n,
        n <= queue.len() ==> drained(queue, n) + left_over(queue, n) == queue,
        i < queue.len() ==> drained(queue, n)[i] == queue[i],
        i >= queue.len() ==> drained(queue, n)[i] == zero() && left_over(queue, n).len() == 0,
{
    if n <= queue.len() {
        assert(drained(queue, n) + left_over(queue, n) =~= queue);
    }
}

/// Frame `f` of the stereo sound goes to the first two channels of frame `f`
/// of the output, and the other channels are silent.
pub proof fn sound_is_spread_by_frame(
    stereo: Seq<Scalar>,
    before: Seq<Scalar>,
    channels: int,
    f: int,
    c: int,
)
    requires
        channels > 0,
        0 <= f < before.len() as int / channels,
        0 <= c < channels,
    ensures
        0 <= f * channels + c < before.len(),
        spread(stereo, before, channels)[f * channels + c] == if c < 2 {
            stereo[2 * f + c]
        } else {
            zero()
        },
        spread(stereo, before, channels).len() == before.len(),
{
    let i = f * channels + c;
    let n = before.len() as int;
    let frames = n / channels;
    vstd::arithmetic::div_mod::lemma_fundamental_div_mod(n, channels);
    vstd::arithmetic::div_mod::lemma_mod_bound(n, channels);
    assert(i < frames * channels) by (nonlinear_arith)
        requires
            i == f * channels + c,
            f < frames,
            c < channels,
            channels > 0,
    ;
    assert(0 <= f * channels) by (nonlinear_arith)
        requires
            f >= 0,
            channels > 0,
    ;
    assert(channels * frames == frames * channels) by (nonlinear_arith);
    vstd::arithmetic::div_mod::lemma_fundamental_div_mod_converse(i, channels, f, c);
}

/// Two channels are taken as they come.
pub proof fn stereo_is_not_changed(stereo: Seq<Scalar>, before: Seq<Scalar>)
    requires
        stereo.len() == before.len(),
        before.len() % 2 == 0,
    ensures
        spread(stereo, before, 2) == stereo,
        wanted(before.len() as int, 2) == stereo.len(),
{
    assert(spread(stereo, before, 2) =~= stereo);
}

/// Whatever the channels of the output, two samples are drained per frame.
pub proof fn two_samples_are_drained_per_frame(frames: nat, channels: int)
    requires
        channels > 0,
    ensures
        wanted(frames * channels, channels) == 2 * frames,
{
    vstd::arithmetic::div_mod::lemma_div_by_multiple(frames as int, channels);
    if channels == 2 {
        assert(frames * channels == 2 * frames) by (nonlinear_arith)
            requires
                channels == 2,
        ;
    }
}

/// The tracks of layers that come one after the other come in that order.
pub proof fn tracks_follow_the_layers(p: ProjectModel, a: Seq<LayerModel>, b: Seq<LayerModel>)
    ensures
        tracks(p, a + b) == tracks(p, a) + tracks(p, b),
    decreases b.len(),
{
    if b.len() == 0 {
        assert(a + b =~= a);
        assert(tracks(p, a) + tracks(p, b) =~= tracks(p, a));
    } else {
        assert((a + b).drop_last() =~= a + b.drop_last());
        tracks_follow_the_layers(p, a, b.drop_last());
        assert(tracks(p, a + b) =~= tracks(p, a) + tracks(p, b));
    }
}

/// An audio layer whose asset is in the project plays the file of that asset
/// from the frame on at which the layer begins. No other layer plays.
pub proof fn audio_layer_plays_its_asset(p: ProjectModel, l: LayerModel)
    ensures
        match l.kind {
            LayerKind::Audio { asset } => match asset_index(p.assets, asset) {
                Some(i) => {
                    &&& tracks(p, seq![l]).len() == 1
                    &&& tracks(p, seq![l])[0].path == p.assets[i].path
                    &&& tracks(p, seq![l])[0].in_frame == l.in_frame
                },
                None => tracks(p, seq![l]).len() == 0,
            },
            _ => tracks(p, seq![l]).len() == 0,
        },
{
    assert(seq![l].drop_last() =~= Seq::<LayerModel>::empty());
    reveal_with_fuel(tracks, 2);
}

/// Padding puts silence in front of a sound and keeps the sound.
pub proof fn padding_leads_in(pad: nat, pcm: Seq<Scalar>, i: int)
    requires
        0 <= i < pad,
    ensures
        padded(pad, pcm)[i] == zero(),
        padded(pad, pcm).skip(pad as int) == pcm,
        padded(pad, pcm).len() == pad + pcm.len(),
{
    assert(padded(pad, pcm).skip(pad as int) =~= pcm);
}

/// The lead-in is the number of samples nearest to the time at which the layer
/// begins.
pub proof fn lead_in_is_nearest(in_frame: u32, framerate: Framerate, sample_rate: u32)
    requires
        framerate.0.num > 0,
        in_frame * framerate.0.den <= u32::MAX,
    ensures
        ({
            let apart = leading_frames(in_frame, framerate, sample_rate) * framerate.0.num
                - in_frame * framerate.0.den * sample_rate;
            -framerate.0.num < 2 * apart <= framerate.0.num
        }),
{
    let t = time_of(Frame(in_frame), framerate);
    assert(in_frame * framerate.0.den >= 0) by (nonlinear_arith);
    assert(t.num == in_frame * framerate.0.den);
    assert(t.num * sample_rate >= 0) by (nonlinear_arith);
    rounded_is_nearest(t.num * sample_rate, t.den as int);
}

/// The time of the next chunk is that of the start frame and of the samples
/// handed out since, to the nearest sample.
pub proof fn chunk_time_is_nearest(d: AudioDrive, framerate: Framerate)
    requires
        framerate.0.num > 0,
        d.start_frame * framerate.0.den <= u32::MAX,
        chunk_time(d, framerate).num < u32::MAX,
    ensures
        chunk_time(d, framerate).den == MASTER_RATE,
        ({
            let apart = (chunk_time(d, framerate).num - d.emit_cursor) * framerate.0.num
                - d.start_frame * framerate.0.den * MASTER_RATE;
            -framerate.0.num < 2 * apart <= framerate.0.num
        }),
{
    let n = framerate.0.num as int;
    let e = d.emit_cursor as int;
    assert(d.start_frame * framerate.0.den >= 0) by (nonlinear_arith);
    assert(e * n >= 0) by (nonlinear_arith)
        requires
            e >= 0,
            n > 0,
    ;
    let p = chunk_position(d, framerate);
    rounded_is_nearest(p, n);
    let r = rounded(p, n);
    assert((r - e) * n == r * n - e * n) by (nonlinear_arith);
}

/// Playback that begins within the composition begins before its end, and
/// once the end is passed it stays passed.
pub proof fn playback_ends_once(
    d: AudioDrive,
    later: AudioDrive,
    framerate: Framerate,
    duration_frames: u32,
)
    requires
        framerate.0.num > 0,
        framerate.0.den > 0,
        d.start_frame * framerate.0.den <= u32::MAX,
        later.start_frame == d.start_frame,
        later.emit_cursor >= d.emit_cursor,
    ensures
        past_end(d, framerate, duration_frames) ==> past_end(later, framerate, duration_frames),
        d.emit_cursor == 0 ==> (past_end(d, framerate, duration_frames) <==> d.start_frame
            >= duration_frames),
{
    let (n, k) = (framerate.0.num as int, framerate.0.den as int);
    let (s, l) = (d.start_frame as int, duration_frames as int);
    let (a, b) = (d.emit_cursor as int, later.emit_cursor as int);
    assert(a * n <= b * n) by (nonlinear_arith)
        requires
            a <= b,
            n > 0,
    ;
    assert(s * k >= 0) by (nonlinear_arith)
        requires
            s >= 0,
            k >= 0,
    ;
    if a == 0 {
        assert(a * n == 0) by (nonlinear_arith)
            requires
                a == 0,
        ;
        if s >= l {
            assert(s * k >= l * k) by (nonlinear_arith)
                requires
                    s >= l,
                    k > 0,
            ;
        } else {
            assert(s * k < l * k) by (nonlinear_arith)
                requires
                    s < l,
                    k > 0,
            ;
        }
    }
}

/// Sound is mixed only while the timeline plays into an open device that runs
/// short, from sources that there are, and before the end.
pub proof fn sound_is_mixed_when_due(
    d: AudioDrive,
    playing: bool,
    sources: nat,
    queued: nat,
    framerate: Framerate,
    duration_frames: u32,
)
    ensures
        ({
            let step = audio_step(d, playing, sources, queued, framerate, duration_frames);
            &&& step is Mix <==> playing && d.open && sources > 0 && queued < TARGET_QUEUE
                && !past_end(d, framerate, duration_frames)
            &&& step is Close <==> !playing && d.open
            &&& step is Rebuild <==> playing && !d.open && d.bus_dirty
            &&& step is Open <==> playing && !d.open && !d.bus_dirty
        }),
{
}

/// `d` with the device opened at `frame`.
pub open spec fn opened_at(d: AudioDrive, frame: u32) -> AudioDrive {
    AudioDrive { open: true, start_frame: frame, emit_cursor: 0, ..d }
}

/// `d` after one more chunk.
pub open spec fn after_chunk(d: AudioDrive) -> AudioDrive {
    AudioDrive { emit_cursor: (d.emit_cursor + CHUNK_FRAMES) as u64, ..d }
}

/// Playback that was opened at a frame begins with that frame's time, and each
/// chunk begins where the one before it ended.
pub proof fn chunks_follow_each_other(d: AudioDrive, framerate: Framerate, frame: u32)
    requires
        d.emit_cursor + CHUNK_FRAMES <= u64::MAX,
        framerate.0.num > 0,
        framerate.0.den > 0,
        frame * framerate.0.den <= u32::MAX,
        d.start_frame * framerate.0.den <= u32::MAX,
        chunk_time(after_chunk(d), framerate).num < u32::MAX,
    ensures
        opened_at(d, frame).open,
        opened_at(d, frame).start_frame == frame,
        opened_at(d, frame).emit_cursor == 0,
        opened_at(d, frame).bus_dirty == d.bus_dirty,
        after_chunk(d).open == d.open,
        after_chunk(d).start_frame == d.start_frame,
        chunk_time(after_chunk(d), framerate).num == chunk_time(d, framerate).num + CHUNK_FRAMES,
        frame == 0 ==> chunk_time(opened_at(d, frame), framerate).num == 0,
{
    let n = framerate.0.num as int;
    let k = CHUNK_FRAMES as int;
    let e = d.emit_cursor as int;
    let p = chunk_position(d, framerate);
    assert((e + k) * n == e * n + k * n) by (nonlinear_arith);
    assert(chunk_position(after_chunk(d), framerate) == p + k * n);
    assert(e * n >= 0 && k * n >= 0) by (nonlinear_arith)
        requires
            e >= 0,
            k >= 0,
            n > 0,
    ;
    assert((2 * (p + k * n) + n) == (2 * p + n) + k * (2 * n)) by (nonlinear_arith);
    vstd::arithmetic::div_mod::lemma_div_multiples_vanish_fancy(k, 0, 2 * n);
    vstd::arithmetic::div_mod::lemma_hoist_over_denominator(2 * p + n, k, (2 * n) as nat);
    if frame == 0 {
        let o = opened_at(d, frame);
        assert(frame * framerate.0.den == 0) by (nonlinear_arith)
            requires
                frame == 0,
        ;
        assert(o.emit_cursor * n == 0) by (nonlinear_arith)
            requires
                o.emit_cursor == 0,
        ;
        assert(chunk_position(o, framerate) == 0);
        assert((2 * 0 + n) / (2 * n) == 0) by (nonlinear_arith)
            requires
                n > 0,
        ;
    }
}

/// What is left of the output behind the last whole frame stays as it was.
pub proof fn rest_of_the_output_stays(
    stereo: Seq<Scalar>,
    before: Seq<Scalar>,
    channels: int,
    i: int,
)
    requires
        channels > 0,
        (before.len() as int / channels) * channels <= i < before.len(),
    ensures
        spread(stereo, before, channels)[i] == before[i],
{
    let n = before.len() as int;
    let frames = n / channels;
    vstd::arithmetic::div_mod::lemma_div_is_ordered(frames * channels, i, channels);
    vstd::arithmetic::div_mod::lemma_div_by_multiple(frames, channels);
}

/// Without a rate no frame but the first is ever reached: a start behind it
/// lies past the end of any composition, and a lead-in to it is endless.
pub proof fn without_a_rate_nothing_is_reached(
    d: AudioDrive,
    framerate: Framerate,
    duration_frames: u32,
    sample_rate: u32,
)
    requires
        framerate.0.num == 0,
        d.start_frame * framerate.0.den <= u32::MAX,
        duration_frames > 0,
        framerate.0.den > 0,
        sample_rate > 0,
    ensures
        past_end(d, framerate, duration_frames) <==> d.start_frame > 0,
        d.start_frame == 0 ==> chunk_time(d, framerate).num == 0,
        d.start_frame > 0 ==> chunk_time(d, framerate).num == u32::MAX,
        d.start_frame == 0 ==> leading_frames(d.start_frame, framerate, sample_rate) == 0,
        d.start_frame > 0 ==> leading_frames(d.start_frame, framerate, sample_rate) == usize::MAX,
{
    let (s, k) = (d.start_frame as int, framerate.0.den as int);
    if s > 0 {
        assert(s * k > 0) by (nonlinear_arith)
            requires
                s > 0,
                k > 0,
        ;
        let n = s * k;
        assert(n * sample_rate > 0) by (nonlinear_arith)
            requires
                n > 0,
                sample_rate > 0,
        ;
    } else {
        assert(s * k == 0) by (nonlinear_arith)
            requires
                s == 0,
        ;
    }
}

} // verus!
