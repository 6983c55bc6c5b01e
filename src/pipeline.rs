//! The per-file transcode pipeline as a state machine.
//!
//! A driver that owns the media library's handles asks the [`Transcoder`] for
//! its next [`Action`], performs it, and reports the outcome back as an
//! [`Event`]. Every decision of the pipeline (which setup step comes next,
//! what a failure releases, how many samples to resample, how output is cut
//! into timestamped chunks, when to truncate and how much silence to pad) is
//! taken here.
use vstd::prelude::*;

use crate::config::{lemma_min_samples_le_max_samples, ProcessorConfig};

verus! {

/// Samples per channel in one encoder input frame.
pub const CHUNK_SAMPLES: u32 = 1024;

/// Interleaved 32-bit float values held by the resample staging buffer.
pub const STAGING_CAPACITY: u32 = 8192;

/// Filter length of the resampler, in taps.
pub const RESAMPLER_FILTER_TAPS: u32 = 64;

/// Resampler cutoff, in thousandths of the Nyquist frequency.
pub const RESAMPLER_CUTOFF_PERMILLE: u32 = 970;

/// Channel count assumed when the source reports none.
pub const DEFAULT_CHANNELS: u32 = 2;

/// Number of resources held once setup has completed.
pub const RESOURCE_COUNT: u32 = 7;

/// A handle of the media library that must be released once acquired.
#[derive(Debug, Clone, Copy, PartialEq, Eq, Structural)]
pub enum Resource {
    InputContainer,
    DecoderContext,
    OutputContainer,
    EncoderContext,
    OutputIo,
    Resampler,
    FrameBuffers,
}

/// One step of per-file setup, in the order in which they run.
#[derive(Debug, Clone, Copy, PartialEq, Eq, Structural)]
pub enum SetupStep {
    OpenInput,
    ProbeStream,
    FindAudioStream,
    FindDecoder,
    OpenDecoder,
    AllocOutput,
    FindEncoder,
    CreateStream,
    OpenEncoder,
    OpenOutput,
    WriteHeader,
    InitResampler,
    AllocFrames,
}

/// Why one file could not be transcoded.
#[derive(Debug, Clone, Copy, PartialEq, Eq, Structural)]
pub enum PipelineError {
    OpenInputFailed,
    StreamProbeFailed,
    NoAudioStream,
    NoDecoder,
    DecoderOpenFailed,
    OutputAllocFailed,
    NoEncoder,
    StreamCreateFailed,
    EncoderOpenFailed,
    OutputOpenFailed,
    HeaderWriteFailed,
    ResamplerInitFailed,
    FrameAllocFailed,
}

/// What the driver is asked to do next.
#[derive(Debug, Clone, Copy)]
pub enum Action {
    /// Run one setup step; a step reported as failed must leave nothing of its own
    /// acquired. A decoder reported open is held even when its rate makes it unusable.
    Setup(SetupStep),
    /// Read the next packet of the input container.
    ReadPacket,
    /// Submit the packet just read to the decoder.
    SendPacket,
    /// Take the next decoded frame from the decoder.
    ReceiveFrame,
    /// Resample the frame just received into the staging buffer, at most `max_out` samples.
    Resample { in_samples: u32, max_out: u32 },
    /// Drain samples buffered in the resampler into the staging buffer, at most `max_out`.
    FlushResampler { max_out: u32 },
    /// Encode `len` samples of the staging buffer from sample `offset`, stamped `pts`.
    EncodeChunk { offset: u32, len: u32, pts: u64 },
    /// Encode `len` samples of silence stamped `pts`.
    EncodeSilence { len: u32, pts: u64 },
    /// Signal end of stream to the encoder and write what it still yields.
    FlushEncoder,
    /// Write the container trailer.
    WriteTrailer,
    /// Release one resource.
    Release(Resource),
    /// Nothing is left to do; this is the outcome for the file.
    Finish(Result<(), PipelineError>),
}

/// What the driver reports after performing an action.
#[derive(Debug, Clone, Copy, PartialEq, Eq, Structural)]
pub enum Event {
    /// The action succeeded.
    Done,
    /// The action failed.
    Failed,
    /// The best audio stream has this index.
    StreamFound { index: u32 },
    /// The decoder is open; the stream has this rate and channel count (0 when unknown).
    DecoderOpened { sample_rate: u32, channels: u32 },
    /// A packet of this stream was read.
    Packet { stream_index: u32 },
    /// The decoder yielded a frame of this many samples.
    Frame { samples: u32 },
    /// The input, or the decoder's supply of frames, is exhausted.
    Exhausted,
    /// The resampler wrote this many samples to the staging buffer.
    Converted { samples: u32 },
}

/// Where the pipeline stands.
#[derive(Debug, Clone, Copy)]
pub enum Phase {
    Setup(SetupStep),
    ReadPacket,
    SendPacket,
    ReceiveFrame,
    Resample { in_samples: u32, request: u32 },
    Encode { offset: u32, end: u32, flushing: bool },
    FlushResampler,
    Pad,
    FlushEncoder,
    WriteTrailer,
    Release { outcome: Result<(), PipelineError> },
    Finished { outcome: Result<(), PipelineError> },
}

pub open spec fn min_nat(a: nat, b: nat) -> nat {
    if a <= b {
        a
    } else {
        b
    }
}

pub open spec fn max_nat(a: nat, b: nat) -> nat {
    if a >= b {
        a
    } else {
        b
    }
}

/// `ceil(a / b)`.
pub open spec fn ceil_div(a: nat, b: nat) -> nat
    recommends
        b > 0,
{
    (a + b - 1) as nat / b
}

/// Sum of a sequence of sample counts.
pub open spec fn total(s: Seq<nat>) -> nat
    decreases s.len(),
{
    if s.len() == 0 {
        0
    } else {
        total(s.drop_last()) + s.last()
    }
}

/// The order in which resources are acquired.
pub open spec fn resource_at(i: nat) -> Resource {
    if i == 0 {
        Resource::InputContainer
    } else if i == 1 {
        Resource::DecoderContext
    } else if i == 2 {
        Resource::OutputContainer
    } else if i == 3 {
        Resource::EncoderContext
    } else if i == 4 {
        Resource::OutputIo
    } else if i == 5 {
        Resource::Resampler
    } else {
        Resource::FrameBuffers
    }
}

/// Whether a successful setup step acquires a resource.
pub open spec fn acquires(step: SetupStep) -> bool {
    match step {
        SetupStep::OpenInput | SetupStep::OpenDecoder | SetupStep::AllocOutput
        | SetupStep::OpenEncoder | SetupStep::OpenOutput | SetupStep::InitResampler
        | SetupStep::AllocFrames => true,
        _ => false,
    }
}

/// Resources held when a setup step starts.
pub open spec fn held_before(step: SetupStep) -> nat {
    match step {
        SetupStep::OpenInput => 0,
        SetupStep::ProbeStream | SetupStep::FindAudioStream | SetupStep::FindDecoder
        | SetupStep::OpenDecoder => 1,
        SetupStep::AllocOutput => 2,
        SetupStep::FindEncoder | SetupStep::CreateStream | SetupStep::OpenEncoder => 3,
        SetupStep::OpenOutput => 4,
        SetupStep::WriteHeader | SetupStep::InitResampler => 5,
        SetupStep::AllocFrames => 6,
    }
}

/// The step that follows a successful one; `None` after the last.
pub open spec fn step_after(step: SetupStep) -> Option<SetupStep> {
    match step {
        SetupStep::OpenInput => Some(SetupStep::ProbeStream),
        SetupStep::ProbeStream => Some(SetupStep::FindAudioStream),
        SetupStep::FindAudioStream => Some(SetupStep::FindDecoder),
        SetupStep::FindDecoder => Some(SetupStep::OpenDecoder),
        SetupStep::OpenDecoder => Some(SetupStep::AllocOutput),
        SetupStep::AllocOutput => Some(SetupStep::FindEncoder),
        SetupStep::FindEncoder => Some(SetupStep::CreateStream),
        SetupStep::CreateStream => Some(SetupStep::OpenEncoder),
        SetupStep::OpenEncoder => Some(SetupStep::OpenOutput),
        SetupStep::OpenOutput => Some(SetupStep::WriteHeader),
        SetupStep::WriteHeader => Some(SetupStep::InitResampler),
        SetupStep::InitResampler => Some(SetupStep::AllocFrames),
        SetupStep::AllocFrames => None,
    }
}

/// The error reported when a setup step fails.
pub open spec fn step_error(step: SetupStep) -> PipelineError {
    match step {
        SetupStep::OpenInput => PipelineError::OpenInputFailed,
        SetupStep::ProbeStream => PipelineError::StreamProbeFailed,
        SetupStep::FindAudioStream => PipelineError::NoAudioStream,
        SetupStep::FindDecoder => PipelineError::NoDecoder,
        SetupStep::OpenDecoder => PipelineError::DecoderOpenFailed,
        SetupStep::AllocOutput => PipelineError::OutputAllocFailed,
        SetupStep::FindEncoder => PipelineError::NoEncoder,
        SetupStep::CreateStream => PipelineError::StreamCreateFailed,
        SetupStep::OpenEncoder => PipelineError::EncoderOpenFailed,
        SetupStep::OpenOutput => PipelineError::OutputOpenFailed,
        SetupStep::WriteHeader => PipelineError::HeaderWriteFailed,
        SetupStep::InitResampler => PipelineError::ResamplerInitFailed,
        SetupStep::AllocFrames => PipelineError::FrameAllocFailed,
    }
}

/// `released` lists, most recent first, the resources acquired after the first `held`.
pub open spec fn released_in_reverse(held: nat, released: Seq<Resource>) -> bool {
    &&& held + released.len() <= RESOURCE_COUNT
    &&& forall|j: int|
        0 <= j < released.len() ==> #[trigger] released[j] == resource_at(
            (held + released.len() - 1 - j) as nat,
        )
}

/// The resources acquired in setup, `0..n` in acquisition order, listed last-acquired first.
pub open spec fn reverse_acquisition(n: nat) -> Seq<Resource> {
    Seq::new(n, |j: int| resource_at((n - 1 - j) as nat))
}

/// Per-file transcode state: setup progress, held resources and sample accounting.
pub struct Transcoder {
    pub config: ProcessorConfig,
    /// Padding target, `round(min_duration × rate)`.
    pub min_samples: u64,
    /// Truncation limit, `round(max_duration × rate)`.
    pub max_samples: u64,
    pub phase: Phase,
    /// Resources held: the first `held` of the acquisition order.
    pub held: u32,
    pub stream_index: u32,
    /// Sample rate of the decoded source.
    pub in_rate: u32,
    /// Channel count fixed when the decoder opened.
    pub channels: u32,
    /// Audio samples accepted for output so far.
    pub staged: u64,
    /// Samples encoded so far; the timestamp of the next chunk.
    pub written: u64,
    /// Samples the resampler has delivered so far.
    pub produced: Ghost<nat>,
    /// Sample counts of the chunks encoded so far, in order.
    pub chunks: Ghost<Seq<nat>>,
    /// Resources released so far, in order.
    pub released: Ghost<Seq<Resource>>,
}

/// Samples per channel that fit in the staging buffer.
pub open spec fn frame_capacity(channels: nat) -> nat {
    if channels == 0 {
        0
    } else {
        STAGING_CAPACITY as nat / channels
    }
}

impl Transcoder {
    /// The state a file starts in.
    pub open spec fn initial(config: ProcessorConfig) -> Transcoder {
        Transcoder {
            config,
            min_samples: config.spec_min_samples() as u64,
            max_samples: config.spec_max_samples() as u64,
            phase: Phase::Setup(SetupStep::OpenInput),
            held: 0,
            stream_index: 0,
            in_rate: 0,
            channels: 0,
            staged: 0,
            written: 0,
            produced: Ghost(0),
            chunks: Ghost(Seq::empty()),
            released: Ghost(Seq::empty()),
        }
    }

    /// Resample request for a decoded frame of `n` samples: the ceiling-rounded
    /// estimate of its output, bounded by the staging buffer.
    pub open spec fn request_for(self, n: nat) -> nat {
        min_nat(
            frame_capacity(self.channels as nat),
            ceil_div(n * self.config.target_sample_rate as nat, self.in_rate as nat),
        )
    }

    /// Every resource is held and none released: setup has completed.
    pub open spec fn running(self) -> bool {
        &&& self.held == RESOURCE_COUNT
        &&& self.released@.len() == 0
        &&& self.in_rate > 0
        &&& self.channels > 0
    }

    /// What every reachable state keeps: the output never exceeds the truncation limit
    /// and holds exactly the audio accepted (or, once padding starts, the audio followed
    /// by silence); timestamps are the running sum of chunk sizes; the resources held are
    /// a prefix of the acquisition order, and those released were released in reverse.
    pub open spec fn wf(self) -> bool {
        &&& self.config.wf()
        &&& self.min_samples == self.config.spec_min_samples()
        &&& self.max_samples == self.config.spec_max_samples()
        &&& self.min_samples <= self.max_samples
        &&& self.staged <= self.max_samples
        &&& self.staged == min_nat(self.produced@, self.max_samples as nat)
        &&& self.written == total(self.chunks@)
        &&& forall|i: int|
            0 <= i < self.chunks@.len() ==> 0 < #[trigger] self.chunks@[i] <= CHUNK_SAMPLES
        &&& released_in_reverse(self.held as nat, self.released@)
        &&& match self.phase {
            Phase::Setup(step) => {
                &&& self.held == held_before(step)
                &&& self.released@.len() == 0
                &&& self.produced@ == 0
                &&& self.chunks@.len() == 0
                &&& held_before(step) > 1 ==> self.in_rate > 0 && self.channels > 0
            },
            Phase::ReadPacket | Phase::SendPacket | Phase::ReceiveFrame => {
                &&& self.running()
                &&& self.written == self.staged
                &&& self.staged < self.max_samples
            },
            Phase::Resample { in_samples, request } => {
                &&& self.running()
                &&& self.written == self.staged
                &&& self.staged < self.max_samples
                &&& request == self.request_for(in_samples as nat)
            },
            Phase::Encode { offset, end, .. } => {
                &&& self.running()
                &&& offset < end
                &&& end <= frame_capacity(self.channels as nat)
                &&& self.written + (end - offset) == self.staged
            },
            Phase::FlushResampler => {
                &&& self.running()
                &&& self.written == self.staged
                &&& self.staged < self.max_samples
            },
            Phase::Pad => {
                &&& self.running()
                &&& self.staged <= self.written < self.min_samples
            },
            Phase::FlushEncoder | Phase::WriteTrailer => {
                &&& self.running()
                &&& self.written == max_nat(self.staged as nat, self.min_samples as nat)
            },
            Phase::Release { outcome } => {
                &&& self.held > 0
                &&& outcome is Ok ==> self.written == max_nat(
                    self.staged as nat,
                    self.min_samples as nat,
                )
            },
            Phase::Finished { outcome } => {
                &&& self.held == 0
                &&& outcome is Ok ==> self.written == max_nat(
                    self.staged as nat,
                    self.min_samples as nat,
                )
            },
        }
    }

    /// The action a state asks for.
    pub open spec fn action_of(self) -> Action {
        match self.phase {
            Phase::Setup(step) => Action::Setup(step),
            Phase::ReadPacket => Action::ReadPacket,
            Phase::SendPacket => Action::SendPacket,
            Phase::ReceiveFrame => Action::ReceiveFrame,
            Phase::Resample { in_samples, request } => Action::Resample {
                in_samples,
                max_out: request,
            },
            Phase::Encode { offset, end, flushing } => Action::EncodeChunk {
                offset,
                len: min_nat(CHUNK_SAMPLES as nat, (end - offset) as nat) as u32,
                pts: self.written,
            },
            Phase::FlushResampler => Action::FlushResampler {
                max_out: frame_capacity(self.channels as nat) as u32,
            },
            Phase::Pad => Action::EncodeSilence {
                len: min_nat(CHUNK_SAMPLES as nat, (self.min_samples - self.written) as nat) as u32,
                pts: self.written,
            },
            Phase::FlushEncoder => Action::FlushEncoder,
            Phase::WriteTrailer => Action::WriteTrailer,
            Phase::Release { .. } => Action::Release(resource_at((self.held - 1) as nat)),
            Phase::Finished { outcome } => Action::Finish(outcome),
        }
    }

    /// Ends the file with `outcome`, releasing whatever is held first.
    pub open spec fn begin_release(self, outcome: Result<(), PipelineError>) -> Transcoder {
        if self.held == 0 {
            Transcoder { phase: Phase::Finished { outcome }, ..self }
        } else {
            Transcoder { phase: Phase::Release { outcome }, ..self }
        }
    }

    /// After the audio: pad up to the minimum if short, else finish the encoder.
    pub open spec fn pad_or_finish(self) -> Transcoder {
        if self.written < self.min_samples {
            Transcoder { phase: Phase::Pad, ..self }
        } else {
            Transcoder { phase: Phase::FlushEncoder, ..self }
        }
    }

    /// Input is exhausted or truncated: drain the resampler while below the limit.
    pub open spec fn after_input(self) -> Transcoder {
        if self.staged < self.max_samples {
            Transcoder { phase: Phase::FlushResampler, ..self }
        } else {
            self.pad_or_finish()
        }
    }

    /// `got` samples are in the staging buffer: accept as many as the limit allows.
    pub open spec fn accept(self, got: nat, flushing: bool) -> Transcoder {
        let take = min_nat(got, (self.max_samples - self.staged) as nat);
        Transcoder {
            phase: Phase::Encode { offset: 0, end: take as u32, flushing },
            staged: (self.staged + take) as u64,
            produced: Ghost(self.produced@ + got),
            ..self
        }
    }

    /// A chunk of `len` samples was encoded.
    pub open spec fn record_chunk(self, len: nat) -> Transcoder {
        Transcoder {
            written: (self.written + len) as u64,
            chunks: Ghost(self.chunks@.push(len)),
            ..self
        }
    }

    /// The state after a successful setup step.
    pub open spec fn setup_done(self, step: SetupStep) -> Transcoder {
        let held = if acquires(step) {
            (self.held + 1) as u32
        } else {
            self.held
        };
        match step_after(step) {
            Some(s) => Transcoder { phase: Phase::Setup(s), held, ..self },
            None => if self.max_samples > 0 {
                Transcoder { phase: Phase::ReadPacket, held, ..self }
            } else {
                Transcoder { held, ..self }.pad_or_finish()
            },
        }
    }

    /// The state after the driver reports `e` for the current action.
    pub open spec fn next(self, e: Event) -> Transcoder {
        match self.phase {
            Phase::Setup(step) => match (step, e) {
                (SetupStep::FindAudioStream, Event::StreamFound { index }) => Transcoder {
                    stream_index: index,
                    ..self
                }.setup_done(step),
                (SetupStep::FindAudioStream, _) => self.begin_release(Err(step_error(step))),
                (SetupStep::OpenDecoder, Event::DecoderOpened { sample_rate, channels }) => {
                    if sample_rate == 0 {
                        Transcoder { held: (self.held + 1) as u32, ..self }.begin_release(
                            Err(step_error(step)),
                        )
                    } else {
                        Transcoder {
                            in_rate: sample_rate,
                            channels: if channels == 0 {
                                DEFAULT_CHANNELS
                            } else {
                                channels
                            },
                            ..self
                        }.setup_done(step)
                    }
                },
                (SetupStep::OpenDecoder, _) => self.begin_release(Err(step_error(step))),
                (_, Event::Done) => self.setup_done(step),
                (_, _) => self.begin_release(Err(step_error(step))),
            },
            Phase::ReadPacket => match e {
                Event::Packet { stream_index } => if stream_index == self.stream_index {
                    Transcoder { phase: Phase::SendPacket, ..self }
                } else {
                    self
                },
                _ => self.after_input(),
            },
            Phase::SendPacket => match e {
                Event::Done => Transcoder { phase: Phase::ReceiveFrame, ..self },
                _ => Transcoder { phase: Phase::ReadPacket, ..self },
            },
            Phase::ReceiveFrame => match e {
                Event::Frame { samples } => if self.staged >= self.max_samples {
                    self.after_input()
                } else {
                    Transcoder {
                        phase: Phase::Resample {
                            in_samples: samples,
                            request: self.request_for(samples as nat) as u32,
                        },
                        ..self
                    }
                },
                _ => Transcoder { phase: Phase::ReadPacket, ..self },
            },
            Phase::Resample { request, .. } => match e {
                Event::Converted { samples } => if min_nat(samples as nat, request as nat) == 0 {
                    Transcoder { phase: Phase::ReceiveFrame, ..self }
                } else {
                    self.accept(min_nat(samples as nat, request as nat), false)
                },
                _ => Transcoder { phase: Phase::ReceiveFrame, ..self },
            },
            Phase::Encode { offset, end, flushing } => match e {
                Event::Done => {
                    let len = min_nat(CHUNK_SAMPLES as nat, (end - offset) as nat);
                    let s = self.record_chunk(len);
                    if offset + len < end {
                        Transcoder {
                            phase: Phase::Encode { offset: (offset + len) as u32, end, flushing },
                            ..s
                        }
                    } else if flushing || s.staged >= s.max_samples {
                        s.after_input()
                    } else {
                        Transcoder { phase: Phase::ReceiveFrame, ..s }
                    }
                },
                _ => self.begin_release(Err(PipelineError::FrameAllocFailed)),
            },
            Phase::FlushResampler => match e {
                Event::Converted { samples } => {
                    let got = min_nat(samples as nat, frame_capacity(self.channels as nat));
                    if got == 0 {
                        self.pad_or_finish()
                    } else {
                        self.accept(got, true)
                    }
                },
                _ => self.pad_or_finish(),
            },
            Phase::Pad => match e {
                Event::Done => {
                    let len = min_nat(CHUNK_SAMPLES as nat, (self.min_samples - self.written) as nat);
                    let s = self.record_chunk(len);
                    if s.written < s.min_samples {
                        s
                    } else {
                        Transcoder { phase: Phase::FlushEncoder, ..s }
                    }
                },
                _ => self.begin_release(Err(PipelineError::FrameAllocFailed)),
            },
            Phase::FlushEncoder => Transcoder { phase: Phase::WriteTrailer, ..self },
            Phase::WriteTrailer => self.begin_release(Ok(())),
            Phase::Release { outcome } => {
                let s = Transcoder {
                    held: (self.held - 1) as u32,
                    released: Ghost(self.released@.push(resource_at((self.held - 1) as nat))),
                    ..self
                };
                if s.held == 0 {
                    Transcoder { phase: Phase::Finished { outcome }, ..s }
                } else {
                    s
                }
            },
            Phase::Finished { .. } => self,
        }
    }
}


impl Resource {
    /// The resource acquired `i`-th in setup.
    pub fn at(i: u32) -> (r: Resource)
        ensures
            r == resource_at(i as nat),
    {
        if i == 0 {
            Resource::InputContainer
        } else if i == 1 {
            Resource::DecoderContext
        } else if i == 2 {
            Resource::OutputContainer
        } else if i == 3 {
            Resource::EncoderContext
        } else if i == 4 {
            Resource::OutputIo
        } else if i == 5 {
            Resource::Resampler
        } else {
            Resource::FrameBuffers
        }
    }
}

impl SetupStep {
    /// Whether this step acquires a resource when it succeeds.
    pub fn acquires(self) -> (r: bool)
        ensures
            r == acquires(self),
    {
        match self {
            SetupStep::OpenInput | SetupStep::OpenDecoder | SetupStep::AllocOutput
            | SetupStep::OpenEncoder | SetupStep::OpenOutput | SetupStep::InitResampler
            | SetupStep::AllocFrames => true,
            _ => false,
        }
    }

    /// The step that follows this one.
    pub fn following(self) -> (r: Option<SetupStep>)
        ensures
            r == step_after(self),
    {
        match self {
            SetupStep::OpenInput => Some(SetupStep::ProbeStream),
            SetupStep::ProbeStream => Some(SetupStep::FindAudioStream),
            SetupStep::FindAudioStream => Some(SetupStep::FindDecoder),
            SetupStep::FindDecoder => Some(SetupStep::OpenDecoder),
            SetupStep::OpenDecoder => Some(SetupStep::AllocOutput),
            SetupStep::AllocOutput => Some(SetupStep::FindEncoder),
            SetupStep::FindEncoder => Some(SetupStep::CreateStream),
            SetupStep::CreateStream => Some(SetupStep::OpenEncoder),
            SetupStep::OpenEncoder => Some(SetupStep::OpenOutput),
            SetupStep::OpenOutput => Some(SetupStep::WriteHeader),
            SetupStep::WriteHeader => Some(SetupStep::InitResampler),
            SetupStep::InitResampler => Some(SetupStep::AllocFrames),
            SetupStep::AllocFrames => None,
        }
    }

    /// The error reported when this step fails.
    pub fn error(self) -> (r: PipelineError)
        ensures
            r == step_error(self),
    {
        match self {
            SetupStep::OpenInput => PipelineError::OpenInputFailed,
            SetupStep::ProbeStream => PipelineError::StreamProbeFailed,
            SetupStep::FindAudioStream => PipelineError::NoAudioStream,
            SetupStep::FindDecoder => PipelineError::NoDecoder,
            SetupStep::OpenDecoder => PipelineError::DecoderOpenFailed,
            SetupStep::AllocOutput => PipelineError::OutputAllocFailed,
            SetupStep::FindEncoder => PipelineError::NoEncoder,
            SetupStep::CreateStream => PipelineError::StreamCreateFailed,
            SetupStep::OpenEncoder => PipelineError::EncoderOpenFailed,
            SetupStep::OpenOutput => PipelineError::OutputOpenFailed,
            SetupStep::WriteHeader => PipelineError::HeaderWriteFailed,
            SetupStep::InitResampler => PipelineError::ResamplerInitFailed,
            SetupStep::AllocFrames => PipelineError::FrameAllocFailed,
        }
    }
}

/// Smaller of two counts.
fn min_u64(a: u64, b: u64) -> (r: u64)
    ensures
        r == min_nat(a as nat, b as nat),
{
    if a <= b {
        a
    } else {
        b
    }
}

impl Transcoder {
    /// Starts a file under `config`; the first action is opening the input.
    pub fn new(config: ProcessorConfig) -> (r: Transcoder)
        requires
            config.wf(),
        ensures
            r == Transcoder::initial(config),
            r.wf(),
    {
        let r = Transcoder {
            config,
            min_samples: config.min_samples(),
            max_samples: config.max_samples(),
            phase: Phase::Setup(SetupStep::OpenInput),
            held: 0,
            stream_index: 0,
            in_rate: 0,
            channels: 0,
            staged: 0,
            written: 0,
            produced: Ghost(0),
            chunks: Ghost(Seq::empty()),
            released: Ghost(Seq::empty()),
        };
        proof {
            lemma_min_samples_le_max_samples(config);
        }
        r
    }

    /// Samples to request from the resampler for a frame of `n` input samples.
    fn request(&self, n: u32) -> (r: u32)
        requires
            self.in_rate > 0,
            self.channels > 0,
        ensures
            r == self.request_for(n as nat),
    {
        let cap: u32 = STAGING_CAPACITY / self.channels;
        let rate = self.config.target_sample_rate as u64;
        let in_rate = self.in_rate as u64;
        assert(n as nat * rate <= 0xffff_ffff * 0xffff_ffff) by (nonlinear_arith)
            requires
                n <= 0xffff_ffff,
                rate <= 0xffff_ffff,
        ;
        let est: u64 = (n as u64 * rate + (in_rate - 1)) / in_rate;
        if est < cap as u64 {
            est as u32
        } else {
            cap
        }
    }

    /// The action the driver is to perform next.
    pub fn action(&self) -> (r: Action)
        requires
            self.wf(),
        ensures
            r == self.action_of(),
    {
        match self.phase {
            Phase::Setup(step) => Action::Setup(step),
            Phase::ReadPacket => Action::ReadPacket,
            Phase::SendPacket => Action::SendPacket,
            Phase::ReceiveFrame => Action::ReceiveFrame,
            Phase::Resample { in_samples, request } => Action::Resample {
                in_samples,
                max_out: request,
            },
            Phase::Encode { offset, end, flushing } => Action::EncodeChunk {
                offset,
                len: min_u64(CHUNK_SAMPLES as u64, (end - offset) as u64) as u32,
                pts: self.written,
            },
            Phase::FlushResampler => Action::FlushResampler {
                max_out: STAGING_CAPACITY / self.channels,
            },
            Phase::Pad => Action::EncodeSilence {
                len: min_u64(CHUNK_SAMPLES as u64, self.min_samples - self.written) as u32,
                pts: self.written,
            },
            Phase::FlushEncoder => Action::FlushEncoder,
            Phase::WriteTrailer => Action::WriteTrailer,
            Phase::Release { .. } => Action::Release(Resource::at(self.held - 1)),
            Phase::Finished { outcome } => Action::Finish(outcome),
        }
    }

    fn begin_release_exec(&mut self, outcome: Result<(), PipelineError>)
        ensures
            *final(self) == old(self).begin_release(outcome),
    {
        if self.held == 0 {
            self.phase = Phase::Finished { outcome };
        } else {
            self.phase = Phase::Release { outcome };
        }
    }

    fn pad_or_finish_exec(&mut self)
        ensures
            *final(self) == old(self).pad_or_finish(),
    {
        if self.written < self.min_samples {
            self.phase = Phase::Pad;
        } else {
            self.phase = Phase::FlushEncoder;
        }
    }

    fn after_input_exec(&mut self)
        ensures
            *final(self) == old(self).after_input(),
    {
        if self.staged < self.max_samples {
            self.phase = Phase::FlushResampler;
        } else {
            self.pad_or_finish_exec();
        }
    }

    fn accept_exec(&mut self, got: u32, flushing: bool)
        requires
            old(self).staged <= old(self).max_samples,
        ensures
            *final(self) == old(self).accept(got as nat, flushing),
    {
        let take = min_u64(got as u64, self.max_samples - self.staged);
        self.phase = Phase::Encode { offset: 0, end: take as u32, flushing };
        self.staged = self.staged + take;
        self.produced = Ghost(self.produced@ + got as nat);
    }

    fn record_chunk_exec(&mut self, len: u32)
        requires
            old(self).written + len <= u64::MAX,
        ensures
            *final(self) == old(self).record_chunk(len as nat),
    {
        self.written = self.written + len as u64;
        self.chunks = Ghost(self.chunks@.push(len as nat));
    }

    fn setup_done_exec(&mut self, step: SetupStep)
        requires
            old(self).held < u32::MAX,
        ensures
            *final(self) == old(self).setup_done(step),
    {
        if step.acquires() {
            self.held = self.held + 1;
        }
        match step.following() {
            Some(s) => self.phase = Phase::Setup(s),
            None => if self.max_samples > 0 {
                self.phase = Phase::ReadPacket;
            } else {
                self.pad_or_finish_exec();
            },
        }
    }

    /// Takes the driver's report `e` on the current action and moves to the next state.
    pub fn handle(&mut self, e: Event)
        requires
            old(self).wf(),
        ensures
            *final(self) == old(self).next(e),
            final(self).wf(),
    {
        proof {
            lemma_next_wf(*self, e);
            lemma_min_samples_le_max_samples(self.config);
        }
        match self.phase {
            Phase::Setup(step) => match (step, e) {
                (SetupStep::FindAudioStream, Event::StreamFound { index }) => {
                    self.stream_index = index;
                    self.setup_done_exec(step);
                },
                (SetupStep::FindAudioStream, _) => self.begin_release_exec(Err(step.error())),
                (SetupStep::OpenDecoder, Event::DecoderOpened { sample_rate, channels }) => {
                    if sample_rate == 0 {
                        // The decoder is open, so it is released with the rest.
                        self.held = self.held + 1;
                        self.begin_release_exec(Err(step.error()));
                    } else {
                        self.in_rate = sample_rate;
                        self.channels = if channels == 0 {
                            DEFAULT_CHANNELS
                        } else {
                            channels
                        };
                        self.setup_done_exec(step);
                    }
                },
                (SetupStep::OpenDecoder, _) => self.begin_release_exec(Err(step.error())),
                (_, Event::Done) => self.setup_done_exec(step),
                (_, _) => self.begin_release_exec(Err(step.error())),
            },
            Phase::ReadPacket => match e {
                Event::Packet { stream_index } => {
                    if stream_index == self.stream_index {
                        self.phase = Phase::SendPacket;
                    }
                },
                _ => self.after_input_exec(),
            },
            Phase::SendPacket => match e {
                Event::Done => self.phase = Phase::ReceiveFrame,
                _ => self.phase = Phase::ReadPacket,
            },
            Phase::ReceiveFrame => match e {
                Event::Frame { samples } => {
                    if self.staged >= self.max_samples {
                        self.after_input_exec();
                    } else {
                        let request = self.request(samples);
                        self.phase = Phase::Resample { in_samples: samples, request };
                    }
                },
                _ => self.phase = Phase::ReadPacket,
            },
            Phase::Resample { request, .. } => match e {
                Event::Converted { samples } => {
                    let got = if samples <= request {
                        samples
                    } else {
                        request
                    };
                    if got == 0 {
                        self.phase = Phase::ReceiveFrame;
                    } else {
                        self.accept_exec(got, false);
                    }
                },
                _ => self.phase = Phase::ReceiveFrame,
            },
            Phase::Encode { offset, end, flushing } => match e {
                Event::Done => {
                    let len = min_u64(CHUNK_SAMPLES as u64, (end - offset) as u64) as u32;
                    self.record_chunk_exec(len);
                    if offset + len < end {
                        self.phase = Phase::Encode { offset: offset + len, end, flushing };
                    } else if flushing || self.staged >= self.max_samples {
                        self.after_input_exec();
                    } else {
                        self.phase = Phase::ReceiveFrame;
                    }
                },
                _ => self.begin_release_exec(Err(PipelineError::FrameAllocFailed)),
            },
            Phase::FlushResampler => match e {
                Event::Converted { samples } => {
                    let cap: u32 = STAGING_CAPACITY / self.channels;
                    let got = if samples <= cap {
                        samples
                    } else {
                        cap
                    };
                    if got == 0 {
                        self.pad_or_finish_exec();
                    } else {
                        self.accept_exec(got, true);
                    }
                },
                _ => self.pad_or_finish_exec(),
            },
            Phase::Pad => match e {
                Event::Done => {
                    let len = min_u64(CHUNK_SAMPLES as u64, self.min_samples - self.written) as u32;
                    self.record_chunk_exec(len);
                    if self.written >= self.min_samples {
                        self.phase = Phase::FlushEncoder;
                    }
                },
                _ => self.begin_release_exec(Err(PipelineError::FrameAllocFailed)),
            },
            Phase::FlushEncoder => self.phase = Phase::WriteTrailer,
            Phase::WriteTrailer => self.begin_release_exec(Ok(())),
            Phase::Release { outcome } => {
                let last = Resource::at(self.held - 1);
                self.held = self.held - 1;
                self.released = Ghost(self.released@.push(last));
                if self.held == 0 {
                    self.phase = Phase::Finished { outcome };
                }
            },
            Phase::Finished { .. } => {},
        }
    }
}

/// Adding one count to a sequence adds it to the sum.
pub proof fn lemma_total_push(s: Seq<nat>, x: nat)
    ensures
        total(s.push(x)) == total(s) + x,
{
    assert(s.push(x).drop_last() =~= s);
}

/// Releasing the most recent resource keeps the release log in reverse acquisition order.
proof fn lemma_release_one(held: nat, released: Seq<Resource>)
    requires
        held > 0,
        released_in_reverse(held, released),
    ensures
        released_in_reverse((held - 1) as nat, released.push(resource_at((held - 1) as nat))),
{
    let r = released.push(resource_at((held - 1) as nat));
    assert forall|j: int| 0 <= j < r.len() implies #[trigger] r[j] == resource_at(
        ((held - 1) as nat + r.len() - 1 - j) as nat,
    ) by {
        if j < released.len() {
            assert(r[j] == released[j]);
        }
    }
}

/// Every transition keeps the state well formed.
pub proof fn lemma_next_wf(s: Transcoder, e: Event)
    requires
        s.wf(),
    ensures
        s.next(e).wf(),
{
    lemma_min_samples_le_max_samples(s.config);
    match s.phase {
        Phase::Encode { offset, end, .. } => {
            let len = min_nat(CHUNK_SAMPLES as nat, (end - offset) as nat);
            lemma_total_push(s.chunks@, len);
        },
        Phase::Pad => {
            let len = min_nat(CHUNK_SAMPLES as nat, (s.min_samples - s.written) as nat);
            lemma_total_push(s.chunks@, len);
        },
        Phase::Release { .. } => {
            lemma_release_one(s.held as nat, s.released@);
        },
        _ => {},
    }
}

/// The state after the driver reports each of `es` in turn.
pub open spec fn run(s: Transcoder, es: Seq<Event>) -> Transcoder
    decreases es.len(),
{
    if es.len() == 0 {
        s
    } else {
        run(s.next(es[0]), es.drop_first())
    }
}

/// A file that finishes successfully holds `max(min_samples, min(produced, max_samples))`
/// samples, where `produced` is what the resampler delivered: a long source is cut to
/// exactly `max_samples`, a source within the window keeps its length with no padding,
/// and a short source is padded to exactly `min_samples`.
pub proof fn lemma_finished_length(s: Transcoder)
    requires
        s.wf(),
        s.phase matches Phase::Finished { outcome } && outcome is Ok,
    ensures
        s.written == max_nat(s.min_samples as nat, min_nat(s.produced@, s.max_samples as nat)),
        s.produced@ >= s.max_samples ==> s.written == s.max_samples,
        s.min_samples <= s.produced@ <= s.max_samples ==> s.written == s.produced@ && s.written
            == s.staged,
        s.produced@ < s.min_samples ==> s.written == s.min_samples && s.staged == s.produced@,
{
}

/// Audio chunks cover output samples `0..staged`; silence chunks come after them and
/// stop at `min_samples`.
pub proof fn lemma_silence_follows_audio(s: Transcoder)
    requires
        s.wf(),
    ensures
        s.action_of() matches Action::EncodeChunk { offset, len, pts } ==> pts + len <= s.staged,
        s.action_of() matches Action::EncodeSilence { len, pts } ==> s.staged <= pts && pts + len
            <= s.min_samples,
{
}

/// Input is only read, decoded and resampled while the output is below `max_samples`:
/// once the limit is reached no further input is consumed.
pub proof fn lemma_no_input_past_limit(s: Transcoder)
    requires
        s.wf(),
    ensures
        s.action_of() is ReadPacket ==> s.staged < s.max_samples,
        s.action_of() is SendPacket ==> s.staged < s.max_samples,
        s.action_of() is ReceiveFrame ==> s.staged < s.max_samples,
        s.action_of() is Resample ==> s.staged < s.max_samples,
        s.action_of() is FlushResampler ==> s.staged < s.max_samples,
        s.staged <= s.max_samples,
{
}

/// Each chunk is stamped with the sum of the sample counts of all chunks before it, and
/// once it is encoded the next stamp is larger by its own count.
pub proof fn lemma_chunk_timestamps(s: Transcoder)
    requires
        s.wf(),
    ensures
        s.action_of() matches Action::EncodeChunk { offset, len, pts } ==> {
            &&& pts == total(s.chunks@)
            &&& 0 < len <= CHUNK_SAMPLES
            &&& s.next(Event::Done).chunks@ == s.chunks@.push(len as nat)
            &&& s.next(Event::Done).written == pts + len
        },
        s.action_of() matches Action::EncodeSilence { len, pts } ==> {
            &&& pts == total(s.chunks@)
            &&& 0 < len <= CHUNK_SAMPLES
            &&& s.next(Event::Done).chunks@ == s.chunks@.push(len as nat)
            &&& s.next(Event::Done).written == pts + len
        },
{
}

/// A finished file has released every resource it acquired, each once, last acquired first.
pub proof fn lemma_finished_released_all(s: Transcoder)
    requires
        s.wf(),
        s.phase is Finished,
    ensures
        s.held == 0,
        s.released@ == reverse_acquisition(s.released@.len()),
{
    assert(s.released@ =~= reverse_acquisition(s.released@.len()));
}

/// While releasing, `held` more reports (whatever they say) finish the file with its outcome.
proof fn lemma_release_run(s: Transcoder, es: Seq<Event>)
    requires
        s.wf(),
        s.phase is Release,
        es.len() == s.held,
    ensures
        run(s, es).phase == (Phase::Finished { outcome: s.phase->Release_outcome }),
        run(s, es).held == 0,
        run(s, es).released@.len() == s.released@.len() + s.held,
        run(s, es).wf(),
    decreases es.len(),
{
    lemma_next_wf(s, es[0]);
    let t = s.next(es[0]);
    if t.held > 0 {
        lemma_release_run(t, es.drop_first());
    } else {
        assert(es.drop_first().len() == 0);
    }
}

/// When a setup step fails, the next reports (as many as resources were held, whatever
/// they say) release exactly the resources acquired before it, last acquired first, and
/// the file ends with that step's error.
pub proof fn lemma_setup_failure_releases(s: Transcoder, step: SetupStep, es: Seq<Event>)
    requires
        s.wf(),
        s.phase == Phase::Setup(step),
        es.len() == held_before(step),
    ensures
        run(s.next(Event::Failed), es).phase == (Phase::Finished {
            outcome: Err(step_error(step)),
        }),
        run(s.next(Event::Failed), es).held == 0,
        run(s.next(Event::Failed), es).released@ == reverse_acquisition(held_before(step)),
{
    lemma_next_wf(s, Event::Failed);
    let t = s.next(Event::Failed);
    if held_before(step) > 0 {
        lemma_release_run(t, es);
    } else {
        assert(es.len() == 0);
    }
    lemma_finished_released_all(run(t, es));
}

/// What the pipeline asks of the media library depends only on the configuration and on
/// what the library reports: two runs of a file under equal configurations, given the
/// same reports, ask for the same actions at every point and end in the same state.
pub proof fn lemma_runs_agree(c1: ProcessorConfig, c2: ProcessorConfig, es: Seq<Event>)
    requires
        c1 == c2,
    ensures
        run(Transcoder::initial(c1), es) == run(Transcoder::initial(c2), es),
        forall|i: int|
            0 <= i <= es.len() ==> #[trigger] run(Transcoder::initial(c1), es.take(i)).action_of()
                == run(Transcoder::initial(c2), es.take(i)).action_of(),
{
}

} // verus!
