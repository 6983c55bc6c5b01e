use audio_prep::config::ProcessorConfig;
use audio_prep::pipeline::{Action, Event, PipelineError, Resource, SetupStep, Transcoder};

/// A stand-in for the media library that counts handles and records encoded chunks.
struct FakeMedia {
    fail_at: Option<SetupStep>,
    fail_chunk: Option<usize>,
    source_rate: u32,
    channels: u32,
    /// Decoded frames still to come, one per packet of the audio stream.
    frames: Vec<u32>,
    /// Packets of another stream to read before each audio packet.
    foreign_packets: bool,
    reject_every_other_packet: bool,
    packets_read: usize,
    pending_frame: Option<u32>,
    out_rate: u32,
    in_total: u64,
    emitted: u64,
    acquired: Vec<Resource>,
    released: Vec<Resource>,
    /// (pts, len, is_silence)
    chunks: Vec<(u64, u32, bool)>,
    resample_calls: usize,
    trailer_written: bool,
}

impl FakeMedia {
    fn new(source_rate: u32, channels: u32, source_samples: u64, out_rate: u32) -> FakeMedia {
        let mut frames = Vec::new();
        let mut left = source_samples;
        while left > 0 {
            let n = if left > 1000 { 1000 } else { left };
            frames.push(n as u32);
            left -= n;
        }
        frames.reverse();
        FakeMedia {
            fail_at: None,
            fail_chunk: None,
            source_rate,
            channels,
            frames,
            foreign_packets: false,
            reject_every_other_packet: false,
            packets_read: 0,
            pending_frame: None,
            out_rate,
            in_total: 0,
            emitted: 0,
            acquired: Vec::new(),
            released: Vec::new(),
            chunks: Vec::new(),
            resample_calls: 0,
            trailer_written: false,
        }
    }

    fn buffered(&self) -> u64 {
        self.in_total * self.out_rate as u64 / self.source_rate as u64 - self.emitted
    }

    fn perform(&mut self, a: Action) -> Event {
        match a {
            Action::Setup(step) => {
                if self.fail_at == Some(step) {
                    return Event::Failed;
                }
                let res = match step {
                    SetupStep::OpenInput => Some(Resource::InputContainer),
                    SetupStep::OpenDecoder => Some(Resource::DecoderContext),
                    SetupStep::AllocOutput => Some(Resource::OutputContainer),
                    SetupStep::OpenEncoder => Some(Resource::EncoderContext),
                    SetupStep::OpenOutput => Some(Resource::OutputIo),
                    SetupStep::InitResampler => Some(Resource::Resampler),
                    SetupStep::AllocFrames => Some(Resource::FrameBuffers),
                    _ => None,
                };
                if let Some(r) = res {
                    self.acquired.push(r);
                }
                match step {
                    SetupStep::FindAudioStream => Event::StreamFound { index: 0 },
                    SetupStep::OpenDecoder => Event::DecoderOpened {
                        sample_rate: self.source_rate,
                        channels: self.channels,
                    },
                    _ => Event::Done,
                }
            }
            Action::ReadPacket => {
                self.packets_read += 1;
                if self.foreign_packets && self.packets_read % 2 == 1 {
                    return Event::Packet { stream_index: 1 };
                }
                match self.frames.pop() {
                    Some(n) => {
                        self.pending_frame = Some(n);
                        Event::Packet { stream_index: 0 }
                    }
                    None => Event::Exhausted,
                }
            }
            Action::SendPacket => {
                if self.reject_every_other_packet && self.packets_read % 2 == 0 {
                    self.pending_frame = None;
                    Event::Failed
                } else {
                    Event::Done
                }
            }
            Action::ReceiveFrame => match self.pending_frame.take() {
                Some(n) => Event::Frame { samples: n },
                None => Event::Exhausted,
            },
            Action::Resample { in_samples, max_out } => {
                self.resample_calls += 1;
                self.in_total += in_samples as u64;
                let n = self.buffered().min(max_out as u64);
                self.emitted += n;
                Event::Converted { samples: n as u32 }
            }
            Action::FlushResampler { max_out } => {
                let n = self.buffered().min(max_out as u64);
                self.emitted += n;
                Event::Converted { samples: n as u32 }
            }
            Action::EncodeChunk { offset: _, len, pts } => {
                if self.fail_chunk == Some(self.chunks.len()) {
                    return Event::Failed;
                }
                self.chunks.push((pts, len, false));
                Event::Done
            }
            Action::EncodeSilence { len, pts } => {
                if self.fail_chunk == Some(self.chunks.len()) {
                    return Event::Failed;
                }
                self.chunks.push((pts, len, true));
                Event::Done
            }
            Action::FlushEncoder => Event::Done,
            Action::WriteTrailer => {
                self.trailer_written = true;
                Event::Done
            }
            Action::Release(r) => {
                self.released.push(r);
                Event::Done
            }
            Action::Finish(_) => Event::Done,
        }
    }

    fn audio_samples(&self) -> u64 {
        self.chunks.iter().filter(|c| !c.2).map(|c| c.1 as u64).sum()
    }

    fn silence_samples(&self) -> u64 {
        self.chunks.iter().filter(|c| c.2).map(|c| c.1 as u64).sum()
    }

    fn total_samples(&self) -> u64 {
        self.audio_samples() + self.silence_samples()
    }
}

fn config(rate: u32, min_ms: u32, max_ms: u32) -> ProcessorConfig {
    ProcessorConfig::new(rate, min_ms, max_ms).unwrap()
}

fn drive(media: &mut FakeMedia, cfg: ProcessorConfig) -> (Transcoder, Result<(), PipelineError>) {
    let mut t = Transcoder::new(cfg);
    for _ in 0..1_000_000 {
        let a = t.action();
        if let Action::Finish(outcome) = a {
            return (t, outcome);
        }
        let e = media.perform(a);
        t.handle(e);
    }
    panic!("the pipeline did not finish");
}

fn assert_contiguous(media: &FakeMedia) {
    let mut expected: u64 = 0;
    for &(pts, len, _) in &media.chunks {
        assert_eq!(pts, expected);
        assert!(len > 0 && len <= 1024);
        expected += len as u64;
    }
}

fn assert_released_in_reverse(media: &FakeMedia) {
    let mut rev = media.acquired.clone();
    rev.reverse();
    assert_eq!(media.released, rev);
}

#[test]
fn short_mono_clip_is_padded_to_minimum() {
    // 1.5 s of mono audio at 32 kHz, resampled to 16 kHz, window 3..5 s.
    let mut media = FakeMedia::new(32000, 1, 48000, 16000);
    let (t, outcome) = drive(&mut media, config(16000, 3000, 5000));
    assert_eq!(outcome, Ok(()));
    assert_eq!(t.channels, 1);
    assert_eq!(media.total_samples(), 48000);
    assert_eq!(media.audio_samples(), 24000);
    assert_eq!(media.silence_samples(), 24000);
    let first_silence = media.chunks.iter().position(|c| c.2).unwrap();
    assert_eq!(media.chunks[first_silence].0, 24000);
    assert!(media.chunks[first_silence..].iter().all(|c| c.2));
    assert_contiguous(&media);
    assert_released_in_reverse(&media);
    assert_eq!(media.acquired.len(), 7);
    assert!(media.trailer_written);
}

#[test]
fn long_clip_is_truncated_to_maximum() {
    // 8 s at 32 kHz, window 3..5 s at 16 kHz.
    let mut media = FakeMedia::new(32000, 2, 256000, 16000);
    let (_, outcome) = drive(&mut media, config(16000, 3000, 5000));
    assert_eq!(outcome, Ok(()));
    assert_eq!(media.total_samples(), 80000);
    assert_eq!(media.silence_samples(), 0);
    // The resampler saw no input beyond what reaching the limit needed:
    // 160 frames of 1000 input samples give 80000 output samples.
    assert_eq!(media.resample_calls, 160);
    assert!(!media.frames.is_empty());
    assert_contiguous(&media);
    assert_released_in_reverse(&media);
}

#[test]
fn clip_within_window_keeps_its_length() {
    let mut media = FakeMedia::new(32000, 2, 128000, 16000);
    let (_, outcome) = drive(&mut media, config(16000, 3000, 5000));
    assert_eq!(outcome, Ok(()));
    assert_eq!(media.total_samples(), 64000);
    assert_eq!(media.silence_samples(), 0);
    assert_contiguous(&media);
}

#[test]
fn clip_at_maximum_is_neither_cut_nor_padded() {
    let mut media = FakeMedia::new(16000, 1, 80000, 16000);
    let (_, outcome) = drive(&mut media, config(16000, 3000, 5000));
    assert_eq!(outcome, Ok(()));
    assert_eq!(media.total_samples(), 80000);
    assert_eq!(media.silence_samples(), 0);
    assert!(media.frames.is_empty());
}

#[test]
fn clip_at_minimum_is_not_padded() {
    let mut media = FakeMedia::new(16000, 1, 48000, 16000);
    let (_, outcome) = drive(&mut media, config(16000, 3000, 5000));
    assert_eq!(outcome, Ok(()));
    assert_eq!(media.total_samples(), 48000);
    assert_eq!(media.silence_samples(), 0);
}

#[test]
fn file_without_audio_becomes_silence_of_minimum_length() {
    let mut media = FakeMedia::new(44100, 2, 0, 16000);
    let (_, outcome) = drive(&mut media, config(16000, 3000, 5000));
    assert_eq!(outcome, Ok(()));
    assert_eq!(media.audio_samples(), 0);
    assert_eq!(media.silence_samples(), 48000);
    assert_eq!(media.chunks.len(), 47);
    assert_eq!(media.chunks[46], (47104, 896, true));
    assert_contiguous(&media);
}

#[test]
fn resampler_tail_is_flushed() {
    // 44.1 kHz to 16 kHz leaves a remainder in the resampler after every frame.
    let mut media = FakeMedia::new(44100, 2, 176400, 16000);
    let (_, outcome) = drive(&mut media, config(16000, 3000, 5000));
    assert_eq!(outcome, Ok(()));
    assert_eq!(media.total_samples(), 64000);
    assert_eq!(media.silence_samples(), 0);
    assert_contiguous(&media);
}

#[test]
fn unknown_channel_count_defaults_to_stereo() {
    let mut media = FakeMedia::new(16000, 0, 1000, 16000);
    let (t, outcome) = drive(&mut media, config(16000, 0, 5000));
    assert_eq!(outcome, Ok(()));
    assert_eq!(t.channels, 2);
}

#[test]
fn resample_request_is_bounded_by_estimate_and_buffer() {
    let mut t = Transcoder::new(config(16000, 3000, 5000));
    let mut media = FakeMedia::new(44100, 1, 1024, 16000);
    loop {
        let a = t.action();
        if let Action::Resample { in_samples, max_out } = a {
            // ceil(1000 * 16000 / 44100) = 363
            assert_eq!(in_samples, 1000);
            assert_eq!(max_out, 363);
            break;
        }
        let e = media.perform(a);
        t.handle(e);
    }
    let mut t = Transcoder::new(config(48000, 3000, 5000));
    let mut media = FakeMedia::new(8000, 4, 1024, 48000);
    loop {
        let a = t.action();
        if let Action::Resample { max_out, .. } = a {
            // the estimate 6000 exceeds 8192 / 4 = 2048 samples per channel
            assert_eq!(max_out, 2048);
            break;
        }
        let e = media.perform(a);
        t.handle(e);
    }
}

#[test]
fn packets_of_other_streams_are_skipped() {
    let mut media = FakeMedia::new(16000, 1, 64000, 16000);
    media.foreign_packets = true;
    let (_, outcome) = drive(&mut media, config(16000, 3000, 5000));
    assert_eq!(outcome, Ok(()));
    assert_eq!(media.total_samples(), 64000);
}

#[test]
fn rejected_packets_are_skipped_not_fatal() {
    let mut media = FakeMedia::new(16000, 1, 64000, 16000);
    media.reject_every_other_packet = true;
    let (_, outcome) = drive(&mut media, config(16000, 3000, 5000));
    assert_eq!(outcome, Ok(()));
    assert_eq!(media.audio_samples(), 32000);
    assert_eq!(media.silence_samples(), 16000);
    assert_eq!(media.total_samples(), 48000);
}

#[test]
fn failure_at_each_setup_step_releases_everything_acquired() {
    let steps = [
        (SetupStep::OpenInput, PipelineError::OpenInputFailed, 0),
        (SetupStep::ProbeStream, PipelineError::StreamProbeFailed, 1),
        (SetupStep::FindAudioStream, PipelineError::NoAudioStream, 1),
        (SetupStep::FindDecoder, PipelineError::NoDecoder, 1),
        (SetupStep::OpenDecoder, PipelineError::DecoderOpenFailed, 1),
        (SetupStep::AllocOutput, PipelineError::OutputAllocFailed, 2),
        (SetupStep::FindEncoder, PipelineError::NoEncoder, 3),
        (SetupStep::CreateStream, PipelineError::StreamCreateFailed, 3),
        (SetupStep::OpenEncoder, PipelineError::EncoderOpenFailed, 3),
        (SetupStep::OpenOutput, PipelineError::OutputOpenFailed, 4),
        (SetupStep::WriteHeader, PipelineError::HeaderWriteFailed, 5),
        (SetupStep::InitResampler, PipelineError::ResamplerInitFailed, 5),
        (SetupStep::AllocFrames, PipelineError::FrameAllocFailed, 6),
    ];
    for (step, err, held) in steps {
        let mut media = FakeMedia::new(16000, 1, 16000, 16000);
        media.fail_at = Some(step);
        let (t, outcome) = drive(&mut media, config(16000, 3000, 5000));
        assert_eq!(outcome, Err(err));
        assert_eq!(media.acquired.len(), held);
        assert_released_in_reverse(&media);
        assert_eq!(t.held, 0);
        assert!(media.chunks.is_empty());
    }
}

#[test]
fn zero_source_rate_fails_decoder_open() {
    let mut media = FakeMedia::new(0, 1, 0, 16000);
    media.source_rate = 0;
    let (_, outcome) = drive(&mut media, config(16000, 3000, 5000));
    assert_eq!(outcome, Err(PipelineError::DecoderOpenFailed));
    assert_released_in_reverse(&media);
    assert_eq!(media.released, vec![Resource::DecoderContext, Resource::InputContainer]);
}

#[test]
fn chunk_failure_aborts_and_releases() {
    let mut media = FakeMedia::new(16000, 1, 64000, 16000);
    media.fail_chunk = Some(3);
    let (_, outcome) = drive(&mut media, config(16000, 3000, 5000));
    assert_eq!(outcome, Err(PipelineError::FrameAllocFailed));
    assert_eq!(media.chunks.len(), 3);
    assert!(!media.trailer_written);
    assert_released_in_reverse(&media);
    assert_eq!(media.released.len(), 7);
}

#[test]
fn silence_chunk_failure_aborts_and_releases() {
    let mut media = FakeMedia::new(16000, 1, 0, 16000);
    media.fail_chunk = Some(0);
    let (_, outcome) = drive(&mut media, config(16000, 3000, 5000));
    assert_eq!(outcome, Err(PipelineError::FrameAllocFailed));
    assert_released_in_reverse(&media);
}

#[test]
fn same_input_gives_same_output() {
    let mut a = FakeMedia::new(44100, 2, 100000, 16000);
    let mut b = FakeMedia::new(44100, 2, 100000, 16000);
    let (_, ra) = drive(&mut a, config(16000, 3000, 5000));
    let (_, rb) = drive(&mut b, config(16000, 3000, 5000));
    assert_eq!(ra, rb);
    assert_eq!(a.chunks, b.chunks);
}

#[test]
fn timestamps_are_contiguous_and_increasing() {
    let mut media = FakeMedia::new(22050, 1, 50000, 16000);
    let (_, outcome) = drive(&mut media, config(16000, 3000, 5000));
    assert_eq!(outcome, Ok(()));
    assert_contiguous(&media);
    for w in media.chunks.windows(2) {
        assert!(w[0].0 < w[1].0);
    }
}

#[test]
fn finished_pipeline_stays_finished() {
    let mut media = FakeMedia::new(16000, 1, 1000, 16000);
    let (mut t, outcome) = drive(&mut media, config(16000, 0, 5000));
    t.handle(Event::Done);
    assert!(matches!(t.action(), Action::Finish(o) if o == outcome));
}

#[test]
fn zero_maximum_reads_no_input() {
    let mut media = FakeMedia::new(16000, 1, 16000, 16000);
    let (_, outcome) = drive(&mut media, config(16000, 0, 0));
    assert_eq!(outcome, Ok(()));
    assert_eq!(media.packets_read, 0);
    assert!(media.chunks.is_empty());
    assert!(media.trailer_written);
    assert_released_in_reverse(&media);
}
