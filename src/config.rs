use vstd::prelude::*;

verus! {

/// Rounds `num / den` to the nearest integer, halves rounded up.
pub open spec fn div_round(num: nat, den: nat) -> nat
    recommends
        den > 0,
{
    (num + den / 2) / den
}

/// Number of output samples that `duration_ms` milliseconds span at `rate` samples per second.
pub open spec fn samples_for(duration_ms: nat, rate: nat) -> nat {
    div_round(duration_ms * rate, 1000)
}

/// Why a configuration was rejected.
#[derive(Debug, Clone, Copy, PartialEq, Eq, Structural)]
pub enum ConfigError {
    /// The target sample rate is zero.
    ZeroSampleRate,
    /// The minimum duration exceeds the maximum duration.
    MinExceedsMax,
}

/// Settings shared read-only by every file of a batch.
///
/// Durations are whole milliseconds; a clip is padded with silence up to
/// `min_duration_ms` and truncated at `max_duration_ms`.
#[derive(Debug, Clone, Copy, PartialEq, Eq, Structural)]
pub struct ProcessorConfig {
    pub target_sample_rate: u32,
    pub min_duration_ms: u32,
    pub max_duration_ms: u32,
}

impl ProcessorConfig {
    /// The configuration is usable: a positive rate and a non-empty duration window.
    pub open spec fn wf(&self) -> bool {
        &&& self.target_sample_rate > 0
        &&& self.min_duration_ms <= self.max_duration_ms
    }

    /// `round(min_duration × target_sample_rate)`.
    pub open spec fn spec_min_samples(&self) -> nat {
        samples_for(self.min_duration_ms as nat, self.target_sample_rate as nat)
    }

    /// `round(max_duration × target_sample_rate)`.
    pub open spec fn spec_max_samples(&self) -> nat {
        samples_for(self.max_duration_ms as nat, self.target_sample_rate as nat)
    }

    /// Builds a configuration, rejecting a zero rate and a minimum above the maximum.
    pub fn new(target_sample_rate: u32, min_duration_ms: u32, max_duration_ms: u32) -> (r: Result<
        ProcessorConfig,
        ConfigError,
    >)
        ensures
            target_sample_rate == 0 ==> r == Err::<ProcessorConfig, ConfigError>(
                ConfigError::ZeroSampleRate,
            ),
            target_sample_rate > 0 && min_duration_ms > max_duration_ms ==> r == Err::<
                ProcessorConfig,
                ConfigError,
            >(ConfigError::MinExceedsMax),
            target_sample_rate > 0 && min_duration_ms <= max_duration_ms ==> r == Ok::<
                ProcessorConfig,
                ConfigError,
            >(ProcessorConfig { target_sample_rate, min_duration_ms, max_duration_ms }),
            r matches Ok(c) ==> c.wf(),
    {
        if target_sample_rate == 0 {
            Err(ConfigError::ZeroSampleRate)
        } else if min_duration_ms > max_duration_ms {
            Err(ConfigError::MinExceedsMax)
        } else {
            Ok(ProcessorConfig { target_sample_rate, min_duration_ms, max_duration_ms })
        }
    }

    /// Output length below which a clip is padded with silence.
    pub fn min_samples(&self) -> (r: u64)
        ensures
            r == self.spec_min_samples(),
    {
        samples_of(self.min_duration_ms, self.target_sample_rate)
    }

    /// Output length at which a clip is truncated.
    pub fn max_samples(&self) -> (r: u64)
        ensures
            r == self.spec_max_samples(),
    {
        samples_of(self.max_duration_ms, self.target_sample_rate)
    }

    /// Bit rate of the 32-bit float output: `rate × channels × 32`, saturated at `u64::MAX`.
    pub fn bit_rate(&self, channels: u32) -> (r: u64)
        ensures
            self.target_sample_rate as nat * channels as nat * 32 <= u64::MAX ==> r
                == self.target_sample_rate as nat * channels as nat * 32,
            self.target_sample_rate as nat * channels as nat * 32 > u64::MAX ==> r == u64::MAX,
    {
        assert(self.target_sample_rate as nat * channels as nat <= 0xffff_ffff * 0xffff_ffff)
            by (nonlinear_arith);
        let per_bit: u64 = self.target_sample_rate as u64 * channels as u64;
        match per_bit.checked_mul(32) {
            Some(b) => b,
            None => u64::MAX,
        }
    }
}

/// Rounded sample count of a duration in milliseconds.
fn samples_of(duration_ms: u32, rate: u32) -> (r: u64)
    ensures
        r == samples_for(duration_ms as nat, rate as nat),
{
    assert(duration_ms as nat * rate as nat <= 0xffff_ffff * 0xffff_ffff) by (nonlinear_arith);
    (duration_ms as u64 * rate as u64 + 500) / 1000
}

/// A positive rate and `min ≤ max` make the padding target no larger than the truncation limit.
pub proof fn lemma_min_samples_le_max_samples(c: ProcessorConfig)
    requires
        c.wf(),
    ensures
        c.spec_min_samples() <= c.spec_max_samples(),
{
    let r = c.target_sample_rate as nat;
    assert(c.min_duration_ms as nat * r <= c.max_duration_ms as nat * r) by (nonlinear_arith)
        requires
            c.min_duration_ms <= c.max_duration_ms,
    ;
    vstd::arithmetic::div_mod::lemma_div_is_ordered(
        (c.min_duration_ms as nat * r + 500) as int,
        (c.max_duration_ms as nat * r + 500) as int,
        1000,
    );
}

} // verus!
