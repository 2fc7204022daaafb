//! The numeric knobs of the generation engine: seeds, sampling settings,
//! per-stage length caps and retry ceilings. Pure data, immutable after
//! construction, cloned into every component that needs it.

use vstd::prelude::*;

verus! {

/// The sampling and retry configuration. Probabilities are stored in
/// thousandths so that every field is a plain integer.
#[derive(Debug, Clone, Copy)]
pub struct Hyperparameters {
    pub default_seed: u64,
    /// Nucleus sampling probability, in thousandths.
    pub sampling_prob: u64,
    /// Sampling temperature, in thousandths.
    pub sampling_temp: u64,
    pub sample_length_title: usize,
    pub sample_length_place: usize,
    pub sample_length: usize,
    pub max_paragraph_length_characters: usize,
    pub max_paragraph_length_scenes: usize,
    pub max_paragraph_length: usize,
    pub max_retries: usize,
    pub max_num_repetitions: usize,
    pub max_num_attempts_get_out_of_loop: usize,
    pub num_samples: usize,
}

impl Hyperparameters {
    /// The bounds the engine needs: positive sample lengths (they divide
    /// paragraph caps), at least one sampling attempt per round, and room
    /// to perturb the seed once per attempt.
    pub open spec fn valid(&self) -> bool {
        &&& self.sample_length >= 1
        &&& self.sample_length_title >= 1
        &&& self.sample_length_place >= 1
        &&& self.max_num_attempts_get_out_of_loop >= 1
        &&& self.default_seed + self.max_num_attempts_get_out_of_loop <= u64::MAX
        &&& self.max_paragraph_length < usize::MAX
        &&& self.max_paragraph_length_characters < usize::MAX
        &&& self.max_paragraph_length_scenes < usize::MAX
        &&& self.sample_length < usize::MAX
        &&& self.sample_length_title < usize::MAX
        &&& self.sample_length_place < usize::MAX
    }
}

impl Default for Hyperparameters {
    /// The stock configuration.
    fn default() -> (r: Self)
        ensures
            r.valid(),
            r.default_seed == 1,
            r.sampling_prob == 950,
            r.sampling_temp == 1000,
            r.sample_length_title == 64,
            r.sample_length_place == 128,
            r.sample_length == 511,
            r.max_paragraph_length_characters == 1024,
            r.max_paragraph_length_scenes == 1024,
            r.max_paragraph_length == 1024,
            r.max_retries == 10,
            r.max_num_repetitions == 3,
            r.max_num_attempts_get_out_of_loop == 3,
            r.num_samples == 1,
    {
        Hyperparameters {
            default_seed: 1,
            sampling_prob: 950,
            sampling_temp: 1000,
            sample_length_title: 64,
            sample_length_place: 128,
            sample_length: 511,
            max_paragraph_length_characters: 1024,
            max_paragraph_length_scenes: 1024,
            max_paragraph_length: 1024,
            max_retries: 10,
            max_num_repetitions: 3,
            max_num_attempts_get_out_of_loop: 3,
            num_samples: 1,
        }
    }
}

} // verus!
