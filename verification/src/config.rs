//! The settings that a span gets where it is started without its own: the
//! default sampler and the generator of identifiers.

use crate::id_generator::{default_id_generator, DefaultIDGenerator};
use crate::sampling::{default_sampler, Sampler, DEFAULT_TRACE_ID_UPPER_BOUND};
use vstd::prelude::*;

verus! {

/// The tracing settings of a process.
pub struct Config<G> {
    /// The sampler of the spans that are started without one.
    pub default_sampler: Sampler,
    /// Where identifiers come from.
    pub id_generator: G,
}

/// The settings of a process that has set none: the default sampler and a
/// generator of the default kind.
pub fn default_config() -> (config: Config<DefaultIDGenerator>)
    ensures
        config.default_sampler == (Sampler::Probability {
            trace_id_upper_bound: DEFAULT_TRACE_ID_UPPER_BOUND,
        }),
{
    Config { default_sampler: default_sampler(), id_generator: default_id_generator() }
}

/// Makes `sampler` the default sampler, and changes nothing else.
pub fn set_global_default_sampler<G>(config: &mut Config<G>, sampler: &Sampler)
    ensures
        final(config).default_sampler == *sampler,
        final(config).id_generator == old(config).id_generator,
{
    config.default_sampler = *sampler;
}

/// Makes `id_generator` the generator of identifiers, and changes nothing
/// else.
pub fn set_global_id_generator<G>(config: &mut Config<G>, id_generator: G)
    ensures
        final(config).id_generator == id_generator,
        final(config).default_sampler == old(config).default_sampler,
{
    config.id_generator = id_generator;
}

/// A copy of the settings: the same default sampler, and a clone of the
/// generator.
pub fn load_config<G: Clone>(config: &Config<G>) -> (copy: Config<G>)
    ensures
        copy.default_sampler == config.default_sampler,
        cloned(config.id_generator, copy.id_generator),
{
    Config { default_sampler: config.default_sampler, id_generator: config.id_generator.clone() }
}

} // verus!
