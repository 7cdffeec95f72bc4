use opencensus_trace::config::default_config;
use opencensus_trace::id_generator::{default_id_generator, IDGenerator};
use opencensus_trace::sampling::{always_sample, default_sampler, never_sample, Sampler};
use opencensus_trace::{load_config, set_global_default_sampler, set_global_id_generator, Config};
use std::sync::Arc;

#[test]
fn test_apply_zero_config() {
    let mut current = Config {
        default_sampler: default_sampler(),
        id_generator: Arc::new(default_id_generator()),
    };
    let config = load_config(&current);
    set_global_id_generator(&mut current, Arc::clone(&config.id_generator));
    set_global_default_sampler(&mut current, &config.default_sampler);

    assert!(current.default_sampler == config.default_sampler);
    assert!(Arc::ptr_eq(&current.id_generator, &config.id_generator));
}

#[test]
fn default_config_samples_one_in_ten_thousand() {
    let config = default_config();
    assert_eq!(
        config.default_sampler,
        Sampler::Probability { trace_id_upper_bound: 922_337_203_685_477 }
    );
}

#[test]
fn setters_change_one_setting_each() {
    let mut config = Config { default_sampler: never_sample(), id_generator: 7u8 };
    set_global_default_sampler(&mut config, &always_sample());
    assert_eq!(config.default_sampler, Sampler::Always);
    assert_eq!(config.id_generator, 7);
    set_global_id_generator(&mut config, 9);
    assert_eq!(config.default_sampler, Sampler::Always);
    assert_eq!(config.id_generator, 9);
    let copy = load_config(&config);
    assert_eq!(copy.default_sampler, Sampler::Always);
    assert_eq!(copy.id_generator, 9);
}

#[test]
fn default_generator_gives_new_identifiers() {
    let generator = default_id_generator();
    let t1 = generator.new_trace_id();
    let s1 = generator.new_span_id();
    let t2 = generator.new_trace_id();
    let s2 = generator.new_span_id();
    assert_ne!(t1.0, [0u8; 16]);
    assert_ne!(s1.0, [0u8; 8]);
    assert_ne!(t1, t2);
    assert_ne!(s1, s2);
}

#[test]
fn default_generators_start_the_same_sequence() {
    let a = default_id_generator();
    let b = default_id_generator();
    assert_eq!(a.new_trace_id(), b.new_trace_id());
    assert_eq!(a.new_span_id(), b.new_span_id());
}

#[test]
fn shared_generator_is_one_sequence() {
    let shared = Arc::new(default_id_generator());
    let other = Arc::clone(&shared);
    let fresh = default_id_generator();
    let first = shared.new_span_id();
    let second = other.new_span_id();
    assert_eq!(first, fresh.new_span_id());
    assert_eq!(second, fresh.new_span_id());
}
