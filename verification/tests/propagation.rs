use opencensus_trace::propagation::{from_binary, to_binary};
use opencensus_trace::tracestate::{Key, Tracestate, Value};
use opencensus_trace::{SpanContext, SpanID, TraceID, TraceOptions};

#[test]
fn test_to_binary() {
    let trace_id = TraceID([
        0x40, 0x41, 0x42, 0x43, 0x44, 0x45, 0x46, 0x47, 0x48, 0x49, 0x4a, 0x4b, 0x4c, 0x4d, 0x4e,
        0x4f,
    ]);
    let span_id = SpanID([0x61, 0x62, 0x63, 0x64, 0x65, 0x66, 0x67, 0x68]);
    let mut b: Vec<u8> = vec![
        0, 0, 64, 65, 66, 67, 68, 69, 70, 71, 72, 73, 74, 75, 76, 77, 78, 79, 1, 97, 98, 99, 100,
        101, 102, 103, 104, 2, 1,
    ];

    let b2 = to_binary(&SpanContext {
        trace_id,
        span_id,
        trace_options: TraceOptions(1),
        trace_state: None,
    });

    assert_eq!(*b2, *b);

    match from_binary(&b.clone()) {
        None => panic!("decode failed"),
        Some(span_context) => {
            assert_eq!(span_context.trace_id, trace_id);
            assert_eq!(span_context.span_id, span_id);
        }
    }

    b[0] = 1;
    if from_binary(&b).is_some() {
        panic!("decoded bytes containing unsupported version");
    }

    b = vec![0, 1, 97, 98, 99, 100, 101, 102, 103, 104, 2, 1];
    if from_binary(&b).is_some() {
        panic!("decoded bytes without a TraceID");
    }
}

#[test]
fn test_from_binary() {
    let valid_data = [
        0, 0, 64, 65, 66, 67, 68, 69, 70, 71, 72, 73, 74, 75, 76, 77, 78, 79, 1, 97, 98, 99, 100,
        101, 102, 103, 104, 2, 1,
    ];

    #[derive(Clone)]
    struct TestCase<'a> {
        data: &'a [u8],
        want_trace_id: Option<TraceID>,
        want_span_id: Option<SpanID>,
        want_opts: Option<TraceOptions>,
        want_ok: bool,
    }

    let mut test_cases = [
        TestCase {
            data: &[0, 0, 64, 65, 66, 67, 68, 69, 70, 71, 72, 73, 74, 75, 76, 77],
            want_trace_id: None,
            want_span_id: None,
            want_opts: None,
            want_ok: false,
        },
        TestCase {
            data: &[0, 1, 64, 65, 66, 67, 68, 69, 70, 71, 72, 73, 74, 75, 76, 77],
            want_trace_id: None,
            want_span_id: None,
            want_opts: None,
            want_ok: false,
        },
        TestCase {
            data: &valid_data,
            want_trace_id: Some(TraceID([
                64, 65, 66, 67, 68, 69, 70, 71, 72, 73, 74, 75, 76, 77, 78, 79,
            ])),
            want_span_id: Some(SpanID([97, 98, 99, 100, 101, 102, 103, 104])),
            want_opts: Some(TraceOptions(1)),
            want_ok: true,
        },
    ];

    for test_case in test_cases.iter_mut() {
        let data = test_case.data.to_vec();
        match from_binary(&data) {
            None => assert!(!test_case.want_ok, "unexpected error while decoding"),
            Some(span_context) => {
                assert!(test_case.want_ok);
                if let Some(trace_id) = test_case.want_trace_id {
                    assert_eq!(span_context.trace_id, trace_id);
                }
                if let Some(span_id) = test_case.want_span_id {
                    assert_eq!(span_context.span_id, span_id);
                }
                if let Some(trace_opts) = test_case.want_opts {
                    assert_eq!(span_context.trace_options, trace_opts);
                }
            }
        }
    }
}

fn sample_context(options: u32) -> SpanContext {
    SpanContext {
        trace_id: TraceID([
            0xf0, 0xe1, 0xd2, 0xc3, 0xb4, 0xa5, 0x96, 0x87, 0x78, 0x69, 0x5a, 0x4b, 0x3c, 0x2d,
            0x1e, 0x0f,
        ]),
        span_id: SpanID([1, 3, 5, 7, 9, 11, 13, 15]),
        trace_options: TraceOptions(options),
        trace_state: None,
    }
}

#[test]
fn binary_form_has_29_bytes_in_field_order() {
    let b = to_binary(&sample_context(0));
    assert_eq!(b.len(), 29);
    assert_eq!(b[0], 0);
    assert_eq!(b[1], 0);
    assert_eq!(&b[2..18], &sample_context(0).trace_id.0[..]);
    assert_eq!(b[18], 1);
    assert_eq!(&b[19..27], &sample_context(0).span_id.0[..]);
    assert_eq!(b[27], 2);
    assert_eq!(b[28], 0);
}

#[test]
fn round_trip_gives_the_context_back() {
    for options in [0u32, 1, 2, 0x7f, 0xff] {
        let sc = sample_context(options);
        let back = from_binary(&to_binary(&sc)).unwrap();
        assert_eq!(back, sc);
    }
}

#[test]
fn round_trip_drops_the_trace_state() {
    let state = Tracestate::try_new(
        None,
        &[(Key::try_new("foo").unwrap(), Value::try_new("bar").unwrap())],
    )
    .unwrap();
    let mut sc = sample_context(1);
    sc.trace_state = Some(state);
    let back = from_binary(&to_binary(&sc)).unwrap();
    assert_eq!(back.trace_id, sc.trace_id);
    assert_eq!(back.span_id, sc.span_id);
    assert_eq!(back.trace_options, sc.trace_options);
    assert_eq!(back.trace_state, None);
}

#[test]
fn only_the_low_byte_of_the_options_is_encoded() {
    let b = to_binary(&sample_context(0x0001_0203));
    assert_eq!(b[28], 3);
    assert_eq!(from_binary(&b).unwrap().trace_options, TraceOptions(3));
}

#[test]
fn decode_rejects_malformed_input() {
    let good = to_binary(&sample_context(1));
    assert!(from_binary(&good).is_some());
    // empty input
    assert_eq!(from_binary(&[]), None);
    // every proper prefix is too short
    for len in 0..good.len() {
        assert_eq!(from_binary(&good[..len]), None, "prefix of {} bytes", len);
    }
    // a wrong version or tag
    for (at, byte) in [(0usize, 1u8), (1, 1), (18, 0), (18, 2), (27, 1), (27, 3)] {
        let mut bad = good.clone();
        bad[at] = byte;
        assert_eq!(from_binary(&bad), None, "byte {} set to {}", at, byte);
    }
}

#[test]
fn decode_ignores_what_follows_the_options() {
    let mut b = to_binary(&sample_context(1));
    b.extend_from_slice(&[9, 9, 9]);
    assert_eq!(from_binary(&b), Some(sample_context(1)));
}
