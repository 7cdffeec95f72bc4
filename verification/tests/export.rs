use opencensus_trace::basetypes::Instant;
use opencensus_trace::export::{Exporter, Exporters, SpanData};
use opencensus_trace::trace::SpanKind;
use opencensus_trace::{
    register_exporter, unregister_exporter, SpanContext, SpanID, TraceID, TraceOptions,
};
use std::collections::HashMap;
use std::sync::{Arc, Mutex};

struct Recorder {
    tag: &'static str,
    log: Arc<Mutex<Vec<String>>>,
}

impl Exporter for Recorder {
    fn export_span(&self, s: &SpanData) {
        self.log.lock().unwrap().push(format!("{}:{}", self.tag, s.name));
    }
}

fn record(name: &str) -> SpanData {
    SpanData {
        span_context: SpanContext {
            trace_id: TraceID([1; 16]),
            span_id: SpanID([2; 8]),
            trace_options: TraceOptions(1),
            trace_state: None,
        },
        parent_span_id: None,
        span_kind: SpanKind::Unspecified,
        name: name.to_string(),
        start_time: Instant(0),
        end_time: Some(Instant(1)),
        attributes: HashMap::new(),
        annotations: Vec::new(),
        message_events: Vec::new(),
        status: None,
        links: Vec::new(),
        has_remote_parent: false,
    }
}

fn recorder(tag: &'static str, log: &Arc<Mutex<Vec<String>>>) -> Recorder {
    Recorder { tag, log: Arc::clone(log) }
}

#[test]
fn an_exporter_is_registered_once() {
    let log = Arc::new(Mutex::new(Vec::new()));
    let mut exporters = Exporters::new();
    assert!(exporters.is_empty());
    register_exporter(&mut exporters, 7, recorder("a", &log));
    register_exporter(&mut exporters, 7, recorder("again", &log));
    register_exporter(&mut exporters, 9, recorder("b", &log));
    assert_eq!(exporters.len(), 2);
    assert_eq!(exporters.export_span(&record("s")), 2);
    assert_eq!(*log.lock().unwrap(), vec!["a:s".to_string(), "b:s".to_string()]);
}

#[test]
fn unregistering_removes_that_exporter_only() {
    let log = Arc::new(Mutex::new(Vec::new()));
    let mut exporters = Exporters::new();
    register_exporter(&mut exporters, 1, recorder("a", &log));
    register_exporter(&mut exporters, 2, recorder("b", &log));
    register_exporter(&mut exporters, 3, recorder("c", &log));
    unregister_exporter(&mut exporters, 2);
    assert_eq!(exporters.len(), 2);
    // an exporter that is not registered is not missed
    unregister_exporter(&mut exporters, 2);
    unregister_exporter(&mut exporters, 40);
    assert_eq!(exporters.len(), 2);
    assert_eq!(exporters.export_span(&record("s")), 2);
    assert_eq!(*log.lock().unwrap(), vec!["a:s".to_string(), "c:s".to_string()]);
    unregister_exporter(&mut exporters, 1);
    unregister_exporter(&mut exporters, 3);
    assert!(exporters.is_empty());
    assert_eq!(exporters.export_span(&record("t")), 0);
    assert_eq!(log.lock().unwrap().len(), 2);
    // the identity is free again
    register_exporter(&mut exporters, 2, recorder("d", &log));
    assert_eq!(exporters.export_span(&record("u")), 1);
    assert_eq!(log.lock().unwrap().last().unwrap(), "d:u");
}
