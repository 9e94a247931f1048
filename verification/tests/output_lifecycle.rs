use std::collections::BTreeMap;
use std::io::{self, Write};
use std::sync::atomic::{AtomicUsize, Ordering};
use std::sync::{Arc, Mutex};

use climax::climax::app::{run_with, Context};
use climax::climax::error::{Error, ErrorKind};
use climax::climax::output::{emission_bytes, EmissionMode, Format, Output, SharedWriter};
use climax::climax::terminal::TerminalCapabilities;

#[derive(Clone, Default)]
struct Capture(Arc<Mutex<Vec<u8>>>);

impl Capture {
    fn text(&self) -> String {
        String::from_utf8(self.0.lock().unwrap().clone()).unwrap()
    }
}

impl Write for Capture {
    fn write(&mut self, buffer: &[u8]) -> io::Result<usize> {
        self.0.lock().unwrap().extend_from_slice(buffer);
        Ok(buffer.len())
    }

    fn flush(&mut self) -> io::Result<()> {
        Ok(())
    }
}

#[derive(Clone, Default)]
struct FlushCapture {
    flushes: Arc<AtomicUsize>,
}

impl Write for FlushCapture {
    fn write(&mut self, buffer: &[u8]) -> io::Result<usize> {
        Ok(buffer.len())
    }

    fn flush(&mut self) -> io::Result<()> {
        self.flushes.fetch_add(1, Ordering::SeqCst);
        Ok(())
    }
}

fn json_of<T: serde::Serialize>(value: &T) -> Vec<u8> {
    serde_json::to_vec(value).unwrap()
}

#[test]
fn finite_results_are_deferred_until_commit() {
    let capture = Capture::default();
    let output = Output::new(Format::Text).with_writer(capture.clone());
    let value = 42;
    output.emit(EmissionMode::Finite, &format!("answer: {value}"), &json_of(&value)).unwrap();
    assert_eq!(capture.text(), "");
    output.commit().unwrap();
    assert_eq!(capture.text(), "answer: 42\n");
}

#[test]
fn committing_a_finite_result_flushes_its_destination() {
    let capture = FlushCapture::default();
    let output = Output::new(Format::Text).with_writer(capture.clone());
    output.emit(EmissionMode::Finite, "42", &json_of(&42)).unwrap();

    output.commit().unwrap();

    assert_eq!(capture.flushes.load(Ordering::SeqCst), 1);
}

#[test]
fn finite_results_retain_the_registering_clones_destination() {
    let capture = Capture::default();
    let lifecycle = Output::new(Format::Text);
    lifecycle.clone().with_writer(capture.clone()).emit(EmissionMode::Finite, "42", &json_of(&42)).unwrap();
    lifecycle.commit().unwrap();
    assert_eq!(capture.text(), "42\n");
}

#[test]
fn structured_results_use_json_in_json_mode() {
    let capture = Capture::default();
    let output = Output::new(Format::Json).with_writer(capture.clone());
    let answer = BTreeMap::from([("value", 42)]);
    output.emit(EmissionMode::Finite, &answer["value"].to_string(), &json_of(&answer)).unwrap();
    output.commit().unwrap();
    assert_eq!(capture.text(), "{\"value\":42}\n");
}

#[test]
fn cloned_outputs_share_the_finite_result_slot() {
    let output = Output::new(Format::Text);
    output.emit(EmissionMode::Finite, "1", &json_of(&1)).unwrap();
    let second = output.clone();
    let error = second.emit(EmissionMode::Finite, "2", &json_of(&2)).unwrap_err();
    assert_eq!(error.kind(), ErrorKind::Output);
    assert_eq!(error.to_string(), "a finite result is already registered");
    output.discard();
}

#[test]
fn streams_write_json_lines_and_exclude_finite_results() {
    let capture = Capture::default();
    let output = Output::new(Format::Json).with_writer(capture.clone());
    output.emit(EmissionMode::Stream, "1", &json_of(&1)).unwrap();
    output.emit(EmissionMode::Stream, "2", &json_of(&2)).unwrap();
    let error = output.emit(EmissionMode::Finite, "3", &json_of(&3)).unwrap_err();
    assert_eq!(error.to_string(), "cannot emit a finite result after streaming output");
    assert_eq!(capture.text(), "1\n2\n");
}

#[test]
fn completed_output_rejects_late_results_from_clones() {
    let output = Output::new(Format::Text);
    let late = output.clone();
    output.commit().unwrap();
    let error = late.emit(EmissionMode::Finite, "1", &json_of(&1)).unwrap_err();
    assert_eq!(error.to_string(), "the output lifecycle is already complete");
}

#[test]
fn streaming_after_a_finite_result_is_refused() {
    let output = Output::new(Format::Text);
    output.emit(EmissionMode::Finite, "1", b"1").unwrap();
    let error = output.emit(EmissionMode::Stream, "2", b"2").unwrap_err();
    assert_eq!(error.to_string(), "cannot stream output after registering a finite result");
    output.discard();
}

#[test]
fn emissions_are_encoded_by_format() {
    assert_eq!(emission_bytes(Format::Text, "answer", b"{}"), b"answer\n".to_vec());
    assert_eq!(emission_bytes(Format::Json, "answer", b"{}"), b"{}\n".to_vec());
    assert_eq!(emission_bytes(Format::Text, "h\u{e9}", b""), "h\u{e9}\n".as_bytes().to_vec());
}

fn context_writing_to(capture: &Capture) -> Context {
    Context::with_capabilities(TerminalCapabilities::new(false, false, false)).with_output_writer(capture.clone())
}

#[test]
fn lifecycle_commits_a_finite_result_after_success() {
    let capture = Capture::default();
    run_with(context_writing_to(&capture), (), |context, ()| {
        context.output().emit(EmissionMode::Finite, "42", &json_of(&42))
    })
    .unwrap();
    assert_eq!(capture.text(), "42\n");
}

#[test]
fn lifecycle_discards_a_finite_result_after_failure() {
    let capture = Capture::default();
    let error = run_with(context_writing_to(&capture), (), |context, ()| {
        context.output().emit(EmissionMode::Finite, "42", &json_of(&42))?;
        Err(Error::message("failed"))
    })
    .unwrap_err();
    assert_eq!(error.to_string(), "failed");
    assert_eq!(capture.text(), "");
}

#[test]
fn built_results_register_their_format_projection() {
    let capture = Capture::default();
    let output = Output::new(Format::Json).with_writer(capture.clone());
    output.result(json_of(&42)).text("forty-two".to_string()).emit().unwrap();
    assert_eq!(capture.text(), "");
    output.commit().unwrap();
    assert_eq!(capture.text(), "42\n");

    let lines = Capture::default();
    let streaming = Output::new(Format::Text).with_writer(lines.clone());
    streaming.stream(json_of(&1)).text("one".to_string()).emit().unwrap();
    streaming.stream(json_of(&2)).text("two".to_string()).emit().unwrap();
    assert_eq!(lines.text(), "one\ntwo\n");
    let refused = streaming.result(json_of(&3)).text("three".to_string()).emit().unwrap_err();
    assert_eq!(refused.kind(), ErrorKind::Output);
}

#[test]
fn text_notices_go_to_the_notice_writer_only() {
    let results = Capture::default();
    let notices = Capture::default();
    let output = Output::new(Format::Text).with_writer(results.clone()).with_notice_writer(SharedWriter::new(notices.clone()));
    output.notice("heads up").unwrap();
    assert_eq!(notices.text(), "heads up\n");
    assert_eq!(results.text(), "");
}
