use std::io;
use std::sync::{Arc, Mutex};

use climax::bang::error::{Error as PromptError, ErrorKind as PromptErrorKind};
use climax::climax::error::{Error, ErrorKind};
use climax::climax::output::SharedWriter;
use climax::climax::status::{removal_text, Status, StatusBoard, StatusEntry};
use climax::climax::terminal::StatusMode;

#[derive(Clone, Default)]
struct Capture(Arc<Mutex<Vec<u8>>>);

impl Capture {
    fn text(&self) -> String {
        String::from_utf8(self.0.lock().unwrap().clone()).expect("captured status is UTF-8")
    }
}

impl io::Write for Capture {
    fn write(&mut self, buffer: &[u8]) -> io::Result<usize> {
        self.0.lock().unwrap().extend_from_slice(buffer);
        Ok(buffer.len())
    }

    fn flush(&mut self) -> io::Result<()> {
        Ok(())
    }
}

#[derive(Clone, Copy)]
struct FailingWriter;

impl io::Write for FailingWriter {
    fn write(&mut self, _buffer: &[u8]) -> io::Result<usize> {
        Err(io::Error::other("status output failed"))
    }

    fn flush(&mut self) -> io::Result<()> {
        Err(io::Error::other("status flush failed"))
    }
}

#[test]
fn plain_statuses_emit_once_when_their_handles_finish() {
    let capture = Capture::default();
    let mut board = StatusBoard::new(SharedWriter::new(capture.clone()), StatusMode::Plain);
    let first = Status::new("first").spinner().start(&mut board);
    let second = Status::new("second").spinner().start(&mut board);
    assert!(capture.text().is_empty());
    first.finish(&mut board).unwrap();
    second.finish(&mut board).unwrap();
    assert_eq!(capture.text(), "first\nsecond\n");
}

#[test]
fn silent_statuses_never_emit_final_messages() {
    let capture = Capture::default();
    let mut board = StatusBoard::new(SharedWriter::new(capture.clone()), StatusMode::Silent);

    Status::new("working").final_message("finished").finish(&mut board).unwrap();

    assert!(capture.text().is_empty());
}

#[test]
fn during_preserves_the_operation_error() {
    let capture = Capture::default();
    let mut board = StatusBoard::new(SharedWriter::new(capture.clone()), StatusMode::Plain);
    let error = Status::new("working").during::<(), _>(&mut board, || Err(Error::message("work failed"))).unwrap_err();
    assert_eq!(error.to_string(), "work failed");
    assert_eq!(capture.text(), "working\n");
}

#[test]
fn during_retains_operation_and_cleanup_errors() {
    let mut board = StatusBoard::new(SharedWriter::new(FailingWriter), StatusMode::Plain);
    let error = Status::new("working").during::<(), _>(&mut board, || Err(Error::message("work failed"))).unwrap_err();

    assert_eq!(error.kind(), ErrorKind::Message);
    assert!(error.to_string().contains("work failed"));
    assert!(error.to_string().contains("status output failed"));
    assert_eq!(error.related_errors().len(), 1);
    assert_eq!(error.related_errors()[0].kind(), ErrorKind::Output);
}

#[test]
fn prompt_exclusivity_suspends_and_restores_status_presentation() {
    let mut board = StatusBoard::new(SharedWriter::new(Capture::default()), StatusMode::Live);
    let status = Status::new("working").spinner().start(&mut board);
    assert!(board.animating());

    board.prompt_guard().unwrap();
    assert!(!board.animating());
    assert_eq!(board.prompt_guard().unwrap_err().kind(), PromptErrorKind::InteractionBusy);
    assert_eq!(board.application_guard().unwrap_err().kind(), ErrorKind::InteractionBusy);

    board.release_prompt();
    assert!(board.animating());
    status.finish(&mut board).unwrap();
    assert!(!board.animating());
}

#[test]
fn live_statuses_leave_only_their_final_message() {
    let capture = Capture::default();
    let mut board = StatusBoard::new(SharedWriter::new(capture.clone()), StatusMode::Live);
    let quiet = Status::new("quiet").start(&mut board);
    let loud = Status::new("loud").final_message("done").start(&mut board);
    assert_eq!(board.running_count(), 2);
    quiet.finish(&mut board).unwrap();
    assert!(board.animating());
    loud.finish(&mut board).unwrap();
    assert_eq!(capture.text(), "done\n");
    assert_eq!(board.running_count(), 0);
    assert!(!board.animating());
}

#[test]
fn switching_modes_restarts_or_stops_animation() {
    let mut board = StatusBoard::new(SharedWriter::new(Capture::default()), StatusMode::Silent);
    let status = Status::new("working").start(&mut board);
    assert!(!board.animating());
    board.set_mode(StatusMode::Live);
    assert!(board.animating());
    board.set_mode(StatusMode::Plain);
    assert!(!board.animating());
    status.finish(&mut board).unwrap();
}

#[test]
fn removal_lines_follow_the_mode() {
    let entry = StatusEntry { plain: "working".to_owned(), final_message: None, spinner: false };
    assert_eq!(removal_text(StatusMode::Plain, &entry).as_deref(), Some("working"));
    assert_eq!(removal_text(StatusMode::Live, &entry), None);
    assert_eq!(removal_text(StatusMode::Silent, &entry), None);
    let entry = StatusEntry { plain: "working".to_owned(), final_message: Some("done".to_owned()), spinner: true };
    assert_eq!(removal_text(StatusMode::Plain, &entry).as_deref(), Some("done"));
    assert_eq!(removal_text(StatusMode::Auto, &entry).as_deref(), Some("done"));
    assert_eq!(removal_text(StatusMode::Silent, &entry), None);
}

#[test]
fn unknown_identities_are_ignored() {
    let capture = Capture::default();
    let mut board = StatusBoard::new(SharedWriter::new(capture.clone()), StatusMode::Plain);
    assert!(board.remove(7).is_ok());
    assert!(capture.text().is_empty());
}

#[test]
fn prompt_errors_keep_their_meaning_in_the_application() {
    let busy = Error::from_prompt(PromptError::interaction_busy());
    assert_eq!(busy.kind(), ErrorKind::InteractionBusy);
    assert_eq!(busy.to_string(), "another interaction already owns the terminal");
    assert_eq!(Error::from_prompt(PromptError::cancelled()).kind(), ErrorKind::Cancelled);
    assert_eq!(Error::from_prompt(PromptError::unexpected("text")).kind(), ErrorKind::Interactive);
}
