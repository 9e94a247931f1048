use std::io::{self, Write};

use climax::bang_core::event::Event;
use climax::terminal::decoder::decode_all;
use climax::terminal::mode::RawModeOptions;
use climax::terminal::screen::{CursorPolicy, InlineScreenGuard, ScreenGuard, ScreenOptions};

#[test]
fn complete_unknown_sequences_are_not_reported_as_escape_keys() {
    for bytes in [b"\x1b[15~".as_slice(), b"\x1bOP".as_slice()] {
        assert_eq!(decode_all(bytes), vec![Event::UnknownEscape(bytes.to_vec())],);
    }
}

#[test]
fn raw_read_policies_are_explicit() {
    assert_eq!(RawModeOptions::blocking().minimum_bytes(), 1);
    assert_eq!(RawModeOptions::blocking().timeout_deciseconds(), 0);
    assert_eq!(RawModeOptions::timed(3).minimum_bytes(), 0);
    assert_eq!(RawModeOptions::timed(3).timeout_deciseconds(), 3);
}

#[test]
fn full_screen_negotiates_and_restores_every_mode() {
    let mut output = Vec::new();
    {
        let mut guard =
            ScreenGuard::enter(&mut output, ScreenOptions::full_screen().bracketed_paste(true))
                .unwrap();
        guard.writer().write_all(b"frame").unwrap();
        guard.leave().unwrap();
    }
    assert_eq!(
        output,
        b"\x1b[?1049h\x1b[?2004h\x1b[?25lframe\x1b[?25h\x1b[?2004l\x1b[?1049l",
    );
}

#[test]
fn partial_entry_rolls_back_modes_that_were_enabled() {
    for fail_at in 0..=3 {
        let mut output = FailingWriter::new(fail_at);
        let failed =
            ScreenGuard::enter(&mut output, ScreenOptions::full_screen().bracketed_paste(true))
                .is_err();
        assert!(failed, "write/flush boundary {fail_at} should fail");
        assert!(
            output.attempts > fail_at + 1,
            "rollback should continue after boundary {fail_at}",
        );
    }
}

#[test]
fn inline_screen_enables_paste_by_default_and_can_disable_it() {
    let mut default_output = Vec::new();
    InlineScreenGuard::enter(&mut default_output)
        .unwrap()
        .leave()
        .unwrap();
    assert_eq!(
        default_output,
        b"\x1b[?2004h\x1b[?25l\r\x1b[2K\x1b[?25h\x1b[?2004l",
    );

    let mut disabled = Vec::new();
    InlineScreenGuard::enter_with_bracketed_paste(&mut disabled, false)
        .unwrap()
        .leave()
        .unwrap();
    assert_eq!(disabled, b"\x1b[?25l\r\x1b[2K\x1b[?25h");
}

#[test]
fn screen_guard_composes_with_a_type_erased_writer() {
    let mut bytes = Vec::new();
    let output: &mut dyn Write = &mut bytes;
    let mut screen = ScreenGuard::enter(
        output,
        ScreenOptions::inline()
            .cursor(CursorPolicy::Preserve)
            .bracketed_paste(false)
            .clear_inline_on_leave(false),
    )
    .unwrap();
    screen.writer().write_all(b"frame").unwrap();
    screen.leave().unwrap();
    assert_eq!(bytes, b"frame");
}

#[test]
fn leave_attempts_every_restoration_after_a_failure() {
    let mut output = FailingWriter::new(4);
    let guard =
        ScreenGuard::enter(&mut output, ScreenOptions::full_screen().bracketed_paste(true))
            .unwrap();
    assert!(guard.leave().is_err());
    assert_eq!(
        output.attempts, 11,
        "the consuming leave call retries unfinished restoration",
    );
}

struct FailingWriter {
    bytes: Vec<u8>,
    attempts: usize,
    fail_at: usize,
}

impl FailingWriter {
    const fn new(fail_at: usize) -> Self {
        Self {
            bytes: Vec::new(),
            attempts: 0,
            fail_at,
        }
    }
}

impl Write for FailingWriter {
    fn write(&mut self, bytes: &[u8]) -> io::Result<usize> {
        let attempt = self.attempts;
        self.attempts += 1;
        if attempt == self.fail_at {
            return Err(io::Error::other("injected write failure"));
        }
        self.bytes.extend_from_slice(bytes);
        Ok(bytes.len())
    }

    fn flush(&mut self) -> io::Result<()> {
        let attempt = self.attempts;
        self.attempts += 1;
        if attempt == self.fail_at {
            return Err(io::Error::other("injected flush failure"));
        }
        Ok(())
    }
}

#[test]
fn restore_writes_the_inverse_sequences_and_releases_the_guard() {
    let mut out: Vec<u8> = Vec::new();
    {
        let mut guard = ScreenGuard::enter(&mut out, ScreenOptions::full_screen().bracketed_paste(true)).unwrap();
        guard.restore().unwrap();
        guard.restore().unwrap();
        guard.leave().unwrap();
    }
    assert_eq!(
        out,
        b"\x1b[?1049h\x1b[?2004h\x1b[?25l\x1b[?25h\x1b[?2004l\x1b[?1049l".to_vec()
    );
}
