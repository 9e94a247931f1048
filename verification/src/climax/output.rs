//! Application output: durable messages in text or JSON, side-band notices,
//! and the lifecycle of the one finite result of an invocation.

use std::io;
use std::io::Write;
use std::sync::{Arc, Mutex};
use vstd::prelude::*;
use vstd::string::StringSliceAdditionalSpecFns;

use crate::climax::error::{Error, ErrorKind};
use crate::io_error::io_error_other;
use crate::text::{chars_of, push_char, push_str};

verus! {

/// The format of durable output.
#[derive(Clone, Copy, Debug, Eq, PartialEq, Structural)]
pub enum Format {
    /// The message as plain text.
    Text,
    /// The message's text as a JSON string.
    Json,
}

impl Default for Format {
    fn default() -> (format: Self)
        ensures
            format == Format::Text,
    {
        Format::Text
    }
}

#[verifier::external_type_specification]
#[verifier::external_body]
#[verifier::reject_recursive_types(T)]
pub struct ExMutex<T: ?Sized>(Mutex<T>);

/// A writer shared by clones of an output, behind a lock. Verus does not
/// take a `dyn Write + Send` object, so the holder is opaque.
#[verifier::external_body]
pub struct SharedWriter {
    inner: Arc<Mutex<Box<dyn Write + Send>>>,
}

impl SharedWriter {
    /// Share `writer`.
    #[verifier::external_body]
    pub fn new<W: Write + Send + 'static>(writer: W) -> (shared: Self) {
        SharedWriter { inner: Arc::new(Mutex::new(Box::new(writer))) }
    }

    /// The process's standard output.
    #[verifier::external_body]
    pub fn stdout() -> (shared: Self) {
        SharedWriter::new(io::stdout())
    }

    /// The process's standard error.
    #[verifier::external_body]
    pub fn stderr() -> (shared: Self) {
        SharedWriter::new(io::stderr())
    }

    /// Another handle on the same writer: `Arc::clone` gives a second
    /// pointer to the same allocation, so the two handles are one writer.
    #[verifier::external_body]
    pub fn share(&self) -> (shared: Self)
        ensures
            shared == *self,
    {
        SharedWriter { inner: Arc::clone(&self.inner) }
    }

    /// `Write::write_all` on the shared writer, under its lock.
    #[verifier::external_body]
    pub fn write_all(&self, bytes: &[u8]) -> (result: io::Result<()>) {
        match self.inner.lock() {
            Ok(mut writer) => writer.write_all(bytes),
            Err(_poisoned) => Err(io::Error::other("output writer lock is poisoned")),
        }
    }

    /// `Write::flush` on the shared writer, under its lock.
    #[verifier::external_body]
    pub fn flush(&self) -> (result: io::Result<()>) {
        match self.inner.lock() {
            Ok(mut writer) => writer.flush(),
            Err(_poisoned) => Err(io::Error::other("output writer lock is poisoned")),
        }
    }
}

impl Clone for SharedWriter {
    fn clone(&self) -> (shared: Self)
        ensures
            shared == *self,
    {
        self.share()
    }
}

/// `Write::write_all` on a writer.
#[verifier::external_body]
fn write_all_to<W: Write>(writer: &mut W, bytes: &[u8]) -> (result: io::Result<()>) {
    writer.write_all(bytes)
}

/// The bytes of a string, as `str::as_bytes` gives them.
fn bytes_of(text: &String) -> (bytes: Vec<u8>)
    ensures
        bytes@ == vstd::utf8::encode_utf8(text@),
{
    let slice = text.as_str().as_bytes();
    let mut bytes: Vec<u8> = Vec::new();
    let mut i: usize = 0;
    while i < slice.len()
        invariant
            i <= slice@.len(),
            bytes@ == slice@.subrange(0, i as int),
        decreases slice@.len() - i,
    {
        bytes.push(slice[i]);
        assert(bytes@ =~= slice@.subrange(0, i + 1));
        i += 1;
    }
    assert(slice@.subrange(0, slice@.len() as int) =~= slice@);
    bytes
}

/// A lowercase hexadecimal digit.
pub open spec fn hex_digit(d: u32) -> char {
    if d < 10 {
        ((48 + d) as u8) as char
    } else {
        ((87 + d) as u8) as char
    }
}

/// A control character: general category `Cc`.
pub open spec fn is_control_code(c: char) -> bool {
    (c as u32) <= 0x1f || (0x7f <= (c as u32) && (c as u32) <= 0x9f)
}

/// A character as it stands inside a JSON string: quote, backslash,
/// newline, carriage return and tab escaped by name, other control
/// characters as `\u` and four hexadecimal digits, the rest as it is.
pub open spec fn escaped_char(c: char) -> Seq<char> {
    if c == '"' {
        seq!['\\', '"']
    } else if c == '\\' {
        seq!['\\', '\\']
    } else if c == '\n' {
        seq!['\\', 'n']
    } else if c == '\r' {
        seq!['\\', 'r']
    } else if c == '\t' {
        seq!['\\', 't']
    } else if is_control_code(c) {
        seq![
            '\\',
            'u',
            hex_digit(((c as u32) / 4096) % 16),
            hex_digit(((c as u32) / 256) % 16),
            hex_digit(((c as u32) / 16) % 16),
            hex_digit((c as u32) % 16),
        ]
    } else {
        seq![c]
    }
}

/// A text with each character escaped for a JSON string.
pub open spec fn escaped_text(text: Seq<char>) -> Seq<char>
    decreases text.len(),
{
    if text.len() == 0 {
        Seq::empty()
    } else {
        escaped_text(text.drop_last()) + escaped_char(text.last())
    }
}

/// A message as durable output shows it: the text and a newline, or, for
/// JSON, the escaped text in quotes and a newline.
pub open spec fn formatted_message(format: Format, message: Seq<char>) -> Seq<char> {
    match format {
        Format::Text => message + seq!['\n'],
        Format::Json => seq!['"'] + escaped_text(message) + seq!['"', '\n'],
    }
}

fn hex_char(d: u32) -> (c: char)
    requires
        d < 16,
    ensures
        c == hex_digit(d),
{
    if d < 10 {
        ((48 + d) as u8) as char
    } else {
        ((87 + d) as u8) as char
    }
}

/// Escape a text for a JSON string.
pub fn escape_json(value: &str) -> (escaped: String)
    ensures
        escaped@ == escaped_text(value@),
{
    let chars = chars_of(value);
    let mut escaped = String::new();
    let mut i: usize = 0;
    while i < chars.len()
        invariant
            i <= chars@.len(),
            chars@ == value@,
            escaped@ == escaped_text(chars@.subrange(0, i as int)),
        decreases chars@.len() - i,
    {
        let c = chars[i];
        let code = c as u32;
        if c == '"' {
            push_char(&mut escaped, '\\');
            push_char(&mut escaped, '"');
        } else if c == '\\' {
            push_char(&mut escaped, '\\');
            push_char(&mut escaped, '\\');
        } else if c == '\n' {
            push_char(&mut escaped, '\\');
            push_char(&mut escaped, 'n');
        } else if c == '\r' {
            push_char(&mut escaped, '\\');
            push_char(&mut escaped, 'r');
        } else if c == '\t' {
            push_char(&mut escaped, '\\');
            push_char(&mut escaped, 't');
        } else if code <= 0x1f || (0x7f <= code && code <= 0x9f) {
            push_char(&mut escaped, '\\');
            push_char(&mut escaped, 'u');
            push_char(&mut escaped, hex_char((code / 4096) % 16));
            push_char(&mut escaped, hex_char((code / 256) % 16));
            push_char(&mut escaped, hex_char((code / 16) % 16));
            push_char(&mut escaped, hex_char(code % 16));
        } else {
            push_char(&mut escaped, c);
        }
        assert(chars@.subrange(0, i + 1).drop_last() =~= chars@.subrange(0, i as int));
        assert(escaped@ =~= escaped_text(chars@.subrange(0, i + 1)));
        i += 1;
    }
    assert(chars@.subrange(0, chars@.len() as int) =~= chars@);
    escaped
}

/// The bytes an emission writes under `format`: the text's bytes for
/// people, the JSON encoding in JSON mode, then a newline.
pub open spec fn emission_model(format: Format, text: Seq<u8>, json: Seq<u8>) -> Seq<u8> {
    match format {
        Format::Text => text.push(10u8),
        Format::Json => json.push(10u8),
    }
}

/// Encode an emission under `format`.
pub fn emission_bytes(format: Format, text: &str, json: &[u8]) -> (bytes: Vec<u8>)
    ensures
        bytes@ == emission_model(format, text.spec_bytes(), json@),
{
    let source = match format {
        Format::Text => text.as_bytes(),
        Format::Json => json,
    };
    let mut bytes: Vec<u8> = Vec::new();
    let mut i: usize = 0;
    while i < source.len()
        invariant
            i <= source@.len(),
            bytes@ == source@.subrange(0, i as int),
        decreases source@.len() - i,
    {
        bytes.push(source[i]);
        assert(bytes@ =~= source@.subrange(0, i + 1));
        i += 1;
    }
    assert(source@.subrange(0, source@.len() as int) =~= source@);
    bytes.push(10u8);
    bytes
}

/// How an emission is written.
#[derive(Clone, Copy, Debug, Eq, PartialEq, Structural)]
pub enum EmissionMode {
    /// The invocation's one finite result, written when the application
    /// succeeds.
    Finite,
    /// A line of a result stream, written at once.
    Stream,
}

/// A finite result waiting for the application's success.
pub struct PendingResult {
    pub bytes: Vec<u8>,
    pub writer: SharedWriter,
}

/// Where an invocation's output lifecycle stands.
pub enum EmissionState {
    Empty,
    Finite(PendingResult),
    Streaming,
    Closed,
}

/// What registering an emission decides.
pub enum Registration {
    /// The bytes wait for the commit.
    Deferred,
    /// The bytes are written now.
    WriteNow,
    /// The emission breaks the lifecycle; the text says how.
    Refused(&'static str),
}

/// The kind of a lifecycle state.
pub open spec fn state_kind(state: EmissionState) -> int {
    match state {
        EmissionState::Empty => 0,
        EmissionState::Finite(_) => 1,
        EmissionState::Streaming => 2,
        EmissionState::Closed => 3,
    }
}

/// Register an emission: a first finite result is deferred, streams are
/// written at once; a second finite result, a finite result after a
/// stream, a stream after a finite result, and anything after the lifecycle
/// closed are refused and leave the state as it was.
pub fn register_step(state: EmissionState, mode: EmissionMode, bytes: Vec<u8>, writer: SharedWriter) -> (step: (
    EmissionState,
    Registration,
))
    ensures
        (state_kind(step.0), decision_kind(step.1)) == registration_kinds(state_kind(state), mode),
        state is Empty ==> (step.0 matches EmissionState::Finite(p) ==> p.bytes@ == bytes@),
        step.1 matches Registration::Refused(m) ==> m@ == refusal_text(state_kind(state), mode),
{
    proof {
        reveal_strlit("a finite result is already registered");
        reveal_strlit("cannot emit a finite result after streaming output");
        reveal_strlit("cannot stream output after registering a finite result");
        reveal_strlit("the output lifecycle is already complete");
    }
    match (state, mode) {
        (EmissionState::Empty, EmissionMode::Finite) => (
            EmissionState::Finite(PendingResult { bytes, writer }),
            Registration::Deferred,
        ),
        (EmissionState::Empty, EmissionMode::Stream) => (EmissionState::Streaming, Registration::WriteNow),
        (EmissionState::Streaming, EmissionMode::Stream) => (EmissionState::Streaming, Registration::WriteNow),
        (EmissionState::Finite(pending), EmissionMode::Finite) => (
            EmissionState::Finite(pending),
            Registration::Refused("a finite result is already registered"),
        ),
        (EmissionState::Streaming, EmissionMode::Finite) => (
            EmissionState::Streaming,
            Registration::Refused("cannot emit a finite result after streaming output"),
        ),
        (EmissionState::Finite(pending), EmissionMode::Stream) => (
            EmissionState::Finite(pending),
            Registration::Refused("cannot stream output after registering a finite result"),
        ),
        (EmissionState::Closed, _) => (
            EmissionState::Closed,
            Registration::Refused("the output lifecycle is already complete"),
        ),
    }
}

/// How a refused registration is explained, by the state's kind and the
/// mode.
pub open spec fn refusal_text(state: int, mode: EmissionMode) -> Seq<char> {
    if state == 3 {
        "the output lifecycle is already complete"@
    } else if state == 1 && mode == EmissionMode::Finite {
        "a finite result is already registered"@
    } else if state == 2 && mode == EmissionMode::Finite {
        "cannot emit a finite result after streaming output"@
    } else {
        "cannot stream output after registering a finite result"@
    }
}

/// Close the lifecycle, handing out a deferred finite result to write.
pub fn commit_step(state: EmissionState) -> (step: (EmissionState, Option<PendingResult>))
    ensures
        step.0 is Closed,
        step.1 is Some <==> state is Finite,
        state matches EmissionState::Finite(p) ==> step.1 == Some(p),
{
    match state {
        EmissionState::Finite(pending) => (EmissionState::Closed, Some(pending)),
        _ => (EmissionState::Closed, None),
    }
}

/// The kind of a registration decision: deferred, written now, refused.
pub open spec fn decision_kind(decision: Registration) -> int {
    match decision {
        Registration::Deferred => 0,
        Registration::WriteNow => 1,
        Registration::Refused(_) => 2,
    }
}

/// Registration by kinds: the next state's kind and the decision's kind.
pub open spec fn registration_kinds(state: int, mode: EmissionMode) -> (int, int) {
    if state == 0 && mode == EmissionMode::Finite {
        (1, 0)
    } else if (state == 0 || state == 2) && mode == EmissionMode::Stream {
        (2, 1)
    } else {
        (state, 2)
    }
}

/// The final state kind and the number of deferred results after a run of
/// registrations.
pub open spec fn run_registrations(state: int, modes: Seq<EmissionMode>) -> (int, nat)
    decreases modes.len(),
{
    if modes.len() == 0 {
        (state, 0)
    } else {
        let (mid, deferred) = run_registrations(state, modes.drop_last());
        let (next, decision) = registration_kinds(mid, modes.last());
        (next, if decision == 0 {
            deferred + 1
        } else {
            deferred
        })
    }
}

/// An invocation defers at most one finite result, whatever is registered;
/// once closed, a lifecycle stays closed and defers nothing.
pub proof fn law_at_most_one_finite_result(modes: Seq<EmissionMode>)
    ensures
        run_registrations(0, modes).1 <= 1,
        run_registrations(0, modes).1 == 1 ==> run_registrations(0, modes).0 == 1,
        run_registrations(3, modes) == (3int, 0nat),
    decreases modes.len(),
{
    if modes.len() > 0 {
        law_at_most_one_finite_result(modes.drop_last());
    }
}

/// `Mutex::new` on a lifecycle state.
#[verifier::external_body]
fn new_state_lock(state: EmissionState) -> (lock: Mutex<EmissionState>) {
    Mutex::new(state)
}

/// `std::mem::replace` on the state under `Mutex::lock`: what the slot held,
/// or `None` when the lock is poisoned. What it held depends on what other
/// clones put there, so nothing is stated of it.
#[verifier::external_body]
fn replace_locked(lock: &Mutex<EmissionState>, next: EmissionState) -> (previous: Option<EmissionState>) {
    match lock.lock() {
        Ok(mut state) => Some(std::mem::replace(&mut *state, next)),
        Err(_poisoned) => None,
    }
}

/// The lifecycle slot shared by clones of an output, behind a lock.
pub struct SharedLifecycle {
    inner: Arc<Mutex<EmissionState>>,
}

impl SharedLifecycle {
    /// A fresh, empty lifecycle.
    pub fn new() -> (shared: Self) {
        SharedLifecycle { inner: Arc::new(new_state_lock(EmissionState::Empty)) }
    }

    /// Another handle on the same slot.
    pub fn share(&self) -> (shared: Self)
        ensures
            shared == *self,
    {
        SharedLifecycle { inner: Arc::clone(&self.inner) }
    }

    /// Put `next` into the slot under its lock and give back what it held;
    /// `None` when the lock is poisoned.
    pub fn replace(&self, next: EmissionState) -> (previous: Option<EmissionState>) {
        replace_locked(&self.inner, next)
    }
}

/// A configured application output.
pub struct Output {
    format: Format,
    writer: SharedWriter,
    notices: SharedWriter,
    lifecycle: SharedLifecycle,
}

impl Clone for Output {
    /// Another handle on the same output: the same format, and the same
    /// writers and lifecycle, shared.
    fn clone(&self) -> (copy: Self)
        ensures
            copy.message_format() == self.message_format(),
            copy.result_writer() == self.result_writer(),
            copy.notice_writer() == self.notice_writer(),
            copy.shared_lifecycle() == self.shared_lifecycle(),
    {
        Output {
            format: self.format,
            writer: self.writer.share(),
            notices: self.notices.share(),
            lifecycle: self.lifecycle.share(),
        }
    }
}

fn output_policy(message: &'static str) -> (error: Error)
    ensures
        error.error_kind() == ErrorKind::Output,
{
    Error::with_source(ErrorKind::Output, io_error_other(message.to_owned()))
}

impl Output {
    pub closed spec fn message_format(&self) -> Format {
        self.format
    }

    /// The writer that receives results and messages.
    pub closed spec fn result_writer(&self) -> SharedWriter {
        self.writer
    }

    /// The writer that receives notices.
    pub closed spec fn notice_writer(&self) -> SharedWriter {
        self.notices
    }

    /// The lifecycle slot this output shares with its clones.
    pub closed spec fn shared_lifecycle(&self) -> SharedLifecycle {
        self.lifecycle
    }

    /// Output in `format` to the standard output, notices to standard error.
    pub fn new(format: Format) -> (output: Self)
        ensures
            output.message_format() == format,
    {
        Output {
            format,
            writer: SharedWriter::stdout(),
            notices: SharedWriter::stderr(),
            lifecycle: SharedLifecycle::new(),
        }
    }

    pub fn format(&self) -> (format: Format)
        ensures
            format == self.message_format(),
    {
        self.format
    }

    pub fn with_format(self, format: Format) -> (output: Self)
        ensures
            output.message_format() == format,
    {
        Output { format, ..self }
    }

    pub fn with_writer<W: Write + Send + 'static>(self, writer: W) -> (output: Self)
        ensures
            output.message_format() == self.message_format(),
            output.notice_writer() == self.notice_writer(),
    {
        Output { writer: SharedWriter::new(writer), ..self }
    }

    pub fn with_shared_writer(self, writer: SharedWriter) -> (output: Self)
        ensures
            output.message_format() == self.message_format(),
            output.result_writer() == writer,
            output.notice_writer() == self.notice_writer(),
    {
        Output { writer, ..self }
    }

    pub fn with_notice_writer(self, writer: SharedWriter) -> (output: Self)
        ensures
            output.message_format() == self.message_format(),
            output.notice_writer() == writer,
            output.result_writer() == self.result_writer(),
    {
        Output { notices: writer, ..self }
    }

    /// A message as this output shows it.
    pub fn format_message(&self, message: &str) -> (text: String)
        ensures
            text@ == formatted_message(self.message_format(), message@),
    {
        match self.format {
            Format::Text => {
                let mut text = message.to_owned();
                push_char(&mut text, '\n');
                text
            },
            Format::Json => {
                let mut text = String::new();
                push_char(&mut text, '"');
                let escaped = escape_json(message);
                push_str(&mut text, escaped.as_str());
                push_char(&mut text, '"');
                push_char(&mut text, '\n');
                assert(text@ =~= formatted_message(self.message_format(), message@));
                text
            },
        }
    }

    /// Write a message as this output shows it to `writer`; a failed write
    /// is an output error.
    pub fn write_message<W: Write>(&self, writer: W, message: &str) -> (written: Result<(), Error>)
        ensures
            written matches Err(e) ==> e.error_kind() == ErrorKind::Output,
    {
        let mut writer = writer;
        let text = self.format_message(message);
        let bytes = bytes_of(&text);
        match write_all_to(&mut writer, bytes.as_slice()) {
            Ok(()) => Ok(()),
            Err(error) => Err(Error::with_source(ErrorKind::Output, error)),
        }
    }

    /// Write a message to the configured durable writer.
    pub fn print_message(&self, message: &str) -> (written: Result<(), Error>)
        ensures
            written matches Err(e) ==> e.error_kind() == ErrorKind::Output,
    {
        let text = self.format_message(message);
        let bytes = bytes_of(&text);
        match self.writer.write_all(bytes.as_slice()) {
            Ok(()) => Ok(()),
            Err(error) => Err(Error::with_source(ErrorKind::Output, error)),
        }
    }

    /// What a notice writes: the text and a newline in text mode; nothing
    /// in structured modes.
    pub fn notice_bytes(&self, message: &str) -> (bytes: Option<Vec<u8>>)
        ensures
            self.message_format() == Format::Json ==> bytes is None,
            self.message_format() == Format::Text ==> (bytes matches Some(b) && b@ == vstd::utf8::encode_utf8(
                message@ + seq!['\n'],
            )),
    {
        match self.format {
            Format::Text => {
                let mut text = message.to_owned();
                push_char(&mut text, '\n');
                assert(text@ =~= message@ + seq!['\n']);
                Some(bytes_of(&text))
            },
            Format::Json => None,
        }
    }

    /// Human context beside the result: the bytes of [`Output::notice_bytes`]
    /// on the notice writer in text mode, and nothing written in structured
    /// modes.
    pub fn notice(&self, message: &str) -> (written: Result<(), Error>)
        ensures
            self.message_format() == Format::Json ==> written is Ok,
            written matches Err(e) ==> e.error_kind() == ErrorKind::Output,
    {
        match self.notice_write(message) {
            Some((writer, bytes)) => match writer.write_all(bytes.as_slice()) {
                Ok(()) => Ok(()),
                Err(error) => Err(Error::with_source(ErrorKind::Output, error)),
            },
            None => Ok(()),
        }
    }

    /// Where a notice goes and what it writes there: the bytes of
    /// [`Output::notice_bytes`] to the notice writer in text mode; no write
    /// at all in structured modes.
    pub fn notice_write(&self, message: &str) -> (write: Option<(SharedWriter, Vec<u8>)>)
        ensures
            self.message_format() == Format::Json ==> write is None,
            self.message_format() == Format::Text ==> (write matches Some((writer, bytes)) && writer
                == self.notice_writer() && bytes@ == vstd::utf8::encode_utf8(message@ + seq!['\n'])),
    {
        match self.notice_bytes(message) {
            Some(bytes) => Some((self.notices.share(), bytes)),
            None => None,
        }
    }

    /// Register an emission of encoded bytes: a finite result waits for the
    /// commit, a stream line is written at once; an emission that breaks the
    /// lifecycle is an output error.
    pub fn register(&self, mode: EmissionMode, bytes: Vec<u8>) -> (registered: Result<(), Error>)
        ensures
            registered matches Err(e) ==> e.error_kind() == ErrorKind::Output,
    {
        let current = match self.lifecycle.replace(EmissionState::Closed) {
            Some(state) => state,
            None => return Err(output_policy("output state lock is poisoned")),
        };
        let (next, decision) = register_step(current, mode, bytes.clone(), self.writer.share());
        let _closed = self.lifecycle.replace(next);
        match decision {
            Registration::Deferred => Ok(()),
            Registration::WriteNow => match self.writer.write_all(bytes.as_slice()) {
                Ok(()) => Ok(()),
                Err(error) => Err(Error::with_source(ErrorKind::Output, error)),
            },
            Registration::Refused(message) => Err(output_policy(message)),
        }
    }

    /// Register a result as this output's format encodes it: its text for
    /// people, its JSON encoding in JSON mode, either followed by a newline.
    pub fn emit(&self, mode: EmissionMode, text: &str, json: &[u8]) -> (registered: Result<(), Error>)
        ensures
            registered matches Err(e) ==> e.error_kind() == ErrorKind::Output,
    {
        let bytes = emission_bytes(self.format, text, json);
        self.register(mode, bytes)
    }

    /// Begin the invocation's one finite result from its JSON encoding;
    /// its text for people comes next.
    pub fn result(&self, json: Vec<u8>) -> (builder: ResultBuilder<'_, MissingText>)
        ensures
            builder.emission_mode() == EmissionMode::Finite,
            builder.json_bytes() == json@,
            builder.target() == *self,
    {
        ResultBuilder { output: self, json, text: MissingText, mode: EmissionMode::Finite }
    }

    /// Begin a line of a result stream from its JSON encoding; its text for
    /// people comes next.
    pub fn stream(&self, json: Vec<u8>) -> (builder: ResultBuilder<'_, MissingText>)
        ensures
            builder.emission_mode() == EmissionMode::Stream,
            builder.json_bytes() == json@,
            builder.target() == *self,
    {
        ResultBuilder { output: self, json, text: MissingText, mode: EmissionMode::Stream }
    }

    /// Close the lifecycle and write a deferred finite result, flushing its
    /// writer.
    pub fn commit(&self) -> (committed: Result<(), Error>)
        ensures
            committed matches Err(e) ==> e.error_kind() == ErrorKind::Output,
    {
        let current = match self.lifecycle.replace(EmissionState::Closed) {
            Some(state) => state,
            None => return Err(output_policy("output state lock is poisoned")),
        };
        let (_closed, pending) = commit_step(current);
        match pending {
            Some(pending) => {
                match pending.writer.write_all(pending.bytes.as_slice()) {
                    Ok(()) => {},
                    Err(error) => return Err(Error::with_source(ErrorKind::Output, error)),
                }
                match pending.writer.flush() {
                    Ok(()) => Ok(()),
                    Err(error) => Err(Error::with_source(ErrorKind::Output, error)),
                }
            },
            None => Ok(()),
        }
    }

    /// Close the lifecycle, dropping any deferred result.
    pub fn discard(&self) {
        let _previous = self.lifecycle.replace(EmissionState::Closed);
    }
}

impl Default for Output {
    fn default() -> (output: Self)
        ensures
            output.message_format() == Format::Text,
    {
        Output::new(Format::Text)
    }
}


/// A result whose text for people is not given yet.
pub struct MissingText;

/// A result on its way to an output: its JSON encoding, its text for people
/// once given, and how it is emitted.
pub struct ResultBuilder<'a, F> {
    output: &'a Output,
    json: Vec<u8>,
    text: F,
    mode: EmissionMode,
}

impl<'a, F> ResultBuilder<'a, F> {
    pub closed spec fn emission_mode(&self) -> EmissionMode {
        self.mode
    }

    pub closed spec fn json_bytes(&self) -> Seq<u8> {
        self.json@
    }

    /// The output the result goes to.
    pub closed spec fn target(&self) -> Output {
        *self.output
    }
}

impl<'a> ResultBuilder<'a, MissingText> {
    /// Give the result's text for people.
    pub fn text(self, text: String) -> (builder: ResultBuilder<'a, String>)
        ensures
            builder.emission_mode() == self.emission_mode(),
            builder.json_bytes() == self.json_bytes(),
            builder.target() == self.target(),
            builder.text_chars() == text@,
    {
        ResultBuilder { output: self.output, json: self.json, text, mode: self.mode }
    }
}

impl<'a> ResultBuilder<'a, String> {
    pub closed spec fn text_chars(&self) -> Seq<char> {
        self.text@
    }

    /// The bytes the result is registered with: its text and a newline
    /// for people, its JSON encoding and a newline in JSON mode.
    pub fn encoded(&self) -> (bytes: Vec<u8>)
        ensures
            bytes@ == emission_model(
                self.target().message_format(),
                vstd::utf8::encode_utf8(self.text_chars()),
                self.json_bytes(),
            ),
    {
        emission_bytes(self.output.format, self.text.as_str(), self.json.as_slice())
    }

    /// Register the result: a finite result waits for the commit, a stream
    /// line is written at once, and one that breaks the lifecycle is an
    /// output error.
    pub fn emit(self) -> (registered: Result<(), Error>)
        ensures
            registered matches Err(e) ==> e.error_kind() == ErrorKind::Output,
    {
        let bytes = self.encoded();
        self.output.register(self.mode, bytes)
    }
}

} // verus!
