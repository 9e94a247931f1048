//! Running a widget described on the command line or by a configuration:
//! building it, binding its actions, and replaying scripted input bytes
//! through a session.

use vstd::prelude::*;
use vstd::view::View as _;
use vstd::utf8::encode_utf8;

use crate::bang_core::action::{ActionBinding, ActionLayer};
use crate::bang_core::date_picker::{clamped_date, DatePicker};
use crate::bang_core::event::{Event, EventModel, KeyEvent};
use crate::bang_core::form::Form;
use crate::bang_core::output::{format_output, output_of, OutputFormat as CoreOutputFormat};
use crate::bang_core::review::{ReviewActionBinding, ReviewList, ReviewOutput, ReviewState};
use crate::bang_core::search_select::SearchSelect;
use crate::bang_core::select::{names_index, MultiSelect, Select, SelectItem, DEFAULT_PAGE_SIZE};
use crate::bang_core::session::{Session, SessionStatus};
use crate::bang_core::text_input::TextInput;
use crate::bang_core::value::{Date, Value, ValueModel};
use crate::bang_core::render::{ListPresentation, Span};
use crate::bang_core::widget::{Context, Reaction, Widget};
use crate::cli::config::{
    action_binding_result, first_problem, format_action_key_event, key_label, lemma_first_problem_stays,
    parse_action_binding, parse_review_action_binding, review_binding_result, text_from_config, FieldConfig,
    WidgetConfig, WidgetKind,
};
use crate::terminal::decoder::{decode_all, decode_run, events_view, flush_model, Decoder, DecoderModel};
use crate::text::{chars_of, push_char, push_str, IntoText};

verus! {

/// The output format asked for on the command line.
#[derive(Clone, Copy, Debug, PartialEq, Eq, Structural)]
pub enum OutputFormat {
    Text,
    Json,
}

pub open spec fn core_format(format: OutputFormat) -> CoreOutputFormat {
    match format {
        OutputFormat::Text => CoreOutputFormat::Text,
        OutputFormat::Json => CoreOutputFormat::Json,
    }
}

impl From<OutputFormat> for CoreOutputFormat {
    fn from(value: OutputFormat) -> (format: Self) {
        match value {
            OutputFormat::Text => CoreOutputFormat::Text,
            OutputFormat::Json => CoreOutputFormat::Json,
        }
    }
}

impl vstd::std_specs::convert::FromSpecImpl<OutputFormat> for CoreOutputFormat {
    open spec fn obeys_from_spec() -> bool {
        true
    }

    open spec fn from_spec(v: OutputFormat) -> CoreOutputFormat {
        core_format(v)
    }
}

/// A widget asked for by a subcommand.
#[derive(Debug)]
pub enum Command {
    /// Choose one option.
    Select { option: Vec<String>, input_bytes: Option<String>, page_size: usize, action: Vec<String> },
    /// Choose zero or more options.
    MultiSelect { option: Vec<String>, input_bytes: Option<String>, page_size: usize, action: Vec<String> },
    /// Edit and submit text.
    Text { input_bytes: Option<String>, value: String, prompt: String, action: Vec<String> },
    /// Filter options and choose one.
    Search { option: Vec<String>, input_bytes: Option<String>, page_size: usize, action: Vec<String> },
    /// Review options, each confirmed, denied or unconfirmed.
    ReviewList {
        option: Vec<String>,
        input_bytes: Option<String>,
        page_size: usize,
        hide_removed: bool,
        action_output: bool,
        action: Vec<String>,
    },
}

/// A command line: a configuration file or a subcommand, and the output
/// format.
#[derive(Debug)]
pub struct Cli {
    pub config: Option<String>,
    pub output: OutputFormat,
    pub command: Option<Command>,
}

/// A built widget: finished from scripted input, or to be run live on a
/// terminal.
pub enum Outcome {
    Value(Value),
    Live(Box<dyn Widget>),
}

/// What a command line comes to: the text to print, a widget to run live
/// and print in the given format, or a configuration file to load first.
pub enum Step {
    Output(String),
    Live { widget: Box<dyn Widget>, output: OutputFormat },
    LoadConfig { path: String, output: OutputFormat },
}

// ---------------------------------------------------------------------------
// Scripted input bytes.

/// The value of a hexadecimal digit.
pub open spec fn hex_value(c: char) -> Option<u8> {
    if '0' <= c <= '9' {
        Some((c as u32 - '0' as u32) as u8)
    } else if 'a' <= c <= 'f' {
        Some((c as u32 - 'a' as u32 + 10) as u8)
    } else if 'A' <= c <= 'F' {
        Some((c as u32 - 'A' as u32 + 10) as u8)
    } else {
        None
    }
}

pub open spec fn hex_message(c: char) -> Seq<char> {
    "invalid hex digit '"@ + seq![c] + "' in --input-bytes"@
}

/// The byte two hexadecimal digits write, or the error of the first bad one.
pub open spec fn hex_byte_result(high: char, low: char) -> Result<u8, Seq<char>> {
    match hex_value(high) {
        None => Err(hex_message(high)),
        Some(h) => match hex_value(low) {
            None => Err(hex_message(low)),
            Some(l) => Ok((h * 16 + l) as u8),
        },
    }
}

/// `prefix` before what `rest` decodes, or the error of `rest`.
pub open spec fn then_bytes(prefix: Seq<u8>, rest: Result<Seq<u8>, Seq<char>>) -> Result<Seq<u8>, Seq<char>> {
    match rest {
        Ok(bytes) => Ok(prefix + bytes),
        Err(message) => Err(message),
    }
}

/// The bytes that escaped text writes from position `i` on: characters as
/// UTF-8, `\n`, `\r`, `\t`, `\e`, `\\` and `\xHH` as their bytes; the first
/// malformed escape is the error.
pub open spec fn unescape_from(chars: Seq<char>, i: int) -> Result<Seq<u8>, Seq<char>>
    decreases chars.len() - i,
{
    if i < 0 || i >= chars.len() {
        Ok(Seq::empty())
    } else if chars[i] != '\\' {
        then_bytes(encode_utf8(seq![chars[i]]), unescape_from(chars, i + 1))
    } else if i + 1 >= chars.len() {
        Err("trailing backslash in --input-bytes"@)
    } else {
        let e = chars[i + 1];
        if e == 'n' {
            then_bytes(seq![10u8], unescape_from(chars, i + 2))
        } else if e == 'r' {
            then_bytes(seq![13u8], unescape_from(chars, i + 2))
        } else if e == 't' {
            then_bytes(seq![9u8], unescape_from(chars, i + 2))
        } else if e == 'e' {
            then_bytes(seq![0x1bu8], unescape_from(chars, i + 2))
        } else if e == '\\' {
            then_bytes(seq![0x5cu8], unescape_from(chars, i + 2))
        } else if e == 'x' {
            if i + 3 >= chars.len() {
                Err("incomplete \\x escape in --input-bytes"@)
            } else {
                match hex_byte_result(chars[i + 2], chars[i + 3]) {
                    Err(message) => Err(message),
                    Ok(b) => then_bytes(seq![b], unescape_from(chars, i + 4)),
                }
            }
        } else {
            Err("unsupported escape \\"@ + seq![e] + " in --input-bytes"@)
        }
    }
}

/// The bytes of escaped text.
pub open spec fn unescape(text: Seq<char>) -> Result<Seq<u8>, Seq<char>> {
    unescape_from(text, 0)
}

/// Unescaping reads the text after a prefix just as it reads that text
/// alone, as long as the prefix reading stops at its end.
proof fn lemma_unescape_shift(prefix: Seq<char>, text: Seq<char>, i: int)
    requires
        0 <= i,
    ensures
        unescape_from(prefix + text, prefix.len() + i) == unescape_from(text, i),
    decreases text.len() + 4 - i,
{
    let all = prefix + text;
    let at = prefix.len() + i;
    if i < text.len() {
        assert(all[at] == text[i]);
        if i + 1 < text.len() {
            assert(all[at + 1] == text[i + 1]);
        }
        if i + 2 < text.len() {
            assert(all[at + 2] == text[i + 2]);
        }
        if i + 3 < text.len() {
            assert(all[at + 3] == text[i + 3]);
        }
        lemma_unescape_shift(prefix, text, i + 1);
        lemma_unescape_shift(prefix, text, i + 2);
        lemma_unescape_shift(prefix, text, i + 4);
    }
}

/// The digits of a byte's two-digit hexadecimal form, in small or capital
/// letters.
pub open spec fn hex_digit_char(value: int, capital: bool) -> char {
    if capital {
        "0123456789ABCDEF"@[value]
    } else {
        "0123456789abcdef"@[value]
    }
}

/// The escapes of input bytes: `\n` is byte 10, `\r` 13, `\t` 9, `\e` 27
/// and `\\` a backslash, `\xHH` the byte its two hexadecimal digits
/// write, in small or capital letters, and any other character its UTF-8
/// encoding; each followed by what the rest of the text writes.
pub proof fn law_input_byte_escapes(rest: Seq<char>, byte: u8, capital: bool, c: char)
    ensures
        unescape(seq!['\\', 'n'] + rest) == then_bytes(seq![10u8], unescape(rest)),
        unescape(seq!['\\', 'r'] + rest) == then_bytes(seq![13u8], unescape(rest)),
        unescape(seq!['\\', 't'] + rest) == then_bytes(seq![9u8], unescape(rest)),
        unescape(seq!['\\', 'e'] + rest) == then_bytes(seq![27u8], unescape(rest)),
        unescape(seq!['\\', '\\'] + rest) == then_bytes(seq![92u8], unescape(rest)),
        unescape(seq!['\\', 'x', hex_digit_char(byte as int / 16, capital), hex_digit_char(byte as int % 16, capital)] + rest)
            == then_bytes(seq![byte], unescape(rest)),
        c != '\\' ==> unescape(seq![c] + rest) == then_bytes(encode_utf8(seq![c]), unescape(rest)),
{
    reveal_strlit("0123456789ABCDEF");
    reveal_strlit("0123456789abcdef");
    let two = |e: char| seq!['\\', e];
    lemma_unescape_shift(two('n'), rest, 0);
    lemma_unescape_shift(two('r'), rest, 0);
    lemma_unescape_shift(two('t'), rest, 0);
    lemma_unescape_shift(two('e'), rest, 0);
    lemma_unescape_shift(two('\\'), rest, 0);
    lemma_unescape_shift(seq![c], rest, 0);
    let hex = seq!['\\', 'x', hex_digit_char(byte as int / 16, capital), hex_digit_char(byte as int % 16, capital)];
    lemma_unescape_shift(hex, rest, 0);
    let high = byte as int / 16;
    let low = byte as int % 16;
    assert(0 <= high < 16 && 0 <= low < 16);
    assert(hex_value(hex_digit_char(high, capital)) == Some(high as u8));
    assert(hex_value(hex_digit_char(low, capital)) == Some(low as u8));
    assert((high * 16 + low) as u8 == byte);
    assert((seq!['\\', 'n'] + rest)[0] == '\\');
}

fn hex_digit(c: char) -> (value: Option<u8>)
    ensures
        value == hex_value(c),
{
    if '0' <= c && c <= '9' {
        Some((c as u32 - '0' as u32) as u8)
    } else if 'a' <= c && c <= 'f' {
        Some((c as u32 - 'a' as u32 + 10) as u8)
    } else if 'A' <= c && c <= 'F' {
        Some((c as u32 - 'A' as u32 + 10) as u8)
    } else {
        None
    }
}

fn hex_error(c: char) -> (message: String)
    ensures
        message@ == hex_message(c),
{
    let mut message = String::new();
    push_str(&mut message, "invalid hex digit '");
    push_char(&mut message, c);
    push_str(&mut message, "' in --input-bytes");
    message
}

/// The byte two hexadecimal digits write.
pub fn hex_byte(high: char, low: char) -> (byte: Result<u8, String>)
    ensures
        match hex_byte_result(high, low) {
            Ok(b) => byte == Ok::<u8, String>(b),
            Err(e) => byte matches Err(m) && m@ == e,
        },
{
    let h = match hex_digit(high) {
        Some(h) => h,
        None => return Err(hex_error(high)),
    };
    let l = match hex_digit(low) {
        Some(l) => l,
        None => return Err(hex_error(low)),
    };
    Ok(h * 16 + l)
}

/// Append the UTF-8 encoding of a character.
pub fn push_utf8(out: &mut Vec<u8>, value: char)
    ensures
        final(out)@ == old(out)@ + encode_utf8(seq![value]),
{
    let mut text = String::new();
    push_char(&mut text, value);
    let bytes = text.as_str().as_bytes();
    let ghost start = out@;
    let mut i: usize = 0;
    while i < bytes.len()
        invariant
            i <= bytes@.len(),
            bytes@ == encode_utf8(seq![value]),
            out@ == start + bytes@.subrange(0, i as int),
        decreases bytes@.len() - i,
    {
        out.push(bytes[i]);
        assert(out@ =~= start + bytes@.subrange(0, i + 1));
        i += 1;
    }
    assert(bytes@.subrange(0, bytes@.len() as int) =~= bytes@);
}

/// Decode escaped input bytes.
pub fn decode_escaped(value: &str) -> (bytes: Result<Vec<u8>, String>)
    ensures
        match unescape(value@) {
            Ok(b) => bytes matches Ok(v) && v@ == b,
            Err(e) => bytes matches Err(m) && m@ == e,
        },
{
    let chars = chars_of(value);
    let mut bytes: Vec<u8> = Vec::new();
    let mut i: usize = 0;
    while i < chars.len()
        invariant
            i <= chars@.len(),
            chars@ == value@,
            unescape(value@) == then_bytes(bytes@, unescape_from(chars@, i as int)),
        decreases chars@.len() - i,
    {
        let ghost before = bytes@;
        let ghost rest_at = |k: int| unescape_from(chars@, k);
        let next = chars[i];
        if next != '\\' {
            push_utf8(&mut bytes, next);
            proof {
                match unescape_from(chars@, i + 1) {
                    Ok(r) => assert(before + encode_utf8(seq![next]) + r =~= before + (encode_utf8(seq![next]) + r)),
                    Err(_) => {},
                }
            }
            i += 1;
            continue;
        }
        if i + 1 >= chars.len() {
            return Err("trailing backslash in --input-bytes".to_owned());
        }
        let escaped = chars[i + 1];
        let byte: u8 = if escaped == 'n' {
            10
        } else if escaped == 'r' {
            13
        } else if escaped == 't' {
            9
        } else if escaped == 'e' {
            0x1b
        } else if escaped == '\\' {
            0x5c
        } else if escaped == 'x' {
            if chars.len() - i <= 3 {
                return Err("incomplete \\x escape in --input-bytes".to_owned());
            }
            let b = hex_byte(chars[i + 2], chars[i + 3])?;
            bytes.push(b);
            proof {
                assert(hex_byte_result(chars@[i + 2], chars@[i + 3]) == Ok::<u8, Seq<char>>(b));
                assert(unescape_from(chars@, i as int) == then_bytes(seq![b], unescape_from(chars@, i + 4)));
                assert(bytes@ =~= before + seq![b]);
                match unescape_from(chars@, i + 4) {
                    Ok(r) => assert(before + seq![b] + r =~= before + (seq![b] + r)),
                    Err(_) => {},
                }
            }
            i += 4;
            continue;
        } else {
            let mut message = String::new();
            push_str(&mut message, "unsupported escape \\");
            push_char(&mut message, escaped);
            push_str(&mut message, " in --input-bytes");
            return Err(message);
        };
        bytes.push(byte);
        proof {
            assert(bytes@ =~= before + seq![byte]);
            assert(unescape_from(chars@, i as int) == then_bytes(seq![byte], unescape_from(chars@, i + 2)));
            match unescape_from(chars@, i + 2) {
                Ok(r) => assert(before + seq![byte] + r =~= before + (seq![byte] + r)),
                Err(_) => {},
            }
        }
        i += 2;
    }
    proof {
        assert(bytes@ + Seq::<u8>::empty() =~= bytes@);
    }
    Ok(bytes)
}

/// The events of decoding input bytes whole: what feeding them all gives,
/// then what flushing the decoder leaves.
pub open spec fn decoded_events(bytes: Seq<u8>) -> Seq<EventModel> {
    let fed = decode_run(DecoderModel { pending: bytes, paste: Seq::empty(), in_paste: false });
    fed.0 + flush_model(fed.1).0
}

/// The events a replay hands to its widget: those of the escaped input
/// bytes, or the error that unescaping them gives.
pub fn replay_events(input_bytes: &str) -> (events: Result<Vec<Event>, String>)
    ensures
        match unescape(input_bytes@) {
            Ok(b) => events matches Ok(v) && events_view(v@) == decoded_events(b),
            Err(e) => events matches Err(m) && m@ == e,
        },
{
    let bytes = decode_escaped(input_bytes)?;
    Ok(decode_all(bytes.as_slice()))
}

/// A result as values.
pub open spec fn result_model(result: Result<Value, String>) -> Result<ValueModel, Seq<char>> {
    match result {
        Ok(v) => Ok(v@),
        Err(m) => Err(m@),
    }
}

/// Whether a reaction ends a replay: a submit or a cancel.
pub open spec fn ends_replay(reaction: Reaction) -> bool {
    reaction is Submit || reaction is Cancel
}

/// What a replay settles on from the reactions to its events, in order:
/// the first submit gives its value, the first cancel the error
/// `cancelled`; without either, the input ended before a submit.
pub open spec fn replay_result(reactions: Seq<Reaction>) -> Result<ValueModel, Seq<char>>
    decreases reactions.len(),
{
    if reactions.len() == 0 {
        Err("input ended before submit"@)
    } else {
        match reactions[0] {
            Reaction::Submit(v) => Ok(v@),
            Reaction::Cancel => Err("cancelled"@),
            _ => replay_result(reactions.drop_first()),
        }
    }
}

/// Settle a replay on the reactions its events got, in order.
pub fn settle_replay(reactions: &Vec<Reaction>) -> (result: Result<Value, String>)
    ensures
        result_model(result) == replay_result(reactions@),
{
    let mut i: usize = 0;
    assert(reactions@.subrange(0, reactions@.len() as int) =~= reactions@);
    while i < reactions.len()
        invariant
            i <= reactions@.len(),
            replay_result(reactions@) == replay_result(reactions@.subrange(i as int, reactions@.len() as int)),
        decreases reactions@.len() - i,
    {
        let ghost rest = reactions@.subrange(i as int, reactions@.len() as int);
        assert(rest.drop_first() =~= reactions@.subrange(i + 1, reactions@.len() as int));
        match &reactions[i] {
            Reaction::Submit(value) => return Ok(value.clone()),
            Reaction::Cancel => return Err("cancelled".to_owned()),
            _ => {},
        }
        i += 1;
    }
    proof {
        reveal_strlit("input ended before submit");
        assert(reactions@.subrange(i as int, reactions@.len() as int) =~= Seq::<Reaction>::empty());
    }
    Err("input ended before submit".to_owned())
}

/// A run of a widget over the first events: the events handed to it, its
/// states before each, the reactions it gave and what the run made of them
/// (a focus request turns a reaction into a focus move). The first state is
/// `widget` itself, and only the last reaction may end the run.
pub open spec fn widget_run<W: Widget>(
    widget: W,
    events: Seq<EventModel>,
    handed: Seq<Event>,
    states: Seq<W>,
    raws: Seq<Reaction>,
    effective: Seq<Reaction>,
) -> bool {
    &&& effective.len() <= events.len()
    &&& handed.len() == effective.len() && states.len() == effective.len() && raws.len() == effective.len()
    &&& forall|k: int| 0 <= k < handed.len() ==> (#[trigger] handed[k])@ == events[k]
    &&& states.len() > 0 ==> states[0] == widget
    &&& forall|k: int| 0 <= k < states.len() ==> (#[trigger] states[k]).reacts(handed[k], Seq::empty(), raws[k])
    &&& forall|k: int|
        0 <= k < states.len() - 1 ==> (#[trigger] states[k]).holds_after(handed[k], Seq::empty(), states[k + 1].held_value())
    &&& forall|k: int| 0 <= k < effective.len() ==> #[trigger] effective[k] == raws[k] || effective[k] is Focus
    &&& forall|k: int| 0 <= k < effective.len() - 1 ==> !ends_replay(#[trigger] effective[k])
}

/// A run that went as far as it goes: to a submit or a cancel, else to the
/// end of the events.
pub open spec fn run_stopped(events: Seq<EventModel>, effective: Seq<Reaction>) -> bool {
    effective.len() == events.len() || (effective.len() > 0 && ends_replay(effective.last()))
}

/// What replaying `events` through `widget` may give: the result some run
/// of the widget settles on.
pub open spec fn replays_as<W: Widget>(widget: W, events: Seq<EventModel>, result: Result<Value, String>) -> bool {
    exists|handed: Seq<Event>, states: Seq<W>, raws: Seq<Reaction>, effective: Seq<Reaction>|
        #[trigger] widget_run(widget, events, handed, states, raws, effective) && run_stopped(events, effective)
            && result_model(result) == replay_result(effective)
}

/// What replaying escaped input through `widget` gives: the unescaping
/// error, or what a run of the widget over the decoded events settles on.
pub open spec fn replay_settles<W: Widget>(widget: W, input: Seq<char>, result: Result<Value, String>) -> bool {
    match unescape(input) {
        Err(e) => result matches Err(m) && m@ == e,
        Ok(b) => replays_as(widget, decoded_events(b), result),
    }
}

/// Replay escaped input bytes through `widget`: each decoded event in turn
/// is handed to it with the renderer's report empty; a submit gives its
/// value and a cancel the error `cancelled`, unless the widget asked for
/// the focus with it; input that ends first is an error.
pub fn run_replayed_session<W: Widget + 'static>(widget: W, input_bytes: &str) -> (result: Result<Value, String>)
    ensures
        replay_settles(widget, input_bytes@, result),
{
    let events = replay_events(input_bytes)?;
    let ghost start = widget;
    let ghost decoded = events_view(events@);
    let mut widget = widget;
    let mut reactions: Vec<Reaction> = Vec::new();
    let ghost mut handed: Seq<Event> = Seq::empty();
    let ghost mut states: Seq<W> = Seq::empty();
    let ghost mut raws: Seq<Reaction> = Seq::empty();
    let mut i: usize = 0;
    while i < events.len()
        invariant_except_break
            i > 0 ==> !ends_replay(reactions@[i - 1]),
        invariant
            i <= events@.len(),
            decoded == events_view(events@),
            unescape(input_bytes@) matches Ok(b) && decoded == decoded_events(b),
            reactions@.len() == i,
            i == 0 ==> widget == start,
            i > 0 ==> states.last().holds_after(handed.last(), Seq::empty(), widget.held_value()),
            widget_run(start, decoded, handed, states, raws, reactions@),
        ensures
            widget_run(start, decoded, handed, states, raws, reactions@),
            run_stopped(decoded, reactions@),
        decreases events@.len() - i,
    {
        let event = events[i].clone();
        let ghost given = event;
        let ghost before = widget;
        let mut cx = Context::new();
        assert(cx.lists() =~= Seq::<ListPresentation>::empty());
        let raw = widget.handle(event, &mut cx);
        let ghost answered = raw;
        let focus = cx.take_focus();
        let reaction = match focus {
            Some(target) => Reaction::Focus(target),
            None => raw,
        };
        let ends = match &reaction {
            Reaction::Submit(_) => true,
            Reaction::Cancel => true,
            _ => false,
        };
        proof {
            handed = handed.push(given);
            states = states.push(before);
            raws = raws.push(answered);
            assert(handed[i as int]@ == decoded[i as int]);
        }
        reactions.push(reaction);
        proof {
            assert(widget_run(start, decoded, handed, states, raws, reactions@));
        }
        i += 1;
        if ends {
            break;
        }
    }
    let result = settle_replay(&reactions);
    proof {
        assert(widget_run(start, decoded, handed, states, raws, reactions@));
        assert(run_stopped(decoded, reactions@));
        assert(replays_as(start, decoded, result));
    }
    result
}

/// What running a widget gives: a live run without input bytes, else what
/// replaying them settles.
pub open spec fn launch_settles(input_bytes: Option<String>, result: Result<Outcome, String>) -> bool {
    match input_bytes {
        None => result matches Ok(Outcome::Live(_)),
        Some(input) => match unescape(input@) {
            Err(e) => result matches Err(m) && m@ == e,
            Ok(_) => result matches Ok(Outcome::Value(_)) || (result matches Err(m) && (m@ == "cancelled"@ || m@
                == "input ended before submit"@)),
        },
    }
}

/// Replay errors are a cancel or the end of the input.
proof fn lemma_replay_errors(reactions: Seq<Reaction>)
    ensures
        replay_result(reactions) matches Err(m) ==> m == "cancelled"@ || m == "input ended before submit"@,
    decreases reactions.len(),
{
    if reactions.len() > 0 {
        lemma_replay_errors(reactions.drop_first());
    }
}

/// What running `widget` under `actions` on escaped input gives: the
/// unescaping error, or what a run of the widget under those bindings over
/// the decoded events settles on; without input, a widget to run live.
pub open spec fn widget_launch<W: Widget>(
    widget: W,
    actions: Seq<ActionBinding>,
    input_bytes: Option<String>,
    result: Result<Outcome, String>,
) -> bool {
    match input_bytes {
        None => result matches Ok(Outcome::Live(_)),
        Some(input) => match unescape(input@) {
            Err(e) => result matches Err(m) && m@ == e,
            Ok(b) => exists|layer: ActionLayer<W>|
                layer.inner() == widget && layer.bindings() == actions && #[trigger] launch_replays(
                    layer,
                    decoded_events(b),
                    result,
                ),
        },
    }
}

/// A replay's result as an outcome.
pub open spec fn launch_replays<W: Widget>(layer: W, events: Seq<EventModel>, result: Result<Outcome, String>) -> bool {
    match result {
        Ok(Outcome::Value(v)) => replays_as(layer, events, Ok(v)),
        Ok(Outcome::Live(_)) => false,
        Err(m) => replays_as(layer, events, Err(m)),
    }
}

/// Run `widget` under its action bindings: replay the input bytes, or hand
/// it back to be run live.
pub fn run_widget<W: Widget + 'static>(widget: W, input_bytes: Option<String>, actions: Vec<ActionBinding>) -> (result:
    Result<Outcome, String>)
    ensures
        widget_launch(widget, actions@, input_bytes, result),
        launch_settles(input_bytes, result),
{
    let ghost bindings = actions@;
    let layer = ActionLayer::new(widget).with_actions(actions);
    match input_bytes {
        Some(input) => {
            let ghost start = layer;
            let replayed = run_replayed_session(layer, input.as_str());
            let result = match replayed {
                Ok(value) => Ok(Outcome::Value(value)),
                Err(message) => Err(message),
            };
            proof {
                if let Ok(b) = unescape(input@) {
                    let (handed, states, raws, effective) = choose|
                        handed: Seq<Event>,
                        states: Seq<ActionLayer<W>>,
                        raws: Seq<Reaction>,
                        effective: Seq<Reaction>,
                    |
                        #[trigger] widget_run(start, decoded_events(b), handed, states, raws, effective) && run_stopped(
                            decoded_events(b),
                            effective,
                        ) && result_model(replayed) == replay_result(effective);
                    lemma_replay_errors(effective);
                    assert(launch_replays(start, decoded_events(b), result));
                }
            }
            result
        },
        None => {
            let boxed: Box<dyn Widget> = Box::new(layer);
            Ok(Outcome::Live(boxed))
        },
    }
}

// ---------------------------------------------------------------------------
// Options and actions given as arguments.

/// Each option as an item whose value is its label; at least one is needed.
pub fn choice_items(options: Vec<String>) -> (items: Result<Vec<SelectItem>, String>)
    ensures
        options@.len() == 0 ==> (items matches Err(m) && m@ == "at least one --option is required"@),
        options@.len() > 0 ==> (items matches Ok(v) && v@.len() == options@.len() && forall|i: int|
            0 <= i < options@.len() ==> (#[trigger] v@[i]).label@ == options@[i]@ && v@[i].value@ == ValueModel::Text(
                options@[i]@,
            )),
{
    if options.len() == 0 {
        return Err("at least one --option is required".to_owned());
    }
    let mut items: Vec<SelectItem> = Vec::new();
    let mut i: usize = 0;
    while i < options.len()
        invariant
            i <= options@.len(),
            items@.len() == i,
            forall|k: int| 0 <= k < i ==> (#[trigger] items@[k]).label@ == options@[k]@ && items@[k].value@
                == ValueModel::Text(options@[k]@),
        decreases options@.len() - i,
    {
        let option = options[i].clone();
        let value = Value::String(option.clone());
        items.push(SelectItem::new(option, value));
        i += 1;
    }
    Ok(items)
}

/// The key an action argument binds, when it is well formed.
pub open spec fn argument_key(action: Seq<char>) -> Option<KeyEvent> {
    match action_binding_result(action) {
        Ok((key, _)) => Some(key),
        Err(_) => None,
    }
}

/// The first problem of the first `n` action arguments: a malformed one or
/// a key bound before.
pub open spec fn action_arguments_problem(actions: Seq<String>, n: int) -> Option<Seq<char>>
    decreases n,
{
    if n <= 0 {
        None
    } else {
        match action_arguments_problem(actions, n - 1) {
            Some(message) => Some(message),
            None => match action_binding_result(actions[n - 1]@) {
                Err(e) => Some(e),
                Ok((key, _)) => if exists|j: int| 0 <= j < n - 1 && #[trigger] argument_key(actions[j]@) == Some(key) {
                    Some("duplicate action key '"@ + key_label(key) + "'"@)
                } else {
                    None
                },
            },
        }
    }
}

proof fn lemma_arguments_problem_stays(actions: Seq<String>, m: int, n: int)
    requires
        m <= n,
        action_arguments_problem(actions, m) is Some,
    ensures
        action_arguments_problem(actions, n) == action_arguments_problem(actions, m),
    decreases n - m,
{
    if m < n {
        lemma_arguments_problem_stays(actions, m, n - 1);
    }
}

/// Name an action key for a message.
pub fn action_key_label(key: &KeyEvent) -> (label: String)
    ensures
        label@ == key_label(*key),
{
    format_action_key_event(key)
}

/// Read `key:name` action arguments; the first problem is the error.
#[verifier::loop_isolation(false)]
pub fn action_bindings(actions: Vec<String>) -> (bindings: Result<Vec<ActionBinding>, String>)
    ensures
        match action_arguments_problem(actions@, actions@.len() as int) {
            Some(message) => bindings matches Err(m) && m@ == message,
            None => bindings matches Ok(v) && v@.len() == actions@.len() && forall|i: int|
                0 <= i < actions@.len() ==> action_binding_result(actions@[i]@) == Ok::<(KeyEvent, Seq<char>), Seq<char>>(
                    ((#[trigger] v@[i]).bound_key(), v@[i].action_name()),
                ) && v@[i].help_text() == v@[i].action_name(),
        },
{
    let ghost all = actions@;
    let mut seen: Vec<KeyEvent> = Vec::new();
    let mut bindings: Vec<ActionBinding> = Vec::new();
    let mut i: usize = 0;
    while i < actions.len()
        invariant
            i <= all.len(),
            all == actions@,
            action_arguments_problem(all, i as int) is None,
            seen@.len() == i,
            bindings@.len() == i,
            forall|k: int| 0 <= k < i ==> argument_key(#[trigger] all[k]@) == Some(seen@[k]),
            forall|k: int| 0 <= k < i ==> action_binding_result(all[k]@) == Ok::<(KeyEvent, Seq<char>), Seq<char>>(
                ((#[trigger] bindings@[k]).bound_key(), bindings@[k].action_name()),
            ) && bindings@[k].help_text() == bindings@[k].action_name(),
        decreases all.len() - i,
    {
        let binding = match parse_action_binding(actions[i].as_str()) {
            Ok(binding) => binding,
            Err(message) => {
                proof {
                    lemma_arguments_problem_stays(all, i + 1, all.len() as int);
                }
                return Err(message);
            },
        };
        let key = *binding.key_event();
        let mut j: usize = 0;
        while j < seen.len()
            invariant
                j <= seen@.len(),
                seen@.len() == i,
                forall|m: int| 0 <= m < j ==> seen@[m] != key,
            decreases seen@.len() - j,
        {
            if seen[j] == key {
                let mut message = String::new();
                push_str(&mut message, "duplicate action key '");
                let label = action_key_label(&key);
                push_str(&mut message, label.as_str());
                push_str(&mut message, "'");
                proof {
                    assert(argument_key(all[j as int]@) == Some(key));
                    assert(message@ =~= "duplicate action key '"@ + key_label(key) + "'"@);
                    lemma_arguments_problem_stays(all, i + 1, all.len() as int);
                }
                return Err(message);
            }
            j += 1;
        }
        proof {
            assert forall|m: int| 0 <= m < i implies #[trigger] argument_key(all[m]@) != Some(key) by {
                assert(argument_key(all[m]@) == Some(seen@[m]));
            }
        }
        seen.push(key);
        bindings.push(binding);
        i += 1;
    }
    Ok(bindings)
}

/// The key a review action argument binds, when it is well formed.
pub open spec fn review_argument_key(action: Seq<char>) -> Option<char> {
    match review_binding_result(action) {
        Ok((key, _)) => Some(key),
        Err(_) => None,
    }
}

/// The first problem of the first `n` review action arguments: a malformed
/// one or a key bound before.
pub open spec fn review_arguments_problem(actions: Seq<String>, n: int) -> Option<Seq<char>>
    decreases n,
{
    if n <= 0 {
        None
    } else {
        match review_arguments_problem(actions, n - 1) {
            Some(message) => Some(message),
            None => match review_binding_result(actions[n - 1]@) {
                Err(e) => Some(e),
                Ok((key, _)) => if exists|j: int| 0 <= j < n - 1 && #[trigger] review_argument_key(actions[j]@) == Some(key) {
                    Some("duplicate review action key '"@ + seq![key] + "'"@)
                } else {
                    None
                },
            },
        }
    }
}

proof fn lemma_review_arguments_problem_stays(actions: Seq<String>, m: int, n: int)
    requires
        m <= n,
        review_arguments_problem(actions, m) is Some,
    ensures
        review_arguments_problem(actions, n) == review_arguments_problem(actions, m),
    decreases n - m,
{
    if m < n {
        lemma_review_arguments_problem_stays(actions, m, n - 1);
    }
}

/// Read `key:name` review action arguments; the first problem is the error.
#[verifier::loop_isolation(false)]
pub fn review_action_bindings(actions: Vec<String>) -> (bindings: Result<Vec<ReviewActionBinding>, String>)
    ensures
        match review_arguments_problem(actions@, actions@.len() as int) {
            Some(message) => bindings matches Err(m) && m@ == message,
            None => bindings matches Ok(v) && v@.len() == actions@.len() && forall|i: int|
                0 <= i < actions@.len() ==> review_binding_result(actions@[i]@) == Ok::<(char, Seq<char>), Seq<char>>(
                    ((#[trigger] v@[i]).bound_key(), v@[i].action_name()),
                ) && v@[i].help_text() == v@[i].action_name(),
        },
{
    let ghost all = actions@;
    let mut seen: Vec<char> = Vec::new();
    let mut bindings: Vec<ReviewActionBinding> = Vec::new();
    let mut i: usize = 0;
    while i < actions.len()
        invariant
            i <= all.len(),
            all == actions@,
            review_arguments_problem(all, i as int) is None,
            seen@.len() == i,
            bindings@.len() == i,
            forall|k: int| 0 <= k < i ==> review_argument_key(#[trigger] all[k]@) == Some(seen@[k]),
            forall|k: int| 0 <= k < i ==> review_binding_result(all[k]@) == Ok::<(char, Seq<char>), Seq<char>>(
                ((#[trigger] bindings@[k]).bound_key(), bindings@[k].action_name()),
            ) && bindings@[k].help_text() == bindings@[k].action_name(),
        decreases all.len() - i,
    {
        let binding = match parse_review_action_binding(actions[i].as_str()) {
            Ok(binding) => binding,
            Err(message) => {
                proof {
                    lemma_review_arguments_problem_stays(all, i + 1, all.len() as int);
                }
                return Err(message);
            },
        };
        let key = binding.key();
        let mut j: usize = 0;
        while j < seen.len()
            invariant
                j <= seen@.len(),
                seen@.len() == i,
                forall|m: int| 0 <= m < j ==> seen@[m] != key,
            decreases seen@.len() - j,
        {
            if seen[j] == key {
                let mut message = String::new();
                push_str(&mut message, "duplicate review action key '");
                push_char(&mut message, key);
                push_str(&mut message, "'");
                proof {
                    assert(review_argument_key(all[j as int]@) == Some(key));
                    assert(message@ =~= "duplicate review action key '"@ + seq![key] + "'"@);
                    lemma_review_arguments_problem_stays(all, i + 1, all.len() as int);
                }
                return Err(message);
            }
            j += 1;
        }
        proof {
            assert forall|m: int| 0 <= m < i implies #[trigger] review_argument_key(all[m]@) != Some(key) by {
                assert(review_argument_key(all[m]@) == Some(seen@[m]));
            }
        }
        seen.push(key);
        bindings.push(binding);
        i += 1;
    }
    Ok(bindings)
}

// ---------------------------------------------------------------------------
// Widgets from configurations.

/// The first selected index, if any.
fn first_index(indices: &Vec<usize>) -> (first: Option<usize>)
    ensures
        indices@.len() == 0 ==> first is None,
        indices@.len() > 0 ==> first == Some(indices@[0]),
{
    if indices.len() == 0 {
        None
    } else {
        Some(indices[0])
    }
}

/// Where a list starts: on the first selected index, the last row past the
/// end, the first row when none is selected.
pub open spec fn start_index(count: int, selected: Seq<usize>) -> nat {
    if count <= 0 || selected.len() == 0 {
        0
    } else if selected[0] < count {
        selected[0] as nat
    } else {
        (count - 1) as nat
    }
}

/// The rows per page a configuration asks for, by default the usual page.
pub open spec fn configured_rows(page_size: Option<usize>) -> nat {
    match page_size {
        Some(n) => page_rows(n),
        None => page_rows(DEFAULT_PAGE_SIZE),
    }
}

/// Whether a configured list wraps: as asked, by default yes.
pub open spec fn configured_wrap(wrap: Option<bool>) -> bool {
    match wrap {
        Some(w) => w,
        None => true,
    }
}

/// A header showing the prompt, or none without one.
pub open spec fn header_shows(header: Seq<Span>, prompt: Option<String>) -> bool {
    match prompt {
        Some(p) => header.len() == 1 && header[0].text@ == p@,
        None => header.len() == 0,
    }
}

/// A single-choice list as configured: named `id`, over `options`, on the
/// row `selected` asks for, with the page, wrapping and prompt asked for.
pub open spec fn select_configured(
    w: Select,
    id: Seq<char>,
    options: Seq<SelectItem>,
    selected: Seq<usize>,
    page_size: Option<usize>,
    wrap: Option<bool>,
    prompt: Option<String>,
) -> bool {
    &&& w.identity() == id
    &&& w.choices() == options
    &&& w.selection() == start_index(options.len() as int, selected)
    &&& w.rows_per_page() == configured_rows(page_size)
    &&& w.wraps() == configured_wrap(wrap)
    &&& header_shows(w.header_spans(), prompt)
}

/// A multiple-choice list as configured: as a single-choice list, with the
/// rows `selected` names checked.
pub open spec fn multi_select_configured(
    w: MultiSelect,
    id: Seq<char>,
    options: Seq<SelectItem>,
    selected: Seq<usize>,
    page_size: Option<usize>,
    wrap: Option<bool>,
    prompt: Option<String>,
) -> bool {
    &&& w.identity_text() == id
    &&& w.choices() == options
    &&& w.marks() == Seq::new(options.len(), |i: int| names_index(selected, i))
    &&& w.selection() == start_index(options.len() as int, selected)
    &&& w.list().rows_per_page() == configured_rows(page_size)
    &&& w.list().wraps() == configured_wrap(wrap)
    &&& header_shows(w.list().header_spans(), prompt)
}

/// A filtered list as configured: every option matching the empty query,
/// on the match `selected` asks for, with the page, wrapping, prompt and
/// placeholder asked for.
pub open spec fn search_configured(
    w: SearchSelect,
    id: Seq<char>,
    options: Seq<SelectItem>,
    selected: Seq<usize>,
    page_size: Option<usize>,
    wrap: Option<bool>,
    prompt: Option<String>,
    placeholder: Option<String>,
) -> bool {
    &&& w.identity() == id
    &&& w.choices() == options
    &&& w.matched() == Seq::new(options.len(), |i: int| i as usize)
    &&& w.selection() == start_index(options.len() as int, selected)
    &&& w.rows_per_page() == configured_rows(page_size)
    &&& w.wraps() == configured_wrap(wrap)
    &&& w.query_text().len() == 0
    &&& w.query_input().prompt_spans().len() == 1
    &&& w.query_input().prompt_spans()[0].text@ == match prompt {
        Some(p) => p@,
        None => "search: "@,
    }
    &&& w.query_input().placeholder_text() == match placeholder {
        Some(p) => Some(p@),
        None => None::<Seq<char>>,
    }
}

/// A review list as configured: its rows in the states given, with the
/// page, wrapping, removed rows, reporting, application actions and prompt
/// asked for.
pub open spec fn review_configured(
    w: ReviewList,
    id: Seq<char>,
    options: Seq<SelectItem>,
    page_size: Option<usize>,
    wrap: Option<bool>,
    states: Seq<ReviewState>,
    show_removed: Option<bool>,
    exits: bool,
    actions: Seq<ReviewActionBinding>,
    prompt: Option<String>,
) -> bool {
    &&& w.identity() == id
    &&& w.choices() == options
    &&& w.row_states() == start_states_of(options.len() as int, states)
    &&& w.start_states() == w.row_states()
    &&& w.rows_per_page() == configured_rows(page_size)
    &&& w.wraps() == configured_wrap(wrap)
    &&& w.shows_removed() == match show_removed {
        Some(shown) => shown,
        None => true,
    }
    &&& w.output_policy() == if exits || actions.len() > 0 {
        ReviewOutput::Exits { leave: true }
    } else {
        ReviewOutput::Rows
    }
    &&& w.actions() == actions
    &&& header_shows(w.header_spans(), prompt)
}

/// A date picker as configured: on the selected date, today marked when
/// given.
pub open spec fn date_configured(w: DatePicker, id: Seq<char>, selected: Date, today: Option<Date>) -> bool {
    &&& w.identity() == id
    &&& w.selection() == clamped_date(selected)
    &&& w.today_mark() == match today {
        Some(t) => Some(clamped_date(t)),
        None => None::<Date>,
    }
}

/// The single-choice list a configuration describes: its options, the row
/// it starts on, its page, wrapping and prompt.
pub fn configured_select(
    id: String,
    options: Vec<SelectItem>,
    selected: &Vec<usize>,
    page_size: Option<usize>,
    wrap: Option<bool>,
    prompt: Option<String>,
) -> (select: Select)
    ensures
        select_configured(select, id@, options@, selected@, page_size, wrap, prompt),
{
    let first = first_index(selected);
    let mut widget = Select::new(id, options).with_page_size(
        match page_size {
            Some(n) => n,
            None => DEFAULT_PAGE_SIZE,
        },
    ).with_wrap(
        match wrap {
            Some(w) => w,
            None => true,
        },
    );
    match prompt {
        Some(prompt) => {
            widget = widget.with_prompt(prompt);
        },
        None => {},
    }
    match first {
        Some(selected) => {
            widget = widget.with_selected_index(selected);
        },
        None => {},
    }
    widget
}

/// The multiple-choice list a configuration describes: as a single-choice
/// list, with the selected indices checked.
pub fn configured_multi_select(
    id: String,
    options: Vec<SelectItem>,
    selected: Vec<usize>,
    page_size: Option<usize>,
    wrap: Option<bool>,
    prompt: Option<String>,
) -> (multi: MultiSelect)
    ensures
        multi_select_configured(multi, id@, options@, selected@, page_size, wrap, prompt),
{
    let first = first_index(&selected);
    let ghost indices = selected@;
    let mut widget = MultiSelect::new(id, options).with_page_size(
        match page_size {
            Some(n) => n,
            None => DEFAULT_PAGE_SIZE,
        },
    ).with_wrap(
        match wrap {
            Some(w) => w,
            None => true,
        },
    ).with_checked_indices(selected);
    assert(widget.marks() =~= Seq::new(options@.len(), |i: int| names_index(indices, i)));
    match prompt {
        Some(prompt) => {
            widget = widget.with_prompt(prompt);
        },
        None => {},
    }
    match first {
        Some(selected) => {
            widget = widget.with_selected_index(selected);
        },
        None => {},
    }
    widget
}

/// The filtered list a configuration describes: every option matching the
/// empty query, the match it starts on, its page, wrapping, prompt and
/// placeholder.
pub fn configured_search(
    id: String,
    options: Vec<SelectItem>,
    selected: &Vec<usize>,
    page_size: Option<usize>,
    wrap: Option<bool>,
    prompt: Option<String>,
    placeholder: Option<String>,
) -> (search: SearchSelect)
    ensures
        search_configured(search, id@, options@, selected@, page_size, wrap, prompt, placeholder),
{
    let first = first_index(selected);
    let mut widget = SearchSelect::new(id, options).with_page_size(
        match page_size {
            Some(n) => n,
            None => DEFAULT_PAGE_SIZE,
        },
    ).with_wrap(
        match wrap {
            Some(w) => w,
            None => true,
        },
    );
    match prompt {
        Some(prompt) => {
            widget = widget.with_prompt(prompt);
        },
        None => {},
    }
    match placeholder {
        Some(placeholder) => {
            widget = widget.with_placeholder(placeholder);
        },
        None => {},
    }
    match first {
        Some(selected) => {
            widget = widget.with_selected_match_index(selected);
        },
        None => {},
    }
    widget
}

/// The states review rows start in: the given ones, as far as they go,
/// else unconfirmed.
pub open spec fn start_states_of(count: int, states: Seq<ReviewState>) -> Seq<ReviewState> {
    Seq::new(count as nat, |i: int| if i < states.len() { states[i] } else { ReviewState::Unconfirmed })
}

/// The review list a configuration describes: its rows and their starting
/// states, page, wrapping, whether removed rows show, how it reports and
/// its application actions, its prompt, and the row it starts on.
pub fn configured_review(
    id: String,
    options: Vec<SelectItem>,
    page_size: Option<usize>,
    wrap: Option<bool>,
    states: Vec<ReviewState>,
    show_removed: Option<bool>,
    exits: bool,
    actions: Vec<ReviewActionBinding>,
    prompt: Option<String>,
    selected: &Vec<usize>,
) -> (review: ReviewList)
    ensures
        review_configured(review, id@, options@, page_size, wrap, states@, show_removed, exits, actions@, prompt),
{
    let ghost given = states@;
    let ghost bindings = actions@;
    let mut widget = ReviewList::new(id, options).with_page_size(
        match page_size {
            Some(n) => n,
            None => DEFAULT_PAGE_SIZE,
        },
    ).with_wrap(
        match wrap {
            Some(w) => w,
            None => true,
        },
    ).with_states(states).with_show_removed(
        match show_removed {
            Some(shown) => shown,
            None => true,
        },
    ).with_action_output(exits).with_custom_actions(actions);
    assert(widget.row_states() =~= start_states_of(widget.choices().len() as int, given));
    assert(widget.start_states() =~= widget.row_states());
    match prompt {
        Some(prompt) => {
            widget = widget.with_prompt(prompt);
        },
        None => {},
    }
    match first_index(selected) {
        Some(index) => {
            widget = widget.with_selected_index(index);
        },
        None => {},
    }
    widget
}

/// The date picker a configuration describes: on the selected date, with
/// today marked when given.
pub fn configured_date(id: String, selected: Date, today: Option<Date>) -> (picker: DatePicker)
    ensures
        date_configured(picker, id@, selected, today),
{
    let mut widget = DatePicker::new(id, selected);
    match today {
        Some(today) => {
            widget = widget.with_today(today);
        },
        None => {},
    }
    widget
}

/// A field that joined a form as `widget` under the action layer `layer`:
/// its identity and value are the widget's, and it answers events as the
/// layer does.
pub open spec fn joined_as<W: Widget>(form: Form, i: int, widget: W, layer: ActionLayer<W>, actions: Seq<ActionBinding>) -> bool {
    &&& layer.inner() == widget
    &&& layer.bindings() == actions
    &&& form.joined_identity(i) == widget.identity()
    &&& form.joined_value(i) == widget.held_value()
    &&& forall|e: Event, l: Seq<ListPresentation>, r: Reaction| #[trigger] form.joined_reacts(i, e, l, r) == layer.reacts(e, l, r)
}

/// The fields a form had keep what they joined as.
pub open spec fn joined_kept(before: Form, after: Form) -> bool {
    &&& before.field_count() <= after.field_count()
    &&& forall|i: int|
        0 <= i < before.field_count() ==> #[trigger] after.joined_identity(i) == before.joined_identity(i)
            && after.joined_value(i) == before.joined_value(i)
    &&& forall|i: int, e: Event, l: Seq<ListPresentation>, r: Reaction|
        0 <= i < before.field_count() ==> #[trigger] after.joined_reacts(i, e, l, r) == before.joined_reacts(i, e, l, r)
}

proof fn lemma_joined_as_kept<W: Widget>(
    before: Form,
    after: Form,
    i: int,
    widget: W,
    layer: ActionLayer<W>,
    actions: Seq<ActionBinding>,
)
    requires
        joined_kept(before, after),
        0 <= i < before.field_count(),
        joined_as(before, i, widget, layer, actions),
    ensures
        joined_as(after, i, widget, layer, actions),
{
    assert forall|e: Event, l: Seq<ListPresentation>, r: Reaction| #[trigger] after.joined_reacts(i, e, l, r) == layer.reacts(
        e,
        l,
        r,
    ) by {
        assert(after.joined_reacts(i, e, l, r) == before.joined_reacts(i, e, l, r));
    }
}

/// A field that joined keeps what it joined as while more fields join.
pub proof fn lemma_field_joins_kept(field: FieldConfig, before: Form, after: Form, i: int)
    requires
        joined_kept(before, after),
        0 <= i < before.field_count(),
        field_joins(field, before, i),
    ensures
        field_joins(field, after, i),
{
    match field.kind {
        WidgetKind::Select => {
            let (w, layer) = choose|w: Select, layer: ActionLayer<Select>|
                select_configured(
                    w,
                    field.name@,
                    field.options@,
                    field.selected_indices@,
                    field.page_size,
                    field.wrap,
                    field.prompt,
                ) && #[trigger] joined_as(before, i, w, layer, field.actions@);
            lemma_joined_as_kept(before, after, i, w, layer, field.actions@);
        },
        WidgetKind::MultiSelect => {
            let (w, layer) = choose|w: MultiSelect, layer: ActionLayer<MultiSelect>|
                multi_select_configured(
                    w,
                    field.name@,
                    field.options@,
                    field.selected_indices@,
                    field.page_size,
                    field.wrap,
                    field.prompt,
                ) && #[trigger] joined_as(before, i, w, layer, field.actions@);
            lemma_joined_as_kept(before, after, i, w, layer, field.actions@);
        },
        WidgetKind::Text => {
            let (w, layer) = choose|w: TextInput, layer: ActionLayer<TextInput>|
                text_field_configured(w, field) && #[trigger] joined_as(before, i, w, layer, field.actions@);
            lemma_joined_as_kept(before, after, i, w, layer, field.actions@);
        },
        WidgetKind::Search => {
            let (w, layer) = choose|w: SearchSelect, layer: ActionLayer<SearchSelect>|
                search_configured(
                    w,
                    field.name@,
                    field.options@,
                    field.selected_indices@,
                    field.page_size,
                    field.wrap,
                    field.prompt,
                    field.placeholder,
                ) && #[trigger] joined_as(before, i, w, layer, field.actions@);
            lemma_joined_as_kept(before, after, i, w, layer, field.actions@);
        },
        WidgetKind::Date => {
            let (w, layer) = choose|w: DatePicker, layer: ActionLayer<DatePicker>|
                (field.selected_date matches Some(d) && date_configured(w, field.name@, d, field.today))
                    && #[trigger] joined_as(before, i, w, layer, field.actions@);
            lemma_joined_as_kept(before, after, i, w, layer, field.actions@);
        },
        WidgetKind::ReviewList => {
            let (w, layer) = choose|w: ReviewList, layer: ActionLayer<ReviewList>|
                review_configured(
                    w,
                    field.name@,
                    field.options@,
                    field.page_size,
                    field.wrap,
                    field.review_states@,
                    field.show_removed,
                    match field.action_output {
                        Some(output) => output,
                        None => false,
                    },
                    field.review_actions@,
                    field.prompt,
                ) && #[trigger] joined_as(before, i, w, layer, Seq::<ActionBinding>::empty());
            lemma_joined_as_kept(before, after, i, w, layer, Seq::<ActionBinding>::empty());
        },
        WidgetKind::Form => {},
    }
}

/// Add a field under its action bindings; a field without bindings answers
/// every event as its widget does.
#[verifier::spinoff_prover]
#[verifier::rlimit(40)]
pub fn push_action_field<W: Widget + 'static>(form: &mut Form, name: String, widget: W, actions: Vec<ActionBinding>)
    ensures
        final(form).field_count() == old(form).field_count() + 1,
        final(form).field_name(old(form).field_count() as int) == name@,
        forall|i: int| 0 <= i < old(form).field_count() ==> #[trigger] final(form).field_name(i) == old(form).field_name(i),
        final(form).identity_text() == old(form).identity_text(),
        exists|layer: ActionLayer<W>| #[trigger] joined_as(*final(form), old(form).field_count() as int, widget, layer, actions@),
        joined_kept(*old(form), *final(form)),
{
    let ghost bindings = actions@;
    let ghost inner = widget;
    let layer = ActionLayer::new(widget).with_actions(actions);
    let ghost wrapped = layer;
    form.push_field(name, layer);
    assert(joined_as(*form, old(form).field_count() as int, inner, wrapped, bindings));
}

/// A text field as configured: named after the field, prompting with the
/// prompt given or the field's name and `: `, with the placeholder and the
/// starting text given.
pub open spec fn text_field_configured(w: TextInput, field: FieldConfig) -> bool {
    &&& w.identity() == field.name@
    &&& w.prompt_spans().len() == 1
    &&& w.prompt_spans()[0].text@ == match field.prompt {
        Some(p) => p@,
        None => field.name@ + ": "@,
    }
    &&& w.placeholder_text() == match field.placeholder {
        Some(p) => Some(p@),
        None => None::<Seq<char>>,
    }
    &&& w.text() == match field.value {
        Some(v) => v@,
        None => Seq::empty(),
    }
    &&& w.error_text() is None
    &&& !w.validated()
}

/// What field `i` of a form is when it joined from a configured field: the
/// widget the field's kind and options describe, named after the field,
/// under the field's action bindings.
pub open spec fn field_joins(field: FieldConfig, form: Form, i: int) -> bool {
    match field.kind {
        WidgetKind::Select => exists|w: Select, layer: ActionLayer<Select>|
            select_configured(
                w,
                field.name@,
                field.options@,
                field.selected_indices@,
                field.page_size,
                field.wrap,
                field.prompt,
            ) && #[trigger] joined_as(form, i, w, layer, field.actions@),
        WidgetKind::MultiSelect => exists|w: MultiSelect, layer: ActionLayer<MultiSelect>|
            multi_select_configured(
                w,
                field.name@,
                field.options@,
                field.selected_indices@,
                field.page_size,
                field.wrap,
                field.prompt,
            ) && #[trigger] joined_as(form, i, w, layer, field.actions@),
        WidgetKind::Text => exists|w: TextInput, layer: ActionLayer<TextInput>|
            text_field_configured(w, field) && #[trigger] joined_as(form, i, w, layer, field.actions@),
        WidgetKind::Search => exists|w: SearchSelect, layer: ActionLayer<SearchSelect>|
            search_configured(
                w,
                field.name@,
                field.options@,
                field.selected_indices@,
                field.page_size,
                field.wrap,
                field.prompt,
                field.placeholder,
            ) && #[trigger] joined_as(form, i, w, layer, field.actions@),
        WidgetKind::Date => exists|w: DatePicker, layer: ActionLayer<DatePicker>|
            (field.selected_date matches Some(d) && date_configured(w, field.name@, d, field.today))
                && #[trigger] joined_as(form, i, w, layer, field.actions@),
        WidgetKind::ReviewList => exists|w: ReviewList, layer: ActionLayer<ReviewList>|
            review_configured(
                w,
                field.name@,
                field.options@,
                field.page_size,
                field.wrap,
                field.review_states@,
                field.show_removed,
                match field.action_output {
                    Some(output) => output,
                    None => false,
                },
                field.review_actions@,
                field.prompt,
            ) && #[trigger] joined_as(form, i, w, layer, Seq::<ActionBinding>::empty()),
        WidgetKind::Form => false,
    }
}

/// Why a configured field cannot join a form: a nested form, or a date
/// field without a date.
pub open spec fn form_field_problem(field: FieldConfig) -> Option<Seq<char>> {
    match field.kind {
        WidgetKind::Form => Some("nested form fields are not supported yet"@),
        WidgetKind::Date => if field.selected_date is None {
            Some("field '"@ + field.name@ + "' requires selected_date"@)
        } else {
            None
        },
        _ => None,
    }
}

/// The value a select over `options` starts with: the option of the first
/// selected index, the last option past the end, the first option when none
/// is selected; nothing without options.
pub open spec fn select_start_value(options: Seq<SelectItem>, selected: Seq<usize>) -> Option<ValueModel> {
    if options.len() == 0 {
        None
    } else {
        let i = if selected.len() == 0 {
            0
        } else if selected[0] < options.len() {
            selected[0] as int
        } else {
            options.len() - 1
        };
        Some(options[i].value@)
    }
}

/// Add the widget a configured field describes to a form, under the
/// field's name and its action bindings.
pub fn push_form_field(form: &mut Form, field: FieldConfig) -> (pushed: Result<(), String>)
    ensures
        match form_field_problem(field) {
            Some(message) => pushed matches Err(m) && m@ == message && final(form).field_count() == old(form).field_count(),
            None => pushed is Ok && final(form).field_count() == old(form).field_count() + 1 && final(form).field_name(
                old(form).field_count() as int,
            ) == field.name@ && field_joins(field, *final(form), old(form).field_count() as int),
        },
        forall|i: int| 0 <= i < old(form).field_count() ==> #[trigger] final(form).field_name(i) == old(form).field_name(i),
        final(form).identity_text() == old(form).identity_text(),
        joined_kept(*old(form), *final(form)),
{
    let ghost given = field;
    let ghost at = form.field_count() as int;
    match field.kind {
        WidgetKind::Select => {
            let widget = configured_select(
                field.name.clone(),
                field.options,
                &field.selected_indices,
                field.page_size,
                field.wrap,
                field.prompt,
            );
            push_action_field(form, field.name, widget, field.actions);
        },
        WidgetKind::MultiSelect => {
            let widget = configured_multi_select(
                field.name.clone(),
                field.options,
                field.selected_indices,
                field.page_size,
                field.wrap,
                field.prompt,
            );
            push_action_field(form, field.name, widget, field.actions);
        },
        WidgetKind::Text => {
            let widget = text_field_widget(&field);
            push_action_field(form, field.name, widget, field.actions);
        },
        WidgetKind::Search => {
            let widget = configured_search(
                field.name.clone(),
                field.options,
                &field.selected_indices,
                field.page_size,
                field.wrap,
                field.prompt,
                field.placeholder,
            );
            push_action_field(form, field.name, widget, field.actions);
        },
        WidgetKind::Date => {
            let selected = match field.selected_date {
                Some(date) => date,
                None => {
                    let mut message = String::new();
                    push_str(&mut message, "field '");
                    push_str(&mut message, field.name.as_str());
                    push_str(&mut message, "' requires selected_date");
                    return Err(message);
                },
            };
            let widget = configured_date(field.name.clone(), selected, field.today);
            push_action_field(form, field.name, widget, field.actions);
        },
        WidgetKind::ReviewList => {
            let exits = match field.action_output {
                Some(output) => output,
                None => false,
            };
            let widget = configured_review(
                field.name.clone(),
                field.options,
                field.page_size,
                field.wrap,
                field.review_states,
                field.show_removed,
                exits,
                field.review_actions,
                field.prompt,
                &field.selected_indices,
            );
            push_action_field(form, field.name, widget, Vec::new());
        },
        WidgetKind::Form => {
            return Err("nested form fields are not supported yet".to_owned());
        },
    }
    Ok(())
}

/// The text input a configured text field describes: named after the
/// field, prompting with the prompt given or the field's name and `: `,
/// with the placeholder and the starting text given.
pub fn text_field_widget(field: &FieldConfig) -> (input: TextInput)
    ensures
        text_field_configured(input, *field),
{
    let mut widget = TextInput::new(field.name.clone());
    match &field.prompt {
        Some(prompt) => {
            widget = widget.with_prompt(prompt.clone());
        },
        None => {
            let mut prompt = String::new();
            push_str(&mut prompt, field.name.as_str());
            push_str(&mut prompt, ": ");
            widget = widget.with_prompt(prompt);
        },
    }
    match &field.placeholder {
        Some(placeholder) => {
            widget = widget.with_placeholder(placeholder.clone());
        },
        None => {},
    }
    match &field.value {
        Some(value) => {
            widget = widget.with_value(value.clone());
        },
        None => {
            assert(widget.text() =~= Seq::<char>::empty());
        },
    }
    widget
}

pub open spec fn form_fields_problems(fields: Seq<FieldConfig>) -> Seq<Option<Seq<char>>> {
    Seq::new(fields.len(), |i: int| form_field_problem(fields[i]))
}

/// The form a form configuration describes; the first field that cannot
/// join is the error.
#[verifier::loop_isolation(false)]
pub fn form_from_config(config: WidgetConfig) -> (form: Result<Form, String>)
    ensures
        match first_problem(form_fields_problems(config.fields@), config.fields@.len() as int) {
            Some(message) => form matches Err(m) && m@ == message,
            None => form matches Ok(f) && f.identity_text() == "form"@ && f.field_count() == config.fields@.len()
                && (forall|i: int| 0 <= i < config.fields@.len() ==> #[trigger] f.field_name(i) == config.fields@[i].name@)
                && (forall|i: int| 0 <= i < config.fields@.len() ==> field_joins(#[trigger] config.fields@[i], f, i)),
        },
{
    let ghost all = config.fields@;
    let ghost problems = form_fields_problems(config.fields@);
    let mut form = Form::new("form");
    let mut rest = config.fields;
    let total: usize = rest.len();
    let mut index: usize = 0;
    while rest.len() > 0
        invariant
            index <= all.len(),
            all.len() == total,
            rest@ == all.subrange(index as int, all.len() as int),
            first_problem(problems, index as int) is None,
            form.identity_text() == "form"@,
            form.field_count() == index,
            forall|i: int| 0 <= i < index ==> #[trigger] form.field_name(i) == all[i].name@,
            forall|i: int| 0 <= i < index ==> field_joins(#[trigger] all[i], form, i),
        decreases rest@.len(),
    {
        let field = rest.remove(0);
        assert(field == all[index as int]);
        let ghost before = form;
        match push_form_field(&mut form, field) {
            Ok(()) => {
                proof {
                    assert forall|i: int| 0 <= i < index + 1 implies field_joins(#[trigger] all[i], form, i) by {
                        if i < index {
                            lemma_field_joins_kept(all[i], before, form, i);
                        }
                    }
                }
            },
            Err(message) => {
                proof {
                    assert(first_problem(problems, index + 1) == Some(message@));
                    lemma_first_problem_stays(problems, index + 1, all.len() as int);
                }
                return Err(message);
            },
        }
        index += 1;
    }
    Ok(form)
}

/// Why a configuration cannot be run: a form field that cannot join, or a
/// date widget without a date.
pub open spec fn config_run_problem(config: WidgetConfig) -> Option<Seq<char>> {
    match config.kind {
        WidgetKind::Form => first_problem(form_fields_problems(config.fields@), config.fields@.len() as int),
        WidgetKind::Date => if config.selected_date is None {
            Some("date config requires selected_date"@)
        } else {
            None
        },
        _ => None,
    }
}

/// What a configuration runs: the widget it describes, under its action
/// bindings, launched on its input as [`widget_launch`] says.
pub open spec fn config_launch(config: WidgetConfig, result: Result<Outcome, String>) -> bool {
    match config.kind {
        WidgetKind::Select => exists|w: Select|
            select_configured(
                w,
                "select"@,
                config.options@,
                config.selected_indices@,
                config.page_size,
                config.wrap,
                config.prompt,
            ) && #[trigger] widget_launch(w, config.actions@, config.input_bytes, result),
        WidgetKind::MultiSelect => exists|w: MultiSelect|
            multi_select_configured(
                w,
                "multi-select"@,
                config.options@,
                config.selected_indices@,
                config.page_size,
                config.wrap,
                config.prompt,
            ) && #[trigger] widget_launch(w, config.actions@, config.input_bytes, result),
        WidgetKind::Text => exists|w: TextInput|
            w.identity() == "text"@ && w.prompt_spans().len() == 1 && w.prompt_spans()[0].text@ == match config.prompt {
                Some(p) => p@,
                None => "text: "@,
            } && w.placeholder_text() == match config.placeholder {
                Some(p) => Some(p@),
                None => None::<Seq<char>>,
            } && w.text() == match config.value {
                Some(v) => v@,
                None => Seq::<char>::empty(),
            } && #[trigger] widget_launch(w, config.actions@, config.input_bytes, result),
        WidgetKind::Search => exists|w: SearchSelect|
            search_configured(
                w,
                "search"@,
                config.options@,
                config.selected_indices@,
                config.page_size,
                config.wrap,
                config.prompt,
                config.placeholder,
            ) && #[trigger] widget_launch(w, config.actions@, config.input_bytes, result),
        WidgetKind::Form => exists|w: Form|
            w.identity_text() == "form"@ && w.field_count() == config.fields@.len() && (forall|i: int|
                0 <= i < config.fields@.len() ==> field_joins(#[trigger] config.fields@[i], w, i) && w.field_name(i)
                    == config.fields@[i].name@) && #[trigger] widget_launch(w, config.actions@, config.input_bytes, result),
        WidgetKind::Date => exists|w: DatePicker|
            (config.selected_date matches Some(d) && date_configured(w, "date"@, d, config.today))
                && #[trigger] widget_launch(w, config.actions@, config.input_bytes, result),
        WidgetKind::ReviewList => exists|w: ReviewList|
            review_configured(
                w,
                "review-list"@,
                config.options@,
                config.page_size,
                config.wrap,
                config.review_states@,
                config.show_removed,
                match config.action_output {
                    Some(output) => output,
                    None => false,
                },
                config.review_actions@,
                config.prompt,
            ) && #[trigger] widget_launch(w, Seq::<ActionBinding>::empty(), config.input_bytes, result),
    }
}

/// Build the widget a configuration describes and run it.
pub fn run_config(config: WidgetConfig) -> (result: Result<Outcome, String>)
    ensures
        match config_run_problem(config) {
            Some(message) => result matches Err(m) && m@ == message,
            None => launch_settles(config.input_bytes, result) && config_launch(config, result),
        },
{
    let ghost given = config;
    match config.kind {
        WidgetKind::Select => {
            let widget = configured_select(
                "select".to_owned(),
                config.options,
                &config.selected_indices,
                config.page_size,
                config.wrap,
                config.prompt,
            );
            let ghost w = widget;
            let result = run_widget(widget, config.input_bytes, config.actions);
            assert(widget_launch(w, given.actions@, given.input_bytes, result));
            result
        },
        WidgetKind::MultiSelect => {
            let widget = configured_multi_select(
                "multi-select".to_owned(),
                config.options,
                config.selected_indices,
                config.page_size,
                config.wrap,
                config.prompt,
            );
            let ghost w = widget;
            let result = run_widget(widget, config.input_bytes, config.actions);
            assert(widget_launch(w, given.actions@, given.input_bytes, result));
            result
        },
        WidgetKind::Text => {
            let widget = text_from_config(&config);
            let ghost w = widget;
            let result = run_widget(widget, config.input_bytes, config.actions);
            assert(widget_launch(w, given.actions@, given.input_bytes, result));
            result
        },
        WidgetKind::Search => {
            let widget = configured_search(
                "search".to_owned(),
                config.options,
                &config.selected_indices,
                config.page_size,
                config.wrap,
                config.prompt,
                config.placeholder,
            );
            let ghost w = widget;
            let result = run_widget(widget, config.input_bytes, config.actions);
            assert(widget_launch(w, given.actions@, given.input_bytes, result));
            result
        },
        WidgetKind::Form => {
            let input_bytes = config.input_bytes;
            let actions = config.actions;
            let fields_only = WidgetConfig { input_bytes: None, actions: Vec::new(), ..config };
            let ghost fields = fields_only.fields@;
            assert(fields == given.fields@);
            let widget = match form_from_config(fields_only) {
                Ok(form) => form,
                Err(message) => return Err(message),
            };
            let ghost w = widget;
            assert(first_problem(form_fields_problems(fields), fields.len() as int) is None);
            assert(w.field_count() == fields.len());
            assert forall|i: int| 0 <= i < given.fields@.len() implies field_joins(#[trigger] given.fields@[i], w, i)
                && w.field_name(i) == given.fields@[i].name@ by {
                assert(fields[i] == given.fields@[i]);
                assert(field_joins(fields[i], w, i));
            }
            let result = run_widget(widget, input_bytes, actions);
            assert(widget_launch(w, given.actions@, given.input_bytes, result));
            result
        },
        WidgetKind::Date => {
            let selected = match config.selected_date {
                Some(date) => date,
                None => return Err("date config requires selected_date".to_owned()),
            };
            let widget = configured_date("date".to_owned(), selected, config.today);
            let ghost w = widget;
            let result = run_widget(widget, config.input_bytes, config.actions);
            assert(widget_launch(w, given.actions@, given.input_bytes, result));
            result
        },
        WidgetKind::ReviewList => {
            let exits = match config.action_output {
                Some(output) => output,
                None => false,
            };
            let widget = configured_review(
                "review-list".to_owned(),
                config.options,
                config.page_size,
                config.wrap,
                config.review_states,
                config.show_removed,
                exits,
                config.review_actions,
                config.prompt,
                &config.selected_indices,
            );
            let ghost w = widget;
            let result = run_widget(widget, config.input_bytes, Vec::new());
            assert(widget_launch(w, Seq::<ActionBinding>::empty(), given.input_bytes, result));
            result
        },
    }
}

// ---------------------------------------------------------------------------
// Widgets from subcommands.

/// At least one option is needed before anything else is looked at.
pub open spec fn options_then(options: Seq<String>, rest: Option<Seq<char>>) -> Option<Seq<char>> {
    if options.len() == 0 {
        Some("at least one --option is required"@)
    } else {
        rest
    }
}

/// Why a subcommand cannot be run: no options, or a bad action argument.
pub open spec fn command_problem(command: Command) -> Option<Seq<char>> {
    match command {
        Command::Select { option, action, .. } => options_then(
            option@,
            action_arguments_problem(action@, action@.len() as int),
        ),
        Command::MultiSelect { option, action, .. } => options_then(
            option@,
            action_arguments_problem(action@, action@.len() as int),
        ),
        Command::Text { action, .. } => action_arguments_problem(action@, action@.len() as int),
        Command::Search { option, action, .. } => options_then(
            option@,
            action_arguments_problem(action@, action@.len() as int),
        ),
        Command::ReviewList { option, action, .. } => options_then(
            option@,
            review_arguments_problem(action@, action@.len() as int),
        ),
    }
}

/// The scripted input of a subcommand.
pub open spec fn command_input(command: Command) -> Option<String> {
    match command {
        Command::Select { input_bytes, .. } => input_bytes,
        Command::MultiSelect { input_bytes, .. } => input_bytes,
        Command::Text { input_bytes, .. } => input_bytes,
        Command::Search { input_bytes, .. } => input_bytes,
        Command::ReviewList { input_bytes, .. } => input_bytes,
    }
}

/// Items made of option texts: each labelled and valued by its text.
pub open spec fn items_of(items: Seq<SelectItem>, options: Seq<String>) -> bool {
    &&& items.len() == options.len()
    &&& forall|i: int|
        0 <= i < options.len() ==> (#[trigger] items[i]).label@ == options[i]@ && items[i].value@ == ValueModel::Text(
            options[i]@,
        )
}

/// The rows a page of `page_size` shows: at least one.
pub open spec fn page_rows(page_size: usize) -> nat {
    if page_size > 1 {
        page_size as nat
    } else {
        1
    }
}

/// Bindings read from `key:name` arguments, one for each, in order.
pub open spec fn bindings_of(bindings: Seq<ActionBinding>, actions: Seq<String>) -> bool {
    &&& bindings.len() == actions.len()
    &&& forall|i: int|
        0 <= i < actions.len() ==> action_binding_result(actions[i]@) == Ok::<(KeyEvent, Seq<char>), Seq<char>>(
            ((#[trigger] bindings[i]).bound_key(), bindings[i].action_name()),
        )
}

/// What a subcommand runs: the widget it describes, under the bindings its
/// actions describe, launched on its input as [`widget_launch`] says.
pub open spec fn command_launch(command: Command, result: Result<Outcome, String>) -> bool {
    match command {
        Command::Select { option, input_bytes, page_size, action } => exists|w: Select, bindings: Seq<ActionBinding>|
            #[trigger] widget_launch(w, bindings, input_bytes, result) && w.identity() == "select"@ && items_of(
                w.choices(),
                option@,
            ) && w.selection() == 0 && w.rows_per_page() == page_rows(page_size) && w.wraps() && bindings_of(
                bindings,
                action@,
            ),
        Command::MultiSelect { option, input_bytes, page_size, action } => exists|
            w: MultiSelect,
            bindings: Seq<ActionBinding>,
        |
            #[trigger] widget_launch(w, bindings, input_bytes, result) && items_of(w.choices(), option@) && w.selection()
                == 0 && w.marks() == Seq::new(option@.len(), |i: int| false) && w.list().rows_per_page() == page_rows(
                page_size,
            ) && w.list().wraps() && bindings_of(bindings, action@),
        Command::Text { input_bytes, value, prompt, action } => exists|w: TextInput, bindings: Seq<ActionBinding>|
            #[trigger] widget_launch(w, bindings, input_bytes, result) && w.identity() == "text"@ && w.text() == value@
                && w.cursor_index() == value@.len() && w.error_text() is None && !w.validated() && w.prompt_spans().len()
                == 1 && w.prompt_spans()[0].text@ == prompt@ && bindings_of(bindings, action@),
        Command::Search { option, input_bytes, page_size, action } => exists|
            w: SearchSelect,
            bindings: Seq<ActionBinding>,
        |
            #[trigger] widget_launch(w, bindings, input_bytes, result) && w.identity() == "search"@ && items_of(
                w.choices(),
                option@,
            ) && w.matched() == Seq::new(option@.len(), |i: int| i as usize) && w.selection() == 0 && w.rows_per_page()
                == page_rows(page_size) && w.wraps() && w.query_text().len() == 0 && bindings_of(bindings, action@),
        Command::ReviewList { option, input_bytes, page_size, hide_removed, action_output, action } => exists|
            w: ReviewList,
        |
            #[trigger] widget_launch(w, Seq::empty(), input_bytes, result) && items_of(w.choices(), option@)
                && w.row_states() == Seq::new(option@.len(), |i: int| ReviewState::Unconfirmed) && w.start_states()
                == w.row_states() && w.rows_per_page() == page_rows(page_size) && w.shows_removed() == !hide_removed
                && w.output_policy() == (if action_output || action@.len() > 0 {
                ReviewOutput::Exits { leave: true }
            } else {
                ReviewOutput::Rows
            }) && w.actions().len() == action@.len() && forall|i: int|
                0 <= i < action@.len() ==> review_binding_result(action@[i]@) == Ok::<(char, Seq<char>), Seq<char>>(
                    ((#[trigger] w.actions()[i]).bound_key(), w.actions()[i].action_name()),
                ),
    }
}

/// Build the widget a subcommand asks for and run it.
pub fn run_command(command: Command) -> (result: Result<Outcome, String>)
    ensures
        match command_problem(command) {
            Some(message) => result matches Err(m) && m@ == message,
            None => launch_settles(command_input(command), result) && command_launch(command, result),
        },
{
    match command {
        Command::Select { option, input_bytes, page_size, action } => {
            let ghost input = input_bytes;
            let ghost opts = option@;
            let ghost acts = action@;
            let items = choice_items(option)?;
            assert(items_of(items@, opts));
            let widget = Select::new("select", items).with_page_size(page_size);
            let bindings = action_bindings(action)?;
            let ghost (w, bs) = (widget, bindings@);
            assert(bindings_of(bs, acts));
            assert(w.identity() == "select"@);
            assert(items_of(w.choices(), opts));
            assert(w.selection() == 0 && w.rows_per_page() == page_rows(page_size) && w.wraps());
            let result = run_widget(widget, input_bytes, bindings);
            assert(widget_launch(w, bs, input, result));
            result
        },
        Command::MultiSelect { option, input_bytes, page_size, action } => {
            let ghost input = input_bytes;
            let ghost opts = option@;
            let ghost acts = action@;
            let items = choice_items(option)?;
            assert(items_of(items@, opts));
            let widget = MultiSelect::new("multi-select", items).with_page_size(page_size);
            let bindings = action_bindings(action)?;
            let ghost (w, bs) = (widget, bindings@);
            assert(bindings_of(bs, acts));
            assert(items_of(w.choices(), opts));
            assert(w.selection() == 0 && w.list().rows_per_page() == page_rows(page_size) && w.list().wraps());
            assert(w.marks() == Seq::new(opts.len(), |i: int| false));
            let result = run_widget(widget, input_bytes, bindings);
            assert(widget_launch(w, bs, input, result));
            result
        },
        Command::Text { input_bytes, value, prompt, action } => {
            let ghost input = input_bytes;
            let ghost acts = action@;
            let widget = TextInput::new("text").with_prompt(prompt).with_value(value);
            let bindings = action_bindings(action)?;
            let ghost (w, bs) = (widget, bindings@);
            assert(bindings_of(bs, acts));
            assert(w.identity() == "text"@);
            assert(w.cursor_index() == w.text().len() && w.error_text() is None && !w.validated());
            assert(w.prompt_spans().len() == 1);
            let result = run_widget(widget, input_bytes, bindings);
            assert(widget_launch(w, bs, input, result));
            result
        },
        Command::Search { option, input_bytes, page_size, action } => {
            let ghost input = input_bytes;
            let ghost opts = option@;
            let ghost acts = action@;
            let items = choice_items(option)?;
            assert(items_of(items@, opts));
            let widget = SearchSelect::new("search", items).with_page_size(page_size);
            let bindings = action_bindings(action)?;
            let ghost (w, bs) = (widget, bindings@);
            assert(bindings_of(bs, acts));
            assert(w.identity() == "search"@);
            assert(items_of(w.choices(), opts));
            assert(w.matched() == Seq::new(opts.len(), |i: int| i as usize));
            assert(w.selection() == 0 && w.rows_per_page() == page_rows(page_size) && w.wraps() && w.query_text().len() == 0);
            let result = run_widget(widget, input_bytes, bindings);
            assert(widget_launch(w, bs, input, result));
            result
        },
        Command::ReviewList { option, input_bytes, page_size, hide_removed, action_output, action } => {
            let ghost input = input_bytes;
            let ghost opts = option@;
            let ghost acts = action@;
            let items = choice_items(option)?;
            assert(items_of(items@, opts));
            let exits = action_output || action.len() > 0;
            let custom = review_action_bindings(action)?;
            let widget = ReviewList::new("review-list", items).with_page_size(page_size).with_show_removed(
                !hide_removed,
            ).with_action_output(exits).with_custom_actions(custom);
            let ghost w = widget;
            assert(items_of(w.choices(), opts));
            assert(w.row_states() == Seq::new(opts.len(), |i: int| ReviewState::Unconfirmed));
            assert(w.start_states() == w.row_states());
            assert(w.rows_per_page() == page_rows(page_size) && w.shows_removed() == !hide_removed);
            assert(w.actions().len() == acts.len());
            let result = run_widget(widget, input_bytes, Vec::new());
            assert(widget_launch(w, Seq::<ActionBinding>::empty(), input, result));
            result
        },
    }
}

// ---------------------------------------------------------------------------
// The command line.

/// A finished widget's value printed in the output format, or the widget to
/// run live.
pub fn render_outcome(outcome: Outcome, output: OutputFormat) -> (step: Step)
    ensures
        match outcome {
            Outcome::Value(v) => step matches Step::Output(text) && text@ == output_of(v@, core_format(output)),
            Outcome::Live(_) => step matches Step::Live { output: o, .. } && o == output,
        },
{
    match outcome {
        Outcome::Value(value) => {
            Step::Output(format_output(&value, CoreOutputFormat::from(output)))
        },
        Outcome::Live(widget) => Step::Live { widget, output },
    }
}

/// What running a widget comes to, printed in `output`.
pub open spec fn step_settles(input_bytes: Option<String>, output: OutputFormat, result: Result<Step, String>) -> bool {
    match input_bytes {
        None => result matches Ok(Step::Live { output: o, .. }) && o == output,
        Some(input) => match unescape(input@) {
            Err(e) => result matches Err(m) && m@ == e,
            Ok(_) => (result matches Ok(Step::Output(text)) && exists|v: ValueModel| #[trigger] output_of(
                v,
                core_format(output),
            ) == text@) || (result matches Err(m) && (m@ == "cancelled"@ || m@ == "input ended before submit"@)),
        },
    }
}

/// What a subcommand comes to, printed in `output`: the output of the value
/// that running its widget submitted, the widget to run live, or the error
/// that running it gave.
pub open spec fn command_step(command: Command, output: OutputFormat, result: Result<Step, String>) -> bool {
    match result {
        Ok(Step::Output(text)) => exists|v: Value|
            #[trigger] command_launch(command, Ok(Outcome::Value(v))) && text@ == output_of(v@, core_format(output)),
        Ok(Step::Live { output: o, .. }) => o == output && command_input(command) is None,
        Ok(Step::LoadConfig { .. }) => false,
        Err(m) => command_launch(command, Err(m)),
    }
}

/// Run a command line: exactly one of a configuration file, which is to be
/// loaded first, or a subcommand, whose widget is built and run.
pub fn run(cli: Cli) -> (result: Result<Step, String>)
    ensures
        match (cli.config, cli.command) {
            (Some(_), Some(_)) => result matches Err(m) && m@ == "use either --config or a widget subcommand, not both"@,
            (None, None) => result matches Err(m) && m@ == "expected --config or a widget subcommand"@,
            (Some(path), None) => result matches Ok(Step::LoadConfig { path: p, output: o }) && p == path && o
                == cli.output,
            (None, Some(command)) => match command_problem(command) {
                Some(message) => result matches Err(m) && m@ == message,
                None => step_settles(command_input(command), cli.output, result) && command_step(
                    command,
                    cli.output,
                    result,
                ),
            },
        },
{
    let output = cli.output;
    match (cli.config, cli.command) {
        (Some(_), Some(_)) => Err("use either --config or a widget subcommand, not both".to_owned()),
        (Some(path), None) => Ok(Step::LoadConfig { path, output }),
        (None, None) => Err("expected --config or a widget subcommand".to_owned()),
        (None, Some(command)) => {
            let ghost given = command;
            let outcome = match run_command(command) {
                Ok(outcome) => outcome,
                Err(message) => return Err(message),
            };
            let ghost launched = outcome;
            let step = render_outcome(outcome, output);
            proof {
                match launched {
                    Outcome::Value(v) => {
                        assert(command_launch(given, Ok(Outcome::Value(v))));
                    },
                    Outcome::Live(w) => {},
                }
            }
            Ok(step)
        },
    }
}

/// Run a loaded configuration and print its value in `output`.
pub fn run_loaded_config(config: WidgetConfig, output: OutputFormat) -> (result: Result<Step, String>)
    ensures
        match config_run_problem(config) {
            Some(message) => result matches Err(m) && m@ == message,
            None => step_settles(config.input_bytes, output, result) && config_step(config, output, result),
        },
{
    let ghost given = config;
    let outcome = match run_config(config) {
        Ok(outcome) => outcome,
        Err(message) => return Err(message),
    };
    let ghost launched = outcome;
    let step = render_outcome(outcome, output);
    proof {
        match launched {
            Outcome::Value(v) => {
                assert(config_launch(given, Ok(Outcome::Value(v))));
            },
            Outcome::Live(_) => {},
        }
    }
    Ok(step)
}

/// What a configuration comes to, printed in `output`: the output of the
/// value that running its widget submitted, the widget to run live, or the
/// error that running it gave.
pub open spec fn config_step(config: WidgetConfig, output: OutputFormat, result: Result<Step, String>) -> bool {
    match result {
        Ok(Step::Output(text)) => exists|v: Value|
            #[trigger] config_launch(config, Ok(Outcome::Value(v))) && text@ == output_of(v@, core_format(output)),
        Ok(Step::Live { output: o, .. }) => o == output && config.input_bytes is None,
        Ok(Step::LoadConfig { .. }) => false,
        Err(m) => config_launch(config, Err(m)),
    }
}

} // verus!
