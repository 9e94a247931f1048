//! The command-line grammar: global options, a subcommand naming the
//! widget, and the subcommand's options, read left to right.
//!
//! Options are written `--name value`, `--name=value` or, for the short
//! forms, `-c value`. `--config`/`-c` stands before the subcommand;
//! `--output` is accepted anywhere, and `-o` means `--output` except after a
//! subcommand that takes options, where it means `--option`.

use vstd::prelude::*;
use vstd::view::View as _;

use crate::cli::command::{run, Cli, Command, OutputFormat, Step};
use crate::text::{
    chars_are, chars_of, find_chars, first_occurrence, first_occurrence_from, parse_natural, parse_natural_text, push_str, string_of_range,
    strings_view,
};
use crate::bang_core::select::DEFAULT_PAGE_SIZE;

verus! {

/// The widget a subcommand names.
#[derive(Clone, Copy, Debug, PartialEq, Eq, Structural)]
pub enum Sub {
    Select,
    MultiSelect,
    Text,
    Search,
    ReviewList,
}

pub open spec fn sub_named(name: Seq<char>) -> Option<Sub> {
    if name == "select"@ {
        Some(Sub::Select)
    } else if name == "multi-select"@ {
        Some(Sub::MultiSelect)
    } else if name == "text"@ {
        Some(Sub::Text)
    } else if name == "search"@ {
        Some(Sub::Search)
    } else if name == "review-list"@ {
        Some(Sub::ReviewList)
    } else {
        None
    }
}

/// An option of the grammar.
#[derive(Clone, Copy, Debug, PartialEq, Eq, Structural)]
pub enum Opt {
    Config,
    Output,
    Choice,
    InputBytes,
    PageSize,
    Action,
    Value,
    Prompt,
    HideRemoved,
    ActionOutput,
}

/// The option a long name stands for where it is written.
pub open spec fn long_opt(name: Seq<char>, sub: Option<Sub>) -> Option<Opt> {
    if name == "output"@ {
        Some(Opt::Output)
    } else {
        match sub {
            None => if name == "config"@ {
                Some(Opt::Config)
            } else {
                None
            },
            Some(s) => if name == "option"@ && s != Sub::Text {
                Some(Opt::Choice)
            } else if name == "input-bytes"@ {
                Some(Opt::InputBytes)
            } else if name == "page-size"@ && s != Sub::Text {
                Some(Opt::PageSize)
            } else if name == "action"@ {
                Some(Opt::Action)
            } else if name == "value"@ && s == Sub::Text {
                Some(Opt::Value)
            } else if name == "prompt"@ && s == Sub::Text {
                Some(Opt::Prompt)
            } else if name == "hide-removed"@ && s == Sub::ReviewList {
                Some(Opt::HideRemoved)
            } else if name == "action-output"@ && s == Sub::ReviewList {
                Some(Opt::ActionOutput)
            } else {
                None
            },
        }
    }
}

/// The option a short name stands for where it is written.
pub open spec fn short_opt(c: char, sub: Option<Sub>) -> Option<Opt> {
    if c == 'c' && sub is None {
        Some(Opt::Config)
    } else if c == 'o' {
        match sub {
            Some(s) => if s != Sub::Text {
                Some(Opt::Choice)
            } else {
                Some(Opt::Output)
            },
            None => Some(Opt::Output),
        }
    } else {
        None
    }
}

pub open spec fn is_flag(opt: Opt) -> bool {
    opt == Opt::HideRemoved || opt == Opt::ActionOutput
}

/// The option a token writes, with the value written after `=`.
pub open spec fn token_opt(token: Seq<char>, sub: Option<Sub>) -> Option<(Opt, Option<Seq<char>>)> {
    if token.len() >= 2 && token[0] == '-' && token[1] == '-' {
        let rest = token.subrange(2, token.len() as int);
        let (name, inline) = match first_occurrence(rest, seq!['=']) {
            Some(at) => (rest.subrange(0, at), Some(rest.subrange(at + 1, rest.len() as int))),
            None => (rest, None),
        };
        match long_opt(name, sub) {
            Some(opt) => Some((opt, inline)),
            None => None,
        }
    } else if token.len() == 2 && token[0] == '-' {
        match short_opt(token[1], sub) {
            Some(opt) => Some((opt, None)),
            None => None,
        }
    } else {
        None
    }
}

/// What the arguments read so far say.
pub struct ArgsModel {
    pub config: Option<Seq<char>>,
    pub output: OutputFormat,
    pub sub: Option<Sub>,
    pub options: Seq<Seq<char>>,
    pub input_bytes: Option<Seq<char>>,
    pub page_size: nat,
    pub actions: Seq<Seq<char>>,
    pub value: Option<Seq<char>>,
    pub prompt: Option<Seq<char>>,
    pub hide_removed: bool,
    pub action_output: bool,
}

pub open spec fn initial_args() -> ArgsModel {
    ArgsModel {
        config: None,
        output: OutputFormat::Text,
        sub: None,
        options: Seq::empty(),
        input_bytes: None,
        page_size: DEFAULT_PAGE_SIZE as nat,
        actions: Seq::empty(),
        value: None,
        prompt: None,
        hide_removed: false,
        action_output: false,
    }
}

pub open spec fn unrecognised(token: Seq<char>) -> Seq<char> {
    "unrecognised argument '"@ + token + "'"@
}

/// An option given a value.
pub open spec fn apply_value(state: ArgsModel, opt: Opt, value: Seq<char>) -> Result<ArgsModel, Seq<char>> {
    match opt {
        Opt::Config => Ok(ArgsModel { config: Some(value), ..state }),
        Opt::Output => if value == "text"@ {
            Ok(ArgsModel { output: OutputFormat::Text, ..state })
        } else if value == "json"@ {
            Ok(ArgsModel { output: OutputFormat::Json, ..state })
        } else {
            Err("invalid value '"@ + value + "' for '--output': expected text or json"@)
        },
        Opt::Choice => Ok(ArgsModel { options: state.options.push(value), ..state }),
        Opt::InputBytes => Ok(ArgsModel { input_bytes: Some(value), ..state }),
        Opt::PageSize => match parse_natural(value, usize::MAX as int) {
            None => Err("invalid value '"@ + value + "' for '--page-size'"@),
            Some(n) => if n < 1 {
                Err("'--page-size' must be at least 1"@)
            } else {
                Ok(ArgsModel { page_size: n as nat, ..state })
            },
        },
        Opt::Action => Ok(ArgsModel { actions: state.actions.push(value), ..state }),
        Opt::Value => Ok(ArgsModel { value: Some(value), ..state }),
        Opt::Prompt => Ok(ArgsModel { prompt: Some(value), ..state }),
        Opt::HideRemoved => Ok(ArgsModel { hide_removed: true, ..state }),
        Opt::ActionOutput => Ok(ArgsModel { action_output: true, ..state }),
    }
}

/// Read the arguments from position `i` on.
pub open spec fn parse_from(args: Seq<Seq<char>>, i: int, state: ArgsModel) -> Result<ArgsModel, Seq<char>>
    decreases args.len() - i,
{
    if i < 0 || i >= args.len() {
        Ok(state)
    } else {
        let token = args[i];
        match token_opt(token, state.sub) {
            Some((opt, inline)) => if is_flag(opt) {
                if inline is Some {
                    Err(unrecognised(token))
                } else {
                    match apply_value(state, opt, Seq::empty()) {
                        Ok(next) => parse_from(args, i + 1, next),
                        Err(e) => Err(e),
                    }
                }
            } else {
                match inline {
                    Some(value) => match apply_value(state, opt, value) {
                        Ok(next) => parse_from(args, i + 1, next),
                        Err(e) => Err(e),
                    },
                    None => if i + 1 >= args.len() {
                        Err("missing value for '"@ + token + "'"@)
                    } else {
                        match apply_value(state, opt, args[i + 1]) {
                            Ok(next) => parse_from(args, i + 2, next),
                            Err(e) => Err(e),
                        }
                    },
                }
            },
            None => if state.sub is None && sub_named(token) is Some {
                parse_from(args, i + 1, ArgsModel { sub: sub_named(token), ..state })
            } else {
                Err(unrecognised(token))
            },
        }
    }
}

/// The arguments after the program name.
pub open spec fn parse_args(args: Seq<Seq<char>>) -> Result<ArgsModel, Seq<char>> {
    parse_from(args, 1, initial_args())
}

/// No `=` from `from` on means no `=` is found.
proof fn lemma_no_equals(hay: Seq<char>, from: int)
    requires
        0 <= from,
        forall|k: int| from <= k < hay.len() ==> hay[k] != '=',
    ensures
        first_occurrence_from(hay, seq!['='], from) is None,
    decreases hay.len() + 1 - from,
{
    if from + 1 <= hay.len() {
        assert(hay.subrange(from, from + 1)[0] == hay[from]);
        lemma_no_equals(hay, from + 1);
    }
}

/// Reading more arguments after a list that reads completely continues
/// from the state that list left.
proof fn lemma_parse_continues(args: Seq<Seq<char>>, tail: Seq<Seq<char>>, i: int, state: ArgsModel)
    requires
        0 <= i <= args.len(),
        parse_from(args, i, state) is Ok,
    ensures
        parse_from(args + tail, i, state) == parse_from(args + tail, args.len() as int, parse_from(args, i, state)->Ok_0),
    decreases args.len() - i,
{
    let all = args + tail;
    if i < args.len() {
        let token = args[i];
        assert(all[i] == token);
        if i + 1 < args.len() {
            assert(all[i + 1] == args[i + 1]);
        }
        match token_opt(token, state.sub) {
            Some((opt, inline)) => if is_flag(opt) {
                if inline is None {
                    let next = apply_value(state, opt, Seq::empty())->Ok_0;
                    lemma_parse_continues(args, tail, i + 1, next);
                }
            } else {
                match inline {
                    Some(value) => {
                        let next = apply_value(state, opt, value)->Ok_0;
                        lemma_parse_continues(args, tail, i + 1, next);
                    },
                    None => {
                        let next = apply_value(state, opt, args[i + 1])->Ok_0;
                        lemma_parse_continues(args, tail, i + 2, next);
                    },
                }
            },
            None => {
                lemma_parse_continues(args, tail, i + 1, ArgsModel { sub: sub_named(token), ..state });
            },
        }
    }
}

/// Each `--action` given after a subcommand adds its value to the actions,
/// after those given before it: writing `--action v` at the end of
/// arguments that read completely gives the same reading with `v` as the
/// last action, and nothing else changed.
pub proof fn law_actions_accumulate_in_order(args: Seq<Seq<char>>, value: Seq<char>)
    requires
        args.len() >= 1,
        parse_args(args) is Ok,
        parse_args(args)->Ok_0.sub is Some,
    ensures
        parse_args(args + seq!["--action"@, value]) == Ok::<ArgsModel, Seq<char>>(
            ArgsModel { actions: parse_args(args)->Ok_0.actions.push(value), ..parse_args(args)->Ok_0 },
        ),
{
    reveal_strlit("--action");
    reveal_strlit("action");
    reveal_strlit("output");
    reveal_strlit("config");
    reveal_strlit("option");
    reveal_strlit("input-bytes");
    reveal_strlit("page-size");
    let tail = seq!["--action"@, value];
    let state = parse_args(args)->Ok_0;
    lemma_parse_continues(args, tail, 1, initial_args());
    let all = args + tail;
    let n = args.len() as int;
    assert(all[n] == "--action"@);
    assert(all[n + 1] == value);
    let token = "--action"@;
    let rest = token.subrange(2, token.len() as int);
    assert(rest =~= "action"@);
    lemma_no_equals(rest, 0);
    assert("action"@[0] != "output"@[0]);
    assert("action"@[0] != "option"@[0]);
    assert("action"@ != "output"@);
    assert("action"@ != "option"@);
    assert("action"@ != "input-bytes"@);
    assert("action"@ != "page-size"@);
    assert(long_opt("action"@, state.sub) == Some(Opt::Action));
    assert(token_opt(token, state.sub) == Some((Opt::Action, None::<Seq<char>>)));
    let next = ArgsModel { actions: state.actions.push(value), ..state };
    assert(parse_from(all, n + 2, next) == Ok::<ArgsModel, Seq<char>>(next));
}

/// An option and its value written at the end of arguments that read
/// completely are read last, from the state the arguments left.
proof fn lemma_trailing_option(args: Seq<Seq<char>>, token: Seq<char>, value: Seq<char>, opt: Opt)
    requires
        args.len() >= 1,
        parse_args(args) is Ok,
        token_opt(token, parse_args(args)->Ok_0.sub) == Some((opt, None::<Seq<char>>)),
        !is_flag(opt),
    ensures
        parse_args(args + seq![token, value]) == match apply_value(parse_args(args)->Ok_0, opt, value) {
            Ok(next) => Ok::<ArgsModel, Seq<char>>(next),
            Err(e) => Err(e),
        },
{
    let tail = seq![token, value];
    lemma_parse_continues(args, tail, 1, initial_args());
    let all = args + tail;
    let n = args.len() as int;
    assert(all[n] == token);
    assert(all[n + 1] == value);
    match apply_value(parse_args(args)->Ok_0, opt, value) {
        Ok(next) => {
            assert(parse_from(all, n + 2, next) == Ok::<ArgsModel, Seq<char>>(next));
        },
        Err(_) => {},
    }
}

/// A long option token without `=` reads as the option its name names.
proof fn lemma_long_token(name: Seq<char>, sub: Option<Sub>)
    requires
        forall|k: int| 0 <= k < name.len() ==> name[k] != '=',
    ensures
        token_opt(seq!['-', '-'] + name, sub) == match long_opt(name, sub) {
            Some(opt) => Some((opt, None::<Seq<char>>)),
            None => None,
        },
{
    let token = seq!['-', '-'] + name;
    assert(token.subrange(2, token.len() as int) =~= name);
    lemma_no_equals(name, 0);
}

/// Choices accumulate in order: after a list subcommand, each `--option v`
/// or `-o v` adds `v` after the choices given before it, and changes
/// nothing else.
pub proof fn law_choices_accumulate_in_order(args: Seq<Seq<char>>, value: Seq<char>)
    requires
        args.len() >= 1,
        parse_args(args) is Ok,
        parse_args(args)->Ok_0.sub is Some,
        parse_args(args)->Ok_0.sub != Some(Sub::Text),
    ensures
        ({
            let before = parse_args(args)->Ok_0;
            let expected = Ok::<ArgsModel, Seq<char>>(ArgsModel { options: before.options.push(value), ..before });
            &&& parse_args(args + seq!["--option"@, value]) == expected
            &&& parse_args(args + seq!["-o"@, value]) == expected
        }),
{
    reveal_strlit("--option");
    reveal_strlit("-o");
    reveal_strlit("option");
    reveal_strlit("output");
    let sub = parse_args(args)->Ok_0.sub;
    assert("--option"@ =~= seq!['-', '-'] + "option"@);
    assert("option"@[1] != "output"@[1]);
    assert("option"@ != "output"@);
    lemma_long_token("option"@, sub);
    lemma_trailing_option(args, "--option"@, value, Opt::Choice);
    assert("-o"@.len() == 2 && "-o"@[0] == '-' && "-o"@[1] == 'o');
    lemma_trailing_option(args, "-o"@, value, Opt::Choice);
}

/// The output format: `--output json` selects JSON and `--output text`
/// text wherever it is written, changing nothing else, and any other value
/// is an error.
pub proof fn law_output_format_option(args: Seq<Seq<char>>, value: Seq<char>)
    requires
        args.len() >= 1,
        parse_args(args) is Ok,
    ensures
        ({
            let before = parse_args(args)->Ok_0;
            let read = parse_args(args + seq!["--output"@, value]);
            &&& value == "json"@ ==> read == Ok::<ArgsModel, Seq<char>>(ArgsModel { output: OutputFormat::Json, ..before })
            &&& value == "text"@ ==> read == Ok::<ArgsModel, Seq<char>>(ArgsModel { output: OutputFormat::Text, ..before })
            &&& value != "json"@ && value != "text"@ ==> read is Err
        }),
{
    reveal_strlit("--output");
    reveal_strlit("output");
    reveal_strlit("json");
    reveal_strlit("text");
    let sub = parse_args(args)->Ok_0.sub;
    assert("--output"@ =~= seq!['-', '-'] + "output"@);
    lemma_long_token("output"@, sub);
    lemma_trailing_option(args, "--output"@, value, Opt::Output);
    assert("json"@[0] != "text"@[0]);
}

proof fn lemma_trailing_subcommand(args: Seq<Seq<char>>, name: Seq<char>)
    requires
        args.len() >= 1,
        parse_args(args) is Ok,
        parse_args(args)->Ok_0.sub is None,
        name.len() > 2,
        name[0] != '-',
        sub_named(name) is Some,
    ensures
        parse_args(args + seq![name]) == Ok::<ArgsModel, Seq<char>>(
            ArgsModel { sub: sub_named(name), ..parse_args(args)->Ok_0 },
        ),
{
    lemma_parse_continues(args, seq![name], 1, initial_args());
    let all = args + seq![name];
    let n = args.len() as int;
    assert(all[n] == name);
    assert(all.len() == n + 1);
    let before = parse_args(args)->Ok_0;
    assert(token_opt(name, before.sub) is None);
    let next = ArgsModel { sub: sub_named(name), ..before };
    assert(parse_from(all, n + 1, next) == Ok::<ArgsModel, Seq<char>>(next));
    assert(parse_from(all, n, before) == parse_from(all, n + 1, next));
}

/// The subcommands: `select`, `multi-select`, `text`, `search` and
/// `review-list` name their widgets, read once, before any option of the
/// widget; reading one changes nothing else.
pub proof fn law_subcommand_names(args: Seq<Seq<char>>)
    requires
        args.len() >= 1,
        parse_args(args) is Ok,
        parse_args(args)->Ok_0.sub is None,
    ensures
        ({
            let before = parse_args(args)->Ok_0;
            let with = |sub: Sub| Ok::<ArgsModel, Seq<char>>(ArgsModel { sub: Some(sub), ..before });
            &&& parse_args(args + seq!["select"@]) == with(Sub::Select)
            &&& parse_args(args + seq!["multi-select"@]) == with(Sub::MultiSelect)
            &&& parse_args(args + seq!["text"@]) == with(Sub::Text)
            &&& parse_args(args + seq!["search"@]) == with(Sub::Search)
            &&& parse_args(args + seq!["review-list"@]) == with(Sub::ReviewList)
        }),
{
    reveal_strlit("select");
    reveal_strlit("multi-select");
    reveal_strlit("text");
    reveal_strlit("search");
    reveal_strlit("review-list");
    assert("select"@[0] != "multi-select"@[0] && "select"@[0] != "text"@[0] && "select"@[2] != "search"@[2]);
    assert("search"@[0] != "multi-select"@[0] && "search"@[0] != "text"@[0]);
    assert("text"@[0] != "multi-select"@[0]);
    lemma_trailing_subcommand(args, "select"@);
    lemma_trailing_subcommand(args, "multi-select"@);
    lemma_trailing_subcommand(args, "text"@);
    lemma_trailing_subcommand(args, "search"@);
    lemma_trailing_subcommand(args, "review-list"@);
}

/// Outside the list subcommands `-o` is `--output`: it reads exactly as
/// `--output` with the same value, before a subcommand and after `text`.
pub proof fn law_short_output_outside_lists(args: Seq<Seq<char>>, value: Seq<char>)
    requires
        args.len() >= 1,
        parse_args(args) is Ok,
        parse_args(args)->Ok_0.sub is None || parse_args(args)->Ok_0.sub == Some(Sub::Text),
    ensures
        parse_args(args + seq!["-o"@, value]) == parse_args(args + seq!["--output"@, value]),
{
    reveal_strlit("-o");
    reveal_strlit("--output");
    reveal_strlit("output");
    let sub = parse_args(args)->Ok_0.sub;
    assert("-o"@.len() == 2 && "-o"@[0] == '-' && "-o"@[1] == 'o');
    lemma_trailing_option(args, "-o"@, value, Opt::Output);
    assert("--output"@ =~= seq!['-', '-'] + "output"@);
    lemma_long_token("output"@, sub);
    lemma_trailing_option(args, "--output"@, value, Opt::Output);
}

/// The arguments as read so far.
struct ArgState {
    config: Option<String>,
    output: OutputFormat,
    sub: Option<Sub>,
    options: Vec<String>,
    input_bytes: Option<String>,
    page_size: usize,
    actions: Vec<String>,
    value: Option<String>,
    prompt: Option<String>,
    hide_removed: bool,
    action_output: bool,
}

pub open spec fn optional_view(text: Option<String>) -> Option<Seq<char>> {
    match text {
        Some(t) => Some(t@),
        None => None,
    }
}

impl ArgState {
    spec fn model(&self) -> ArgsModel {
        ArgsModel {
            config: optional_view(self.config),
            output: self.output,
            sub: self.sub,
            options: strings_view(self.options@),
            input_bytes: optional_view(self.input_bytes),
            page_size: self.page_size as nat,
            actions: strings_view(self.actions@),
            value: optional_view(self.value),
            prompt: optional_view(self.prompt),
            hide_removed: self.hide_removed,
            action_output: self.action_output,
        }
    }

    /// Give `opt` the value `value`.
    fn apply(&mut self, opt: Opt, value: String) -> (applied: Result<(), String>)
        ensures
            match apply_value(old(self).model(), opt, value@) {
                Ok(next) => applied is Ok && final(self).model() == next,
                Err(e) => applied matches Err(m) && m@ == e,
            },
    {
        match opt {
            Opt::Config => {
                self.config = Some(value);
            },
            Opt::Output => {
                let chars = chars_of(value.as_str());
                if chars_are(&chars, "text") {
                    self.output = OutputFormat::Text;
                } else if chars_are(&chars, "json") {
                    self.output = OutputFormat::Json;
                } else {
                    let mut message = String::new();
                    push_str(&mut message, "invalid value '");
                    push_str(&mut message, value.as_str());
                    push_str(&mut message, "' for '--output': expected text or json");
                    return Err(message);
                }
            },
            Opt::Choice => {
                let ghost before = self.options@;
                self.options.push(value);
                assert(strings_view(self.options@) =~= strings_view(before).push(self.options@.last()@));
            },
            Opt::InputBytes => {
                self.input_bytes = Some(value);
            },
            Opt::PageSize => {
                match parse_natural_text(value.as_str(), usize::MAX as u64) {
                    None => {
                        let mut message = String::new();
                        push_str(&mut message, "invalid value '");
                        push_str(&mut message, value.as_str());
                        push_str(&mut message, "' for '--page-size'");
                        return Err(message);
                    },
                    Some(n) => {
                        if n < 1 {
                            return Err("'--page-size' must be at least 1".to_owned());
                        }
                        self.page_size = n as usize;
                    },
                }
            },
            Opt::Action => {
                let ghost before = self.actions@;
                self.actions.push(value);
                assert(strings_view(self.actions@) =~= strings_view(before).push(self.actions@.last()@));
            },
            Opt::Value => {
                self.value = Some(value);
            },
            Opt::Prompt => {
                self.prompt = Some(value);
            },
            Opt::HideRemoved => {
                self.hide_removed = true;
            },
            Opt::ActionOutput => {
                self.action_output = true;
            },
        }
        Ok(())
    }
}

fn sub_of(name: &Vec<char>) -> (sub: Option<Sub>)
    ensures
        sub == sub_named(name@),
{
    if chars_are(name, "select") {
        Some(Sub::Select)
    } else if chars_are(name, "multi-select") {
        Some(Sub::MultiSelect)
    } else if chars_are(name, "text") {
        Some(Sub::Text)
    } else if chars_are(name, "search") {
        Some(Sub::Search)
    } else if chars_are(name, "review-list") {
        Some(Sub::ReviewList)
    } else {
        None
    }
}

fn long_of(name: &Vec<char>, sub: Option<Sub>) -> (opt: Option<Opt>)
    ensures
        opt == long_opt(name@, sub),
{
    if chars_are(name, "output") {
        return Some(Opt::Output);
    }
    match sub {
        None => if chars_are(name, "config") {
            Some(Opt::Config)
        } else {
            None
        },
        Some(s) => if chars_are(name, "option") && s != Sub::Text {
            Some(Opt::Choice)
        } else if chars_are(name, "input-bytes") {
            Some(Opt::InputBytes)
        } else if chars_are(name, "page-size") && s != Sub::Text {
            Some(Opt::PageSize)
        } else if chars_are(name, "action") {
            Some(Opt::Action)
        } else if chars_are(name, "value") && s == Sub::Text {
            Some(Opt::Value)
        } else if chars_are(name, "prompt") && s == Sub::Text {
            Some(Opt::Prompt)
        } else if chars_are(name, "hide-removed") && s == Sub::ReviewList {
            Some(Opt::HideRemoved)
        } else if chars_are(name, "action-output") && s == Sub::ReviewList {
            Some(Opt::ActionOutput)
        } else {
            None
        },
    }
}

/// Classify a token as an option, with its inline value.
fn option_of(token: &str, sub: Option<Sub>) -> (found: Option<(Opt, Option<String>)>)
    ensures
        match token_opt(token@, sub) {
            Some((opt, inline)) => found matches Some((o, v)) && o == opt && optional_view(v) == inline,
            None => found is None,
        },
{
    let chars = chars_of(token);
    let count = chars.len();
    if count >= 2 && chars[0] == '-' && chars[1] == '-' {
        let rest_text = string_of_range(&chars, 2, count);
        let rest = chars_of(rest_text.as_str());
        let mut equals: Vec<char> = Vec::new();
        equals.push('=');
        assert(equals@ =~= seq!['=']);
        let (name, inline) = match find_chars(&rest, &equals) {
            Some(at) => {
                let rest_count = rest.len();
                assert(at + 1 <= rest_count);
                let name = chars_of(string_of_range(&rest, 0, at).as_str());
                (name, Some(string_of_range(&rest, at + 1, rest_count)))
            },
            None => (rest, None),
        };
        match long_of(&name, sub) {
            Some(opt) => Some((opt, inline)),
            None => None,
        }
    } else if count == 2 && chars[0] == '-' {
        let c = chars[1];
        let opt = if c == 'c' && sub.is_none() {
            Some(Opt::Config)
        } else if c == 'o' {
            match sub {
                Some(s) => if s != Sub::Text {
                    Some(Opt::Choice)
                } else {
                    Some(Opt::Output)
                },
                None => Some(Opt::Output),
            }
        } else {
            None
        };
        match opt {
            Some(o) => Some((o, None)),
            None => None,
        }
    } else {
        None
    }
}

fn unrecognised_message(token: &str) -> (message: String)
    ensures
        message@ == unrecognised(token@),
{
    let mut message = String::new();
    push_str(&mut message, "unrecognised argument '");
    push_str(&mut message, token);
    push_str(&mut message, "'");
    message
}

/// The command line the arguments write: the subcommand with its options,
/// defaults where an option was not given.
pub open spec fn cli_holds(cli: Cli, model: ArgsModel) -> bool {
    &&& optional_view(cli.config) == model.config
    &&& cli.output == model.output
    &&& match model.sub {
        None => cli.command is None,
        Some(Sub::Select) => cli.command matches Some(Command::Select { option, input_bytes, page_size, action })
            && strings_view(option@) == model.options && optional_view(input_bytes) == model.input_bytes && page_size
            == model.page_size && strings_view(action@) == model.actions,
        Some(Sub::MultiSelect) => cli.command matches Some(
            Command::MultiSelect { option, input_bytes, page_size, action },
        ) && strings_view(option@) == model.options && optional_view(input_bytes) == model.input_bytes && page_size
            == model.page_size && strings_view(action@) == model.actions,
        Some(Sub::Search) => cli.command matches Some(Command::Search { option, input_bytes, page_size, action })
            && strings_view(option@) == model.options && optional_view(input_bytes) == model.input_bytes && page_size
            == model.page_size && strings_view(action@) == model.actions,
        Some(Sub::Text) => cli.command matches Some(Command::Text { input_bytes, value, prompt, action })
            && optional_view(input_bytes) == model.input_bytes && value@ == match model.value {
            Some(v) => v,
            None => Seq::<char>::empty(),
        } && prompt@ == match model.prompt {
            Some(p) => p,
            None => "text: "@,
        } && strings_view(action@) == model.actions,
        Some(Sub::ReviewList) => cli.command matches Some(
            Command::ReviewList { option, input_bytes, page_size, hide_removed, action_output, action },
        ) && strings_view(option@) == model.options && optional_view(input_bytes) == model.input_bytes && page_size
            == model.page_size && hide_removed == model.hide_removed && action_output == model.action_output
            && strings_view(action@) == model.actions,
    }
}

/// Read a command line; the first element is the program's name.
#[verifier::loop_isolation(false)]
pub fn parse_cli(args: &Vec<String>) -> (cli: Result<Cli, String>)
    ensures
        match parse_args(strings_view(args@)) {
            Ok(model) => cli matches Ok(c) && cli_holds(c, model),
            Err(e) => cli matches Err(m) && m@ == e,
        },
{
    let ghost all = strings_view(args@);
    let mut state = ArgState {
        config: None,
        output: OutputFormat::Text,
        sub: None,
        options: Vec::new(),
        input_bytes: None,
        page_size: DEFAULT_PAGE_SIZE,
        actions: Vec::new(),
        value: None,
        prompt: None,
        hide_removed: false,
        action_output: false,
    };
    assert(strings_view(state.options@) =~= Seq::<Seq<char>>::empty());
    assert(strings_view(state.actions@) =~= Seq::<Seq<char>>::empty());
    assert(state.model() == initial_args());
    let mut i: usize = 1;
    while i < args.len()
        invariant
            1 <= i,
            all == strings_view(args@),
            parse_args(all) == parse_from(all, i as int, state.model()),
        decreases args@.len() - i,
    {
        let token = args[i].as_str();
        assert(all[i as int] == token@);
        match option_of(token, state.sub) {
            Some((opt, inline)) => {
                if opt == Opt::HideRemoved || opt == Opt::ActionOutput {
                    if inline.is_some() {
                        return Err(unrecognised_message(token));
                    }
                    let applied = state.apply(opt, String::new());
                    assert(applied is Ok);
                    i += 1;
                } else {
                    match inline {
                        Some(value) => {
                            state.apply(opt, value)?;
                            i += 1;
                        },
                        None => {
                            if i + 1 >= args.len() {
                                let mut message = String::new();
                                push_str(&mut message, "missing value for '");
                                push_str(&mut message, token);
                                push_str(&mut message, "'");
                                return Err(message);
                            }
                            let value = args[i + 1].clone();
                            assert(all[i + 1] == value@);
                            state.apply(opt, value)?;
                            i += 2;
                        },
                    }
                }
            },
            None => {
                let name = chars_of(token);
                match sub_of(&name) {
                    Some(sub) => {
                        if state.sub.is_some() {
                            return Err(unrecognised_message(token));
                        }
                        state.sub = Some(sub);
                        i += 1;
                    },
                    None => return Err(unrecognised_message(token)),
                }
            },
        }
    }
    let ArgState {
        config,
        output,
        sub,
        options,
        input_bytes,
        page_size,
        actions,
        value,
        prompt,
        hide_removed,
        action_output,
    } = state;
    let command = match sub {
        None => None,
        Some(Sub::Select) => Some(Command::Select { option: options, input_bytes, page_size, action: actions }),
        Some(Sub::MultiSelect) => Some(
            Command::MultiSelect { option: options, input_bytes, page_size, action: actions },
        ),
        Some(Sub::Search) => Some(Command::Search { option: options, input_bytes, page_size, action: actions }),
        Some(Sub::Text) => Some(
            Command::Text {
                input_bytes,
                value: match value {
                    Some(v) => v,
                    None => String::new(),
                },
                prompt: match prompt {
                    Some(p) => p,
                    None => "text: ".to_owned(),
                },
                action: actions,
            },
        ),
        Some(Sub::ReviewList) => Some(
            Command::ReviewList {
                option: options,
                input_bytes,
                page_size,
                hide_removed,
                action_output,
                action: actions,
            },
        ),
    };
    Ok(Cli { config, output, command })
}

/// Read a command line and run it.
pub fn run_from_args(args: &Vec<String>) -> (result: Result<Step, String>)
    ensures
        parse_args(strings_view(args@)) matches Err(e) ==> (result matches Err(m) && m@ == e),
{
    let cli = parse_cli(args)?;
    run(cli)
}

} // verus!
