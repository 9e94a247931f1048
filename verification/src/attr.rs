//! The options an argument-parser attribute sets on a field or an item,
//! and the summary of a doc comment.

use vstd::prelude::*;
use vstd::view::View as _;

use crate::text::{chars_are, chars_of, find_chars, first_occurrence, push_char, push_str, string_of_range, strings_view};

verus! {

/// The options set on one field or item. `short`, `long` and `negate` are
/// absent, bare, or given a value.
#[derive(Debug)]
pub struct Pound {
    pub short: Option<Option<char>>,
    pub long: Option<Option<String>>,
    pub positional: bool,
    pub trailing: bool,
    pub count: bool,
    pub subcommand: bool,
    pub hidden: bool,
    pub global: bool,
    pub group: Option<String>,
    pub default: Option<String>,
    pub default_missing: Option<String>,
    pub env: Option<String>,
    pub negate: Option<Option<String>>,
    pub value_name: Option<String>,
    pub help: Option<String>,
    pub long_help: Option<String>,
    pub heading: Option<String>,
    pub name: Option<String>,
    pub version: Option<String>,
    pub min: Option<String>,
    pub max: Option<String>,
    pub max_len: Option<String>,
    pub min_values: Option<String>,
    pub max_values: Option<String>,
    pub parse: Option<String>,
    pub validate: Option<String>,
    pub required_groups: Vec<String>,
    pub conflicts_with: Vec<String>,
    pub requires: Vec<String>,
    pub aliases: Vec<String>,
}

impl Default for Pound {
    /// No option set.
    fn default() -> (options: Self)
        ensures
            options.short is None && options.long is None && options.negate is None,
            !options.positional && !options.trailing && !options.count && !options.subcommand && !options.hidden
                && !options.global,
            options.group is None && options.default is None && options.default_missing is None && options.env is None,
            options.value_name is None && options.help is None && options.long_help is None && options.heading is None,
            options.name is None && options.version is None && options.min is None && options.max is None,
            options.max_len is None && options.min_values is None && options.max_values is None,
            options.parse is None && options.validate is None,
            options.required_groups@.len() == 0 && options.conflicts_with@.len() == 0 && options.requires@.len() == 0
                && options.aliases@.len() == 0,
            options@ == pound_default(),
    {
        let options = Pound {
            short: None,
            long: None,
            positional: false,
            trailing: false,
            count: false,
            subcommand: false,
            hidden: false,
            global: false,
            group: None,
            default: None,
            default_missing: None,
            env: None,
            negate: None,
            value_name: None,
            help: None,
            long_help: None,
            heading: None,
            name: None,
            version: None,
            min: None,
            max: None,
            max_len: None,
            min_values: None,
            max_values: None,
            parse: None,
            validate: None,
            required_groups: Vec::new(),
            conflicts_with: Vec::new(),
            requires: Vec::new(),
            aliases: Vec::new(),
        };
        assert(strings_view(options.aliases@) =~= Seq::<Seq<char>>::empty());
        assert(strings_view(options.requires@) =~= Seq::<Seq<char>>::empty());
        assert(strings_view(options.conflicts_with@) =~= Seq::<Seq<char>>::empty());
        assert(strings_view(options.required_groups@) =~= Seq::<Seq<char>>::empty());
        options
    }
}

impl Pound {
    /// Whether the field is a named option or flag rather than a positional.
    pub fn is_named(&self) -> (named: bool)
        ensures
            named == (self.short is Some || self.long is Some),
    {
        self.short.is_some() || self.long.is_some()
    }
}

/// The opening paragraph of a doc comment: the text before the first blank
/// line, or all of it.
pub open spec fn summary_of(doc: Seq<char>) -> Seq<char> {
    match first_occurrence(doc, seq!['\n', '\n']) {
        Some(at) => doc.subrange(0, at),
        None => doc,
    }
}

pub fn summary(doc: &str) -> (first: String)
    ensures
        first@ == summary_of(doc@),
{
    let chars = chars_of(doc);
    let mut blank: Vec<char> = Vec::new();
    blank.push('\n');
    blank.push('\n');
    assert(blank@ =~= seq!['\n', '\n']);
    match find_chars(&chars, &blank) {
        Some(at) => string_of_range(&chars, 0, at),
        None => {
            let count = chars.len();
            let whole = string_of_range(&chars, 0, count);
            assert(chars@.subrange(0, count as int) =~= chars@);
            whole
        },
    }
}


/// A token of an attribute, as the logic here reads it: a name, a
/// punctuation character, a literal as written (quotes and escapes
/// included), or anything else by its text.
#[derive(Debug)]
pub enum MetaToken {
    Ident(String),
    Punct(char),
    Literal(String),
    Other(String),
}

/// A token as values.
pub enum MetaTokenModel {
    Ident(Seq<char>),
    Punct(char),
    Literal(Seq<char>),
    Other(Seq<char>),
}

impl View for MetaToken {
    type V = MetaTokenModel;

    open spec fn view(&self) -> MetaTokenModel {
        match self {
            MetaToken::Ident(s) => MetaTokenModel::Ident(s@),
            MetaToken::Punct(c) => MetaTokenModel::Punct(*c),
            MetaToken::Literal(s) => MetaTokenModel::Literal(s@),
            MetaToken::Other(s) => MetaTokenModel::Other(s@),
        }
    }
}

pub open spec fn tokens_view(tokens: Seq<MetaToken>) -> Seq<MetaTokenModel> {
    tokens.map_values(|t: MetaToken| t@)
}

/// What an attribute holds after its path.
#[derive(Debug)]
pub enum MetaValue {
    /// `#[path(tokens)]`
    Group(Vec<MetaToken>),
    /// `#[path = tokens]`
    Equals(Vec<MetaToken>),
    /// `#[path]`
    Empty,
}

/// An attribute: its path and what follows it.
#[derive(Debug)]
pub struct MetaAttribute {
    pub path: Vec<MetaToken>,
    pub value: MetaValue,
}

/// Whether an attribute's path is the single name `name`.
pub open spec fn path_is_model(path: Seq<MetaTokenModel>, name: Seq<char>) -> bool {
    path.len() == 1 && path[0] == MetaTokenModel::Ident(name)
}

fn path_is(attr: &MetaAttribute, name: &str) -> (same: bool)
    ensures
        same == path_is_model(tokens_view(attr.path@), name@),
{
    if attr.path.len() != 1 {
        return false;
    }
    match &attr.path[0] {
        MetaToken::Ident(id) => {
            let chars = chars_of(id.as_str());
            chars_are(&chars, name)
        },
        _ => false,
    }
}

/// `s` with every occurrence of `from` replaced by `to`, from the left, as
/// `str::replace` does.
pub open spec fn replace_all(s: Seq<char>, from: Seq<char>, to: Seq<char>) -> Seq<char>
    decreases s.len(),
{
    if from.len() == 0 || s.len() < from.len() {
        s
    } else if s.subrange(0, from.len() as int) == from {
        to + replace_all(s.subrange(from.len() as int, s.len() as int), from, to)
    } else {
        seq![s[0]] + replace_all(s.drop_first(), from, to)
    }
}

fn replace_chars(s: &Vec<char>, from: &Vec<char>, to: &Vec<char>) -> (out: Vec<char>)
    requires
        from@.len() > 0,
    ensures
        out@ == replace_all(s@, from@, to@),
{
    let mut out: Vec<char> = Vec::new();
    let mut i: usize = 0;
    assert(s@.subrange(0, s@.len() as int) =~= s@);
    while i < s.len()
        invariant
            i <= s@.len(),
            from@.len() > 0,
            out@ + replace_all(s@.subrange(i as int, s@.len() as int), from@, to@) == replace_all(s@, from@, to@),
        decreases s@.len() - i,
    {
        let rest = Ghost(s@.subrange(i as int, s@.len() as int));
        let fits = from.len() <= s.len() - i;
        let mut matched = fits;
        let mut k: usize = 0;
        while matched && k < from.len()
            invariant
                fits == (i + from@.len() <= s@.len()),
                i < s@.len(),
                s@.len() <= usize::MAX,
                k <= from@.len(),
                matched ==> fits,
                matched ==> forall|j: int| 0 <= j < k ==> s@[i + j] == from@[j],
                !matched ==> !fits || (k < from@.len() && s@[i + k] != from@[k as int]),
            decreases from@.len() - k + (if matched { 1int } else { 0int }),
        {
            if s[i + k] != from[k] {
                matched = false;
            } else {
                k += 1;
            }
        }
        if matched {
            assert(rest@.subrange(0, from@.len() as int) =~= from@);
            assert(rest@.subrange(from@.len() as int, rest@.len() as int) =~= s@.subrange(
                i + from@.len(),
                s@.len() as int,
            ));
            let mut j: usize = 0;
            let ghost before = out@;
            while j < to.len()
                invariant
                    j <= to@.len(),
                    out@ == before + to@.subrange(0, j as int),
                decreases to@.len() - j,
            {
                out.push(to[j]);
                j += 1;
            }
            assert(to@.subrange(0, to@.len() as int) =~= to@);
            assert(out@ + replace_all(s@.subrange(i + from@.len(), s@.len() as int), from@, to@) =~= before + (to@
                + replace_all(s@.subrange(i + from@.len(), s@.len() as int), from@, to@)));
            i += from.len();
        } else {
            assert(rest@.len() < from@.len() || rest@.subrange(0, from@.len() as int) != from@) by {
                if rest@.len() >= from@.len() {
                    assert(rest@.subrange(0, from@.len() as int)[k as int] != from@[k as int]);
                }
            }
            assert(rest@.drop_first() =~= s@.subrange(i + 1, s@.len() as int));
            let ghost before = out@;
            out.push(s[i]);
            assert(out@ + replace_all(s@.subrange(i + 1, s@.len() as int), from@, to@) =~= before + (seq![s@[i as int]]
                + replace_all(s@.subrange(i + 1, s@.len() as int), from@, to@)));
            i += 1;
        }
    }
    assert(s@.subrange(i as int, s@.len() as int) =~= Seq::<char>::empty());
    assert(out@ + Seq::<char>::empty() =~= out@);
    out
}

/// The text of a quoted literal with its escaped quotes and backslashes
/// read.
pub open spec fn unescaped_quotes(s: Seq<char>) -> Seq<char> {
    replace_all(replace_all(replace_all(s, seq!['\\', '"'], seq!['"']), seq!['\\', '\''], seq!['\'']), seq!['\\', '\\'], seq!['\\'])
}

/// The text a token stands for: a quoted literal without its quotes and
/// with its escapes read, anything else as written.
pub open spec fn unquote_model(token: MetaTokenModel) -> Seq<char> {
    match token {
        MetaTokenModel::Literal(raw) => if raw.len() >= 2 && (raw[0] == '"' || raw[0] == '\'') && raw.last() == raw[0] {
            unescaped_quotes(raw.subrange(1, raw.len() - 1))
        } else {
            raw
        },
        MetaTokenModel::Ident(s) => s,
        MetaTokenModel::Punct(c) => seq![c],
        MetaTokenModel::Other(s) => s,
    }
}

fn two(a: char, b: char) -> (chars: Vec<char>)
    ensures
        chars@ == seq![a, b],
{
    let mut chars: Vec<char> = Vec::new();
    chars.push(a);
    chars.push(b);
    assert(chars@ =~= seq![a, b]);
    chars
}

fn one(a: char) -> (chars: Vec<char>)
    ensures
        chars@ == seq![a],
{
    let mut chars: Vec<char> = Vec::new();
    chars.push(a);
    assert(chars@ =~= seq![a]);
    chars
}

/// The text a token stands for.
pub fn unquote(token: &MetaToken) -> (text: String)
    ensures
        text@ == unquote_model(token@),
{
    match token {
        MetaToken::Literal(raw) => {
            let chars = chars_of(raw.as_str());
            let n = chars.len();
            if n >= 2 && (chars[0] == '"' || chars[0] == '\'') && chars[n - 1] == chars[0] {
                let inner = string_of_range(&chars, 1, n - 1);
                let inner_chars = chars_of(inner.as_str());
                let a = replace_chars(&inner_chars, &two('\\', '"'), &one('"'));
                let b = replace_chars(&a, &two('\\', '\''), &one('\''));
                let c = replace_chars(&b, &two('\\', '\\'), &one('\\'));
                let count = c.len();
                assert(c@.subrange(0, count as int) =~= c@);
                string_of_range(&c, 0, count)
            } else {
                raw.clone()
            }
        },
        MetaToken::Ident(s) => s.clone(),
        MetaToken::Punct(c) => {
            let mut text = String::new();
            push_char(&mut text, *c);
            assert(text@ =~= seq![*c]);
            text
        },
        MetaToken::Other(s) => s.clone(),
    }
}


/// A value of an option as text.
pub open spec fn opt_view(value: Option<String>) -> Option<Seq<char>> {
    match value {
        Some(v) => Some(v@),
        None => None,
    }
}

pub open spec fn opt_opt_view(value: Option<Option<String>>) -> Option<Option<Seq<char>>> {
    match value {
        Some(inner) => Some(opt_view(inner)),
        None => None,
    }
}

/// The options as values.
pub struct PoundModel {
    pub short: Option<Option<char>>,
    pub long: Option<Option<Seq<char>>>,
    pub positional: bool,
    pub trailing: bool,
    pub count: bool,
    pub subcommand: bool,
    pub hidden: bool,
    pub global: bool,
    pub group: Option<Seq<char>>,
    pub default: Option<Seq<char>>,
    pub default_missing: Option<Seq<char>>,
    pub env: Option<Seq<char>>,
    pub value_name: Option<Seq<char>>,
    pub help: Option<Seq<char>>,
    pub long_help: Option<Seq<char>>,
    pub heading: Option<Seq<char>>,
    pub name: Option<Seq<char>>,
    pub version: Option<Seq<char>>,
    pub min: Option<Seq<char>>,
    pub max: Option<Seq<char>>,
    pub max_len: Option<Seq<char>>,
    pub min_values: Option<Seq<char>>,
    pub max_values: Option<Seq<char>>,
    pub parse: Option<Seq<char>>,
    pub validate: Option<Seq<char>>,
    pub negate: Option<Option<Seq<char>>>,
    pub required_groups: Seq<Seq<char>>,
    pub conflicts_with: Seq<Seq<char>>,
    pub requires: Seq<Seq<char>>,
    pub aliases: Seq<Seq<char>>,
}

impl View for Pound {
    type V = PoundModel;

    open spec fn view(&self) -> PoundModel {
        PoundModel {
            short: self.short,
            long: opt_opt_view(self.long),
            positional: self.positional,
            trailing: self.trailing,
            count: self.count,
            subcommand: self.subcommand,
            hidden: self.hidden,
            global: self.global,
            group: opt_view(self.group),
            default: opt_view(self.default),
            default_missing: opt_view(self.default_missing),
            env: opt_view(self.env),
            value_name: opt_view(self.value_name),
            help: opt_view(self.help),
            long_help: opt_view(self.long_help),
            heading: opt_view(self.heading),
            name: opt_view(self.name),
            version: opt_view(self.version),
            min: opt_view(self.min),
            max: opt_view(self.max),
            max_len: opt_view(self.max_len),
            min_values: opt_view(self.min_values),
            max_values: opt_view(self.max_values),
            parse: opt_view(self.parse),
            validate: opt_view(self.validate),
            negate: opt_opt_view(self.negate),
            required_groups: strings_view(self.required_groups@),
            conflicts_with: strings_view(self.conflicts_with@),
            requires: strings_view(self.requires@),
            aliases: strings_view(self.aliases@),
        }
    }
}

/// Unicode white space, as `char::is_whitespace` reads it: the
/// `White_Space` property.
pub open spec fn is_white_space(c: char) -> bool {
    ('\t' <= c && c <= '\r') || c == ' ' || c == '\u{85}' || c == '\u{a0}' || c == '\u{1680}' || ('\u{2000}' <= c
        && c <= '\u{200a}') || c == '\u{2028}' || c == '\u{2029}' || c == '\u{202f}' || c == '\u{205f}' || c
        == '\u{3000}'
}

/// A text without the white space at its start.
pub open spec fn trim_start_text(text: Seq<char>) -> Seq<char>
    decreases text.len(),
{
    if text.len() > 0 && is_white_space(text[0]) {
        trim_start_text(text.drop_first())
    } else {
        text
    }
}

/// A text without the white space at its end.
pub open spec fn trim_end_text(text: Seq<char>) -> Seq<char>
    decreases text.len(),
{
    if text.len() > 0 && is_white_space(text.last()) {
        trim_end_text(text.drop_last())
    } else {
        text
    }
}

/// The text `str::trim` leaves: without the white space at either end.
pub open spec fn trim_text(text: Seq<char>) -> Seq<char> {
    trim_end_text(trim_start_text(text))
}

fn white_space(c: char) -> (white: bool)
    ensures
        white == is_white_space(c),
{
    ('\t' <= c && c <= '\r') || c == ' ' || c == '\u{85}' || c == '\u{a0}' || c == '\u{1680}' || ('\u{2000}' <= c
        && c <= '\u{200a}') || c == '\u{2028}' || c == '\u{2029}' || c == '\u{202f}' || c == '\u{205f}' || c
        == '\u{3000}'
}

/// The text without the white space at either end, as `str::trim` leaves
/// it.
fn trimmed(text: &str) -> (trimmed: String)
    ensures
        trimmed@ == trim_text(text@),
{
    let chars = chars_of(text);
    let mut start: usize = 0;
    assert(chars@.subrange(0, chars@.len() as int) =~= chars@);
    while start < chars.len() && white_space(chars[start])
        invariant
            start <= chars@.len(),
            trim_start_text(chars@) == trim_start_text(chars@.subrange(start as int, chars@.len() as int)),
        decreases chars@.len() - start,
    {
        assert(chars@.subrange(start as int, chars@.len() as int).drop_first() =~= chars@.subrange(
            start + 1,
            chars@.len() as int,
        ));
        start += 1;
    }
    let ghost rest = chars@.subrange(start as int, chars@.len() as int);
    assert(trim_start_text(rest) == rest);
    let mut end: usize = chars.len();
    assert(rest.subrange(0, rest.len() as int) =~= rest);
    while end > start && white_space(chars[end - 1])
        invariant
            start <= end <= chars@.len(),
            rest == chars@.subrange(start as int, chars@.len() as int),
            trim_end_text(rest) == trim_end_text(chars@.subrange(start as int, end as int)),
        decreases end,
    {
        assert(chars@.subrange(start as int, end as int).drop_last() =~= chars@.subrange(start as int, end - 1));
        end -= 1;
    }
    string_of_range(&chars, start, end)
}

/// A text without its leading dashes.
pub open spec fn strip_dashes(text: Seq<char>) -> Seq<char>
    decreases text.len(),
{
    if text.len() > 0 && text[0] == '-' {
        strip_dashes(text.drop_first())
    } else {
        text
    }
}

fn strip_leading_dashes(text: &str) -> (stripped: String)
    ensures
        stripped@ == strip_dashes(text@),
{
    let chars = chars_of(text);
    let mut i: usize = 0;
    assert(chars@.subrange(0, chars@.len() as int) =~= chars@);
    while i < chars.len() && chars[i] == '-'
        invariant
            i <= chars@.len(),
            strip_dashes(chars@) == strip_dashes(chars@.subrange(i as int, chars@.len() as int)),
        decreases chars@.len() - i,
    {
        assert(chars@.subrange(i as int, chars@.len() as int).drop_first() =~= chars@.subrange(i + 1, chars@.len() as int));
        i += 1;
    }
    proof {
        assert(chars@.subrange(0, chars@.len() as int) =~= chars@);
    }
    string_of_range(&chars, i, chars.len())
}

/// The pieces of a text between its commas, as `str::split(',')` gives
/// them, with the piece being read.
pub open spec fn comma_prefix(text: Seq<char>) -> (Seq<Seq<char>>, Seq<char>)
    decreases text.len(),
{
    if text.len() == 0 {
        (Seq::empty(), Seq::empty())
    } else {
        let (pieces, current) = comma_prefix(text.drop_last());
        if text.last() == ',' {
            (pieces.push(current), Seq::empty())
        } else {
            (pieces, current.push(text.last()))
        }
    }
}

/// The comma-separated values of a text: each piece trimmed, the empty ones
/// left out.
pub open spec fn csv_model(text: Seq<char>) -> Seq<Seq<char>> {
    let (pieces, current) = comma_prefix(text);
    kept_pieces(pieces.push(current))
}

pub open spec fn kept_pieces(pieces: Seq<Seq<char>>) -> Seq<Seq<char>>
    decreases pieces.len(),
{
    if pieces.len() == 0 {
        Seq::empty()
    } else if trim_text(pieces.last()).len() > 0 {
        kept_pieces(pieces.drop_last()).push(trim_text(pieces.last()))
    } else {
        kept_pieces(pieces.drop_last())
    }
}

fn keep_piece(kept: &mut Vec<String>, piece: &Vec<char>)
    ensures
        strings_view(final(kept)@) == if trim_text(piece@).len() > 0 {
            strings_view(old(kept)@).push(trim_text(piece@))
        } else {
            strings_view(old(kept)@)
        },
{
    let count = piece.len();
    let text = string_of_range(piece, 0, count);
    assert(piece@.subrange(0, count as int) =~= piece@);
    let t = trimmed(text.as_str());
    let t_chars = chars_of(t.as_str());
    if t_chars.len() > 0 {
        kept.push(t);
        assert(strings_view(kept@) =~= strings_view(old(kept)@).push(trim_text(piece@)));
    }
}

/// The comma-separated values of a text.
fn csv(text: &str) -> (values: Vec<String>)
    ensures
        strings_view(values@) == csv_model(text@),
{
    let chars = chars_of(text);
    let mut kept: Vec<String> = Vec::new();
    let mut current: Vec<char> = Vec::new();
    let mut i: usize = 0;
    while i < chars.len()
        invariant
            i <= chars@.len(),
            ({
                let (pieces, cur) = comma_prefix(chars@.subrange(0, i as int));
                strings_view(kept@) == kept_pieces(pieces) && current@ == cur
            }),
        decreases chars@.len() - i,
    {
        let ghost prefix = chars@.subrange(0, i + 1);
        assert(prefix.drop_last() =~= chars@.subrange(0, i as int));
        assert(prefix.last() == chars@[i as int]);
        let ghost (pieces, cur) = comma_prefix(chars@.subrange(0, i as int));
        if chars[i] == ',' {
            keep_piece(&mut kept, &current);
            current = Vec::new();
            assert(current@ =~= Seq::<char>::empty());
            assert(pieces.push(cur).drop_last() =~= pieces);
        } else {
            current.push(chars[i]);
        }
        i += 1;
    }
    assert(chars@.subrange(0, chars@.len() as int) =~= chars@);
    let ghost (pieces, cur) = comma_prefix(chars@);
    assert(pieces.push(cur).drop_last() =~= pieces);
    keep_piece(&mut kept, &current);
    kept
}

fn append_strings(list: &mut Vec<String>, more: Vec<String>)
    ensures
        strings_view(final(list)@) == strings_view(old(list)@) + strings_view(more@),
{
    let mut i: usize = 0;
    while i < more.len()
        invariant
            i <= more@.len(),
            strings_view(list@) == strings_view(old(list)@) + strings_view(more@.subrange(0, i as int)),
        decreases more@.len() - i,
    {
        let ghost before = list@;
        let item = more[i].clone();
        assert(item@ == more@[i as int]@);
        list.push(item);
        assert(strings_view(list@) =~= strings_view(before).push(item@));
        assert(strings_view(more@.subrange(0, i + 1)) =~= strings_view(more@.subrange(0, i as int)).push(more@[i as int]@));
        i += 1;
    }
    assert(more@.subrange(0, more@.len() as int) =~= more@);
}

/// The options with one meta `key`, and its value when written `key =
/// value`, applied; an unknown key changes nothing.
pub open spec fn pound_meta(p: PoundModel, key: Seq<char>, value: Option<Seq<char>>) -> PoundModel {
    if key == "short"@ {
        PoundModel { short: Some(match value { Some(v) => if v.len() > 0 { Some(v[0]) } else { None }, None => None }), ..p }
    } else if key == "long"@ {
        PoundModel { long: Some(value), ..p }
    } else if key == "positional"@ {
        PoundModel { positional: true, ..p }
    } else if key == "trailing"@ {
        PoundModel { trailing: true, ..p }
    } else if key == "count"@ {
        PoundModel { count: true, ..p }
    } else if key == "subcommand"@ {
        PoundModel { subcommand: true, ..p }
    } else if key == "hidden"@ {
        PoundModel { hidden: true, ..p }
    } else if key == "global"@ {
        PoundModel { global: true, ..p }
    } else if key == "group"@ {
        PoundModel { group: value, ..p }
    } else if key == "default"@ {
        PoundModel { default: value, ..p }
    } else if key == "default_missing"@ {
        PoundModel { default_missing: value, ..p }
    } else if key == "env"@ {
        PoundModel { env: value, ..p }
    } else if key == "negate"@ {
        PoundModel { negate: Some(match value { Some(v) => Some(strip_dashes(v)), None => None }), ..p }
    } else if key == "value_name"@ {
        PoundModel { value_name: value, ..p }
    } else if key == "help"@ {
        PoundModel { help: value, ..p }
    } else if key == "long_help"@ {
        PoundModel { long_help: value, ..p }
    } else if key == "heading"@ {
        PoundModel { heading: value, ..p }
    } else if key == "name"@ {
        PoundModel { name: value, ..p }
    } else if key == "version"@ {
        PoundModel { version: value, ..p }
    } else if key == "min"@ {
        PoundModel { min: value, ..p }
    } else if key == "max"@ {
        PoundModel { max: value, ..p }
    } else if key == "max_len"@ {
        PoundModel { max_len: value, ..p }
    } else if key == "min_values"@ {
        PoundModel { min_values: value, ..p }
    } else if key == "max_values"@ {
        PoundModel { max_values: value, ..p }
    } else if key == "parse"@ {
        PoundModel { parse: value, ..p }
    } else if key == "validate"@ {
        PoundModel { validate: value, ..p }
    } else if key == "required_group"@ {
        match value { Some(v) => PoundModel { required_groups: p.required_groups.push(v), ..p }, None => p }
    } else if key == "conflicts_with"@ {
        match value { Some(v) => PoundModel { conflicts_with: p.conflicts_with + csv_model(v), ..p }, None => p }
    } else if key == "requires"@ {
        match value { Some(v) => PoundModel { requires: p.requires + csv_model(v), ..p }, None => p }
    } else if key == "alias"@ {
        match value { Some(v) => PoundModel { aliases: p.aliases + csv_model(v), ..p }, None => p }
    } else {
        p
    }
}

fn apply_meta(out: &mut Pound, key: &str, value: Option<String>)
    ensures
        final(out)@ == pound_meta(old(out)@, key@, opt_view(value)),
{
    let chars = chars_of(key);
    if chars_are(&chars, "short") {
        out.short = Some(match &value {
                Some(v) => {
                    let chars = chars_of(v.as_str());
                    if chars.len() > 0 {
                        Some(chars[0])
                    } else {
                        None
                    }
                },
                None => None,
            });
    } else if chars_are(&chars, "long") {
        out.long = Some(value);
    } else if chars_are(&chars, "positional") {
        out.positional = true;
    } else if chars_are(&chars, "trailing") {
        out.trailing = true;
    } else if chars_are(&chars, "count") {
        out.count = true;
    } else if chars_are(&chars, "subcommand") {
        out.subcommand = true;
    } else if chars_are(&chars, "hidden") {
        out.hidden = true;
    } else if chars_are(&chars, "global") {
        out.global = true;
    } else if chars_are(&chars, "group") {
        out.group = value;
    } else if chars_are(&chars, "default") {
        out.default = value;
    } else if chars_are(&chars, "default_missing") {
        out.default_missing = value;
    } else if chars_are(&chars, "env") {
        out.env = value;
    } else if chars_are(&chars, "negate") {
        out.negate = Some(match value {
                Some(v) => Some(strip_leading_dashes(v.as_str())),
                None => None,
            });
    } else if chars_are(&chars, "value_name") {
        out.value_name = value;
    } else if chars_are(&chars, "help") {
        out.help = value;
    } else if chars_are(&chars, "long_help") {
        out.long_help = value;
    } else if chars_are(&chars, "heading") {
        out.heading = value;
    } else if chars_are(&chars, "name") {
        out.name = value;
    } else if chars_are(&chars, "version") {
        out.version = value;
    } else if chars_are(&chars, "min") {
        out.min = value;
    } else if chars_are(&chars, "max") {
        out.max = value;
    } else if chars_are(&chars, "max_len") {
        out.max_len = value;
    } else if chars_are(&chars, "min_values") {
        out.min_values = value;
    } else if chars_are(&chars, "max_values") {
        out.max_values = value;
    } else if chars_are(&chars, "parse") {
        out.parse = value;
    } else if chars_are(&chars, "validate") {
        out.validate = value;
    } else if chars_are(&chars, "required_group") {
        match value {
                Some(v) => {
                    let ghost before = out.required_groups@;
                    let ghost added = v@;
                    out.required_groups.push(v);
                    assert(strings_view(out.required_groups@) =~= strings_view(before).push(added));
                },
                None => {},
            }
    } else if chars_are(&chars, "conflicts_with") {
        match value {
                Some(v) => {
                    let parts = csv(v.as_str());
                    append_strings(&mut out.conflicts_with, parts);
                },
                None => {},
            }
    } else if chars_are(&chars, "requires") {
        match value {
                Some(v) => {
                    let parts = csv(v.as_str());
                    append_strings(&mut out.requires, parts);
                },
                None => {},
            }
    } else if chars_are(&chars, "alias") {
        match value {
                Some(v) => {
                    let parts = csv(v.as_str());
                    append_strings(&mut out.aliases, parts);
                },
                None => {},
            }
    }
}


/// The meta segments of the tokens inside `pound(...)` read so far: the
/// finished segments between commas, and the one being read.
pub open spec fn token_segments(tokens: Seq<MetaTokenModel>) -> (Seq<Seq<MetaTokenModel>>, Seq<MetaTokenModel>)
    decreases tokens.len(),
{
    if tokens.len() == 0 {
        (Seq::empty(), Seq::empty())
    } else {
        let (segments, current) = token_segments(tokens.drop_last());
        if tokens.last() == MetaTokenModel::Punct(',') {
            (if current.len() > 0 { segments.push(current) } else { segments }, Seq::empty())
        } else {
            (segments, current.push(tokens.last()))
        }
    }
}

/// The non-empty comma-separated segments of the tokens.
pub open spec fn segments_of(tokens: Seq<MetaTokenModel>) -> Seq<Seq<MetaTokenModel>> {
    let (segments, current) = token_segments(tokens);
    if current.len() > 0 { segments.push(current) } else { segments }
}

/// The value of a meta segment written `key = value`, as text.
pub open spec fn segment_value(segment: Seq<MetaTokenModel>) -> Option<Seq<char>> {
    if segment.len() >= 3 && segment[1] == MetaTokenModel::Punct('=') {
        Some(unquote_model(segment[2]))
    } else {
        None
    }
}

/// The options with one meta segment applied: a segment that starts with a
/// name sets that option, any other changes nothing.
pub open spec fn segment_applied(p: PoundModel, segment: Seq<MetaTokenModel>) -> PoundModel {
    if segment.len() > 0 {
        match segment[0] {
            MetaTokenModel::Ident(key) => pound_meta(p, key, segment_value(segment)),
            _ => p,
        }
    } else {
        p
    }
}

pub open spec fn segments_applied(p: PoundModel, segments: Seq<Seq<MetaTokenModel>>) -> PoundModel
    decreases segments.len(),
{
    if segments.len() == 0 {
        p
    } else {
        segment_applied(segments_applied(p, segments.drop_last()), segments.last())
    }
}

/// The options with every meta of `pound(...)`'s tokens applied in order.
pub open spec fn metas_applied(p: PoundModel, tokens: Seq<MetaTokenModel>) -> PoundModel {
    segments_applied(p, segments_of(tokens))
}

fn apply_segment(out: &mut Pound, tokens: &Vec<MetaToken>, start: usize, end: usize)
    requires
        start < end <= tokens@.len(),
    ensures
        final(out)@ == segment_applied(old(out)@, tokens_view(tokens@).subrange(start as int, end as int)),
{
    let ghost segment = tokens_view(tokens@).subrange(start as int, end as int);
    assert(segment[0] == tokens@[start as int]@);
    match &tokens[start] {
        MetaToken::Ident(key) => {
            let mut value: Option<String> = None;
            if end - start >= 3 {
                assert(segment[1] == tokens@[start + 1]@);
                assert(segment[2] == tokens@[start + 2]@);
                match &tokens[start + 1] {
                    MetaToken::Punct(c) => {
                        if *c == '=' {
                            value = Some(unquote(&tokens[start + 2]));
                        }
                    },
                    _ => {},
                }
            } else if end - start == 2 {
                assert(segment[1] == tokens@[start + 1]@);
            }
            apply_meta(out, key.as_str(), value);
        },
        _ => {},
    }
}

/// Split the comma-separated metas of `pound(...)`'s tokens and apply each
/// in order.
pub fn apply_metas(out: &mut Pound, tokens: &Vec<MetaToken>)
    ensures
        final(out)@ == metas_applied(old(out)@, tokens_view(tokens@)),
{
    let ghost all = tokens_view(tokens@);
    let mut start: usize = 0;
    let mut i: usize = 0;
    while i < tokens.len()
        invariant
            start <= i <= tokens@.len(),
            all == tokens_view(tokens@),
            ({
                let (segments, current) = token_segments(all.subrange(0, i as int));
                out@ == segments_applied(old(out)@, segments) && current == all.subrange(start as int, i as int)
            }),
        decreases tokens@.len() - i,
    {
        let ghost prefix = all.subrange(0, i + 1);
        assert(prefix.drop_last() =~= all.subrange(0, i as int));
        assert(prefix.last() == tokens@[i as int]@);
        let ghost (segments, current) = token_segments(all.subrange(0, i as int));
        let is_comma = match &tokens[i] {
            MetaToken::Punct(c) => *c == ',',
            _ => false,
        };
        if is_comma {
            if start < i {
                apply_segment(out, tokens, start, i);
                assert(segments.push(current).drop_last() =~= segments);
            }
            start = i + 1;
            assert(all.subrange(start as int, i + 1) =~= Seq::<MetaTokenModel>::empty());
        } else {
            assert(all.subrange(start as int, i + 1) =~= current.push(all[i as int]));
        }
        i += 1;
    }
    assert(all.subrange(0, tokens@.len() as int) =~= all);
    let ghost (segments, current) = token_segments(all);
    if start < tokens.len() {
        apply_segment(out, tokens, start, tokens.len());
        assert(segments.push(current).drop_last() =~= segments);
    }
}


/// No option set.
pub open spec fn pound_default() -> PoundModel {
    PoundModel {
        short: None,
        long: None,
        positional: false,
        trailing: false,
        count: false,
        subcommand: false,
        hidden: false,
        global: false,
        group: None,
        default: None,
        default_missing: None,
        env: None,
        value_name: None,
        help: None,
        long_help: None,
        heading: None,
        name: None,
        version: None,
        min: None,
        max: None,
        max_len: None,
        min_values: None,
        max_values: None,
        parse: None,
        validate: None,
        negate: None,
        required_groups: Seq::empty(),
        conflicts_with: Seq::empty(),
        requires: Seq::empty(),
        aliases: Seq::empty(),
    }
}

/// The options the `pound(...)` attributes among `attrs` set, in order.
pub open spec fn pound_attributes_applied(attrs: Seq<MetaAttribute>) -> PoundModel
    decreases attrs.len(),
{
    if attrs.len() == 0 {
        pound_default()
    } else {
        let before = pound_attributes_applied(attrs.drop_last());
        let attr = attrs.last();
        if path_is_model(tokens_view(attr.path@), "pound"@) {
            match attr.value {
                MetaValue::Group(tokens) => metas_applied(before, tokens_view(tokens@)),
                _ => before,
            }
        } else {
            before
        }
    }
}

/// Collect the options of the `pound(...)` attributes.
pub fn pound_of_attributes(attrs: &Vec<MetaAttribute>) -> (options: Pound)
    ensures
        options@ == pound_attributes_applied(attrs@),
{
    let mut out = Pound::default();
    let mut i: usize = 0;
    while i < attrs.len()
        invariant
            i <= attrs@.len(),
            out@ == pound_attributes_applied(attrs@.subrange(0, i as int)),
        decreases attrs@.len() - i,
    {
        assert(attrs@.subrange(0, i + 1).drop_last() =~= attrs@.subrange(0, i as int));
        let attr = &attrs[i];
        if path_is(attr, "pound") {
            match &attr.value {
                MetaValue::Group(tokens) => apply_metas(&mut out, tokens),
                _ => {},
            }
        }
        i += 1;
    }
    assert(attrs@.subrange(0, attrs@.len() as int) =~= attrs@);
    out
}

/// The doc-comment lines among `attrs`: the text of the first token of each
/// `doc = ...` attribute.
pub open spec fn doc_lines(attrs: Seq<MetaAttribute>) -> Seq<Seq<char>>
    decreases attrs.len(),
{
    if attrs.len() == 0 {
        Seq::empty()
    } else {
        let before = doc_lines(attrs.drop_last());
        let attr = attrs.last();
        if path_is_model(tokens_view(attr.path@), "doc"@) {
            match attr.value {
                MetaValue::Equals(tokens) => if tokens@.len() > 0 {
                    before.push(unquote_model(tokens@[0]@))
                } else {
                    before
                },
                _ => before,
            }
        } else {
            before
        }
    }
}

/// The doc text built from `lines` so far, and whether the next line opens
/// a paragraph: each line trimmed, the lines of a paragraph joined by a
/// space, a blank line a paragraph break.
pub open spec fn doc_state(lines: Seq<Seq<char>>) -> (Seq<char>, bool)
    decreases lines.len(),
{
    if lines.len() == 0 {
        (Seq::empty(), true)
    } else {
        let (text, fresh) = doc_state(lines.drop_last());
        let line = trim_text(lines.last());
        if line.len() == 0 {
            (if text.len() > 0 { text + seq!['\n', '\n'] } else { text }, true)
        } else {
            ((if fresh { text } else { text.push(' ') }) + line, false)
        }
    }
}

/// The doc comment made of `lines`, trimmed.
pub open spec fn doc_of(lines: Seq<Seq<char>>) -> Seq<char> {
    trim_text(doc_state(lines).0)
}

/// The doc comment made of the given lines: paragraphs of lines joined by a
/// space, a blank line kept as a paragraph break.
pub fn doc_text(lines: &Vec<String>) -> (text: String)
    ensures
        text@ == doc_of(strings_view(lines@)),
{
    let ghost all = strings_view(lines@);
    let mut out = String::new();
    let mut fresh = true;
    let mut i: usize = 0;
    assert(all.subrange(0, 0) =~= Seq::<Seq<char>>::empty());
    while i < lines.len()
        invariant
            i <= lines@.len(),
            all == strings_view(lines@),
            doc_state(all.subrange(0, i as int)) == (out@, fresh),
        decreases lines@.len() - i,
    {
        assert(all.subrange(0, i + 1).drop_last() =~= all.subrange(0, i as int));
        assert(all.subrange(0, i + 1).last() == lines@[i as int]@);
        let line = trimmed(lines[i].as_str());
        let line_chars = chars_of(line.as_str());
        if line_chars.len() == 0 {
            let out_chars = chars_of(out.as_str());
            if out_chars.len() > 0 {
                push_str(&mut out, "\n\n");
                proof {
                    reveal_strlit("\n\n");
                }
                assert(out@ =~= doc_state(all.subrange(0, i as int)).0 + seq!['\n', '\n']);
            }
            fresh = true;
        } else {
            if !fresh {
                push_char(&mut out, ' ');
            }
            push_str(&mut out, line.as_str());
            fresh = false;
        }
        i += 1;
    }
    assert(all.subrange(0, lines@.len() as int) =~= all);
    trimmed(out.as_str())
}

/// The doc comment of an item or field, empty when it has none.
pub fn doc_of_attributes(attrs: &Vec<MetaAttribute>) -> (text: String)
    ensures
        text@ == doc_of(doc_lines(attrs@)),
{
    let mut lines: Vec<String> = Vec::new();
    let mut i: usize = 0;
    while i < attrs.len()
        invariant
            i <= attrs@.len(),
            strings_view(lines@) == doc_lines(attrs@.subrange(0, i as int)),
        decreases attrs@.len() - i,
    {
        assert(attrs@.subrange(0, i + 1).drop_last() =~= attrs@.subrange(0, i as int));
        let attr = &attrs[i];
        if path_is(attr, "doc") {
            match &attr.value {
                MetaValue::Equals(tokens) => {
                    if tokens.len() > 0 {
                        let ghost before = lines@;
                        let line = unquote(&tokens[0]);
                        let ghost added = line@;
                        lines.push(line);
                        assert(strings_view(lines@) =~= strings_view(before).push(added));
                    }
                },
                _ => {},
            }
        }
        i += 1;
    }
    assert(attrs@.subrange(0, attrs@.len() as int) =~= attrs@);
    doc_text(&lines)
}


#[verifier::external_type_specification]
#[verifier::external_body]
pub struct ExAttribute(venial::Attribute);

#[verifier::external_type_specification]
#[verifier::external_body]
pub struct ExTokenTree(proc_macro2::TokenTree);

/// The tokens after an attribute's path, told apart by how they were
/// written.
enum ValueTrees<'a> {
    Group(&'a Vec<proc_macro2::TokenTree>),
    Equals(&'a Vec<proc_macro2::TokenTree>),
    Empty,
}

/// A `proc_macro2::TokenTree` as a `MetaToken`: an identifier and a literal
/// by their `to_string`, a punctuation character by `Punct::as_char`, a
/// group by its `to_string`. Nothing is stated of the result: the token is
/// opaque here.
#[verifier::external_body]
fn meta_token(tree: &proc_macro2::TokenTree) -> MetaToken {
    match tree {
        proc_macro2::TokenTree::Ident(id) => MetaToken::Ident(id.to_string()),
        proc_macro2::TokenTree::Punct(p) => MetaToken::Punct(p.as_char()),
        proc_macro2::TokenTree::Literal(l) => MetaToken::Literal(l.to_string()),
        proc_macro2::TokenTree::Group(g) => MetaToken::Other(g.to_string()),
    }
}

/// The `path` field of a `venial::Attribute`. Nothing is stated of it.
#[verifier::external_body]
fn attribute_path(attr: &venial::Attribute) -> &Vec<proc_macro2::TokenTree> {
    &attr.path
}

/// The `value` field of a `venial::Attribute`, by its `AttributeValue`
/// variant with its tokens. Nothing is stated of it.
#[verifier::external_body]
fn attribute_value(attr: &venial::Attribute) -> ValueTrees<'_> {
    match &attr.value {
        venial::AttributeValue::Group(_, tokens) => ValueTrees::Group(tokens),
        venial::AttributeValue::Equals(_, tokens) => ValueTrees::Equals(tokens),
        venial::AttributeValue::Empty => ValueTrees::Empty,
    }
}

fn meta_tokens(trees: &Vec<proc_macro2::TokenTree>) -> (tokens: Vec<MetaToken>)
    ensures
        tokens@.len() == trees@.len(),
{
    let mut tokens: Vec<MetaToken> = Vec::new();
    let mut i: usize = 0;
    while i < trees.len()
        invariant
            i <= trees@.len(),
            tokens@.len() == i,
        decreases trees@.len() - i,
    {
        tokens.push(meta_token(&trees[i]));
        i += 1;
    }
    tokens
}

fn meta_attribute(attr: &venial::Attribute) -> MetaAttribute {
    let path = meta_tokens(attribute_path(attr));
    let value = match attribute_value(attr) {
        ValueTrees::Group(trees) => MetaValue::Group(meta_tokens(trees)),
        ValueTrees::Equals(trees) => MetaValue::Equals(meta_tokens(trees)),
        ValueTrees::Empty => MetaValue::Empty,
    };
    MetaAttribute { path, value }
}

fn meta_attributes(attrs: &[venial::Attribute]) -> (metas: Vec<MetaAttribute>)
    ensures
        metas@.len() == attrs@.len(),
{
    let mut metas: Vec<MetaAttribute> = Vec::new();
    let mut i: usize = 0;
    while i < attrs.len()
        invariant
            i <= attrs@.len(),
            metas@.len() == i,
        decreases attrs@.len() - i,
    {
        metas.push(meta_attribute(&attrs[i]));
        i += 1;
    }
    metas
}

/// Collect the `pound(...)` options of a set of attributes: the attributes
/// read as `MetaAttribute`s, one for each, and their options collected.
pub fn pound(attrs: &[venial::Attribute]) -> (options: Pound)
    ensures
        exists|metas: Seq<MetaAttribute>|
            #![auto]
            metas.len() == attrs@.len() && options@ == pound_attributes_applied(metas),
{
    let metas = meta_attributes(attrs);
    pound_of_attributes(&metas)
}

/// The doc comment of an item or field, empty when it has none: the
/// attributes read as `MetaAttribute`s, one for each, and their doc lines
/// joined.
pub fn doc(attrs: &[venial::Attribute]) -> (text: String)
    ensures
        exists|metas: Seq<MetaAttribute>| #![auto] metas.len() == attrs@.len() && text@ == doc_of(doc_lines(metas)),
{
    let metas = meta_attributes(attrs);
    doc_of_attributes(&metas)
}

} // verus!
