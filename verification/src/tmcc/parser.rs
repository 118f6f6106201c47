//! Parser for the lines of a controller reply.
//!
//! A line is a sequence of tokens separated by single spaces. The first
//! token may be a bare word, which names the kind of the line; every other
//! token is `KEY=VALUE`. A key is a run of the letters `A` to `Z`. A value is
//! either enclosed in double quotes, and can then hold anything but a double
//! quote, or it is a run of bytes other than the space:
//!
//! > ADDUSER LOGIN=alice PSWD=* UID=20001 GID=6418 ROOT=1 NAME="Alice" HOMEDIR=/users/alice
//!
//! The grammar is stated over the bytes of the line; the parsed record holds
//! the keys and values as text.

use vstd::prelude::*;
use vstd::hash_map::StringHashMap;
use vstd::string::StringSliceAdditionalSpecFns;
use vstd::utf8::*;
use crate::error::{Error, ErrorView};
use crate::text::{bytes_of, lemma_ascii_byte_boundaries, parse_u16, read_u16, slice_str, text_of};

verus! {

/// The byte that separates tokens.
pub const SPACE: u8 = 0x20;

/// The byte that encloses a quoted value.
pub const QUOTE: u8 = 0x22;

/// The byte between a key and its value.
pub const EQUALS: u8 = 0x3d;

/// The line feed, which the text after a separator must not hold.
pub const NEWLINE: u8 = 0x0a;

/// The three kinds of byte runs that make up a token.
#[derive(Clone, Copy, Debug)]
pub enum ByteClass {
    /// The letters `A` to `Z`, of which keys are made.
    Key,
    /// Every byte but the space: the bytes of an unquoted value.
    Bare,
    /// Every byte but the double quote: the bytes of a quoted value.
    Quoted,
}

/// Whether a byte belongs to a class.
pub open spec fn in_class(class: ByteClass, b: u8) -> bool {
    match class {
        ByteClass::Key => 0x41 <= b <= 0x5a,
        ByteClass::Bare => b != SPACE,
        ByteClass::Quoted => b != QUOTE,
    }
}

/// The end of the longest run of bytes of `class` that starts at `pos`.
pub open spec fn span_end(line: Seq<u8>, pos: int, class: ByteClass) -> int
    decreases line.len() - pos,
{
    if 0 <= pos < line.len() && in_class(class, line[pos]) {
        span_end(line, pos + 1, class)
    } else {
        pos
    }
}

/// Whether no line feed occurs at or after `from`.
pub open spec fn newline_free_from(line: Seq<u8>, from: int) -> bool {
    forall|i: int| from <= i < line.len() ==> line[i] != NEWLINE
}

/// Whether a token may end at `end`: the line ends there, or a single space
/// follows and after it at least one more byte and no line feed.
pub open spec fn may_end_at(line: Seq<u8>, end: int) -> bool {
    end == line.len() || (0 <= end < line.len() && line[end] == SPACE && end + 1 < line.len()
        && newline_free_from(line, end + 1))
}

/// One token of a line.
pub ghost struct Token {
    /// The key, or the bare word.
    pub key: Seq<u8>,
    /// The value without its quotes; `None` for a bare word.
    pub value: Option<Seq<u8>>,
    /// Whether the value stood in double quotes.
    pub quoted: bool,
    /// The position just after the token.
    pub end: int,
}

/// The token that starts at `pos`, if there is one.
///
/// A value in double quotes is preferred. Where the text after `=` starts
/// with a double quote but is not a quoted value that may end where it does,
/// the value is the unquoted run, quotes included.
pub open spec fn token_at(line: Seq<u8>, pos: int) -> Option<Token> {
    let k = span_end(line, pos, ByteClass::Key);
    let key = line.subrange(pos, k);
    if k <= pos {
        None
    } else if k < line.len() && line[k] == EQUALS {
        let q = span_end(line, k + 2, ByteClass::Quoted);
        let v = span_end(line, k + 1, ByteClass::Bare);
        if k + 1 < line.len() && line[k + 1] == QUOTE && q < line.len() && may_end_at(line, q + 1) {
            Some(Token { key, value: Some(line.subrange(k + 2, q)), quoted: true, end: q + 1 })
        } else if v > k + 1 && may_end_at(line, v) {
            Some(Token { key, value: Some(line.subrange(k + 1, v)), quoted: false, end: v })
        } else {
            None
        }
    } else if may_end_at(line, k) {
        Some(Token { key, value: None, quoted: false, end: k })
    } else {
        None
    }
}

/// The tokens of the line from `pos` on, or the position of the first token
/// that cannot be read. A bare word is read only where `first` holds.
pub open spec fn parse_from(line: Seq<u8>, pos: int, first: bool) -> Result<Seq<Token>, int>
    decreases line.len() - pos,
{
    match token_at(line, pos) {
        None => Err(pos),
        Some(t) => {
            if t.value is None && !first {
                Err(pos)
            } else if t.end >= line.len() {
                Ok(seq![t])
            } else {
                proof {
                    if 0 <= pos <= line.len() {
                        lemma_token_at(line, pos);
                    }
                }
                match parse_from(line, t.end + 1, false) {
                    Ok(rest) => Ok(seq![t] + rest),
                    Err(p) => Err(p),
                }
            }
        },
    }
}

/// The tokens of a whole line, or the position of the first token that
/// cannot be read.
pub open spec fn parse_line(line: Seq<u8>) -> Result<Seq<Token>, int> {
    parse_from(line, 0, true)
}

/// A run ends at or after its start and within the line, every byte of it
/// belongs to the class, and the byte after it, if any, does not.
pub proof fn lemma_span_end(line: Seq<u8>, pos: int, class: ByteClass)
    requires
        0 <= pos <= line.len(),
    ensures
        pos <= span_end(line, pos, class) <= line.len(),
        forall|i: int| pos <= i < span_end(line, pos, class) ==> in_class(class, #[trigger] line[i]),
        span_end(line, pos, class) < line.len() ==> !in_class(
            class,
            line[span_end(line, pos, class)],
        ),
    decreases line.len() - pos,
{
    if pos < line.len() && in_class(class, line[pos]) {
        lemma_span_end(line, pos + 1, class);
    }
}

/// A token lies within the line, starts with at least one key byte, and
/// ends after its start.
pub proof fn lemma_token_at(line: Seq<u8>, pos: int)
    requires
        0 <= pos <= line.len(),
        token_at(line, pos) is Some,
    ensures
        pos < token_at(line, pos).unwrap().end <= line.len(),
        may_end_at(line, token_at(line, pos).unwrap().end),
        token_at(line, pos).unwrap().key.len() > 0,
{
    let k = span_end(line, pos, ByteClass::Key);
    lemma_span_end(line, pos, ByteClass::Key);
    if k < line.len() && line[k] == EQUALS {
        lemma_span_end(line, k + 1, ByteClass::Bare);
        if k + 2 <= line.len() {
            lemma_span_end(line, k + 2, ByteClass::Quoted);
        }
    }
}

/// Where a token lies in the line, as found by the scanner.
struct TokenSpan {
    /// The position just after the key.
    key_end: usize,
    /// Whether a value follows the key.
    has_value: bool,
    /// Whether the value stands in double quotes.
    quoted: bool,
    /// The first position of the value, without its opening quote.
    value_start: usize,
    /// The position just after the value, without its closing quote.
    value_end: usize,
    /// The position just after the token.
    end: usize,
}

impl TokenSpan {
    /// The token that the span marks in `line`, one starting at `pos`.
    spec fn token(&self, line: Seq<u8>, pos: int) -> Token {
        Token {
            key: line.subrange(pos, self.key_end as int),
            value: if self.has_value {
                Some(line.subrange(self.value_start as int, self.value_end as int))
            } else {
                None
            },
            quoted: self.quoted,
            end: self.end as int,
        }
    }

    /// The positions are in order, and each one that text is cut at has an
    /// ASCII byte, or an end of the line, beside it.
    spec fn well_placed(&self, line: Seq<u8>, pos: int) -> bool {
        &&& pos < self.key_end <= self.end <= line.len()
        &&& self.key_end == line.len() || line[self.key_end as int] < 0x80
        &&& self.end == line.len() || line[self.end as int] == SPACE
        &&& self.has_value ==> {
            &&& self.key_end < self.value_start <= self.value_end <= self.end
            &&& line[self.value_start - 1] < 0x80
            &&& self.value_end == line.len() || line[self.value_end as int] < 0x80
        }
    }
}

/// Whether a byte belongs to a class.
fn belongs(class: ByteClass, b: u8) -> (r: bool)
    ensures
        r == in_class(class, b),
{
    match class {
        ByteClass::Key => 0x41 <= b && b <= 0x5a,
        ByteClass::Bare => b != SPACE,
        ByteClass::Quoted => b != QUOTE,
    }
}

/// The end of the longest run of bytes of `class` that starts at `pos`.
fn scan(line: &[u8], pos: usize, class: ByteClass) -> (end: usize)
    requires
        pos <= line@.len(),
    ensures
        end == span_end(line@, pos as int, class),
        pos <= end <= line@.len(),
{
    let mut i: usize = pos;
    while i < line.len() && belongs(class, line[i])
        invariant
            pos <= i <= line@.len(),
            span_end(line@, pos as int, class) == span_end(line@, i as int, class),
        decreases line@.len() - i,
    {
        i += 1;
    }
    i
}

/// The least position from which on the line holds no line feed.
fn clean_tail_start(line: &[u8]) -> (start: usize)
    ensures
        start <= line@.len(),
        forall|p: int| 0 <= p <= line@.len() ==> (newline_free_from(line@, p) <==> start <= p),
{
    let mut start: usize = 0;
    let mut i: usize = 0;
    while i < line.len()
        invariant
            start <= i <= line@.len(),
            forall|j: int| start <= j < i ==> line@[j] != NEWLINE,
            start > 0 ==> line@[start - 1] == NEWLINE,
        decreases line@.len() - i,
    {
        if line[i] == NEWLINE {
            start = i + 1;
        }
        i += 1;
    }
    start
}

/// Whether a token may end at `end`.
fn ends_well(line: &[u8], end: usize, clean: usize) -> (ok: bool)
    requires
        end <= line@.len(),
        forall|p: int| 0 <= p <= line@.len() ==> (newline_free_from(line@, p) <==> clean <= p),
    ensures
        ok == may_end_at(line@, end as int),
{
    end == line.len() || (line[end] == SPACE && end + 1 < line.len() && clean <= end + 1)
}

/// Scans the token that starts at `pos`.
fn scan_token(line: &[u8], pos: usize, clean: usize) -> (r: Option<TokenSpan>)
    requires
        pos <= line@.len(),
        forall|p: int| 0 <= p <= line@.len() ==> (newline_free_from(line@, p) <==> clean <= p),
    ensures
        match r {
            Some(span) => token_at(line@, pos as int) == Some(span.token(line@, pos as int))
                && span.well_placed(line@, pos as int),
            None => token_at(line@, pos as int) is None,
        },
{
    let n = line.len();
    let k = scan(line, pos, ByteClass::Key);
    proof {
        lemma_span_end(line@, pos as int, ByteClass::Key);
    }
    if k == pos {
        return None;
    }
    if k < n && line[k] == EQUALS {
        proof {
            lemma_span_end(line@, k + 1, ByteClass::Bare);
        }
        if k + 1 < n && line[k + 1] == QUOTE {
            let q = scan(line, k + 2, ByteClass::Quoted);
            proof {
                lemma_span_end(line@, k + 2, ByteClass::Quoted);
            }
            if q < n && ends_well(line, q + 1, clean) {
                return Some(
                    TokenSpan {
                        key_end: k,
                        has_value: true,
                        quoted: true,
                        value_start: k + 2,
                        value_end: q,
                        end: q + 1,
                    },
                );
            }
        }
        let v = scan(line, k + 1, ByteClass::Bare);
        if v > k + 1 && ends_well(line, v, clean) {
            Some(
                TokenSpan {
                    key_end: k,
                    has_value: true,
                    quoted: false,
                    value_start: k + 1,
                    value_end: v,
                    end: v,
                },
            )
        } else {
            None
        }
    } else if ends_well(line, k, clean) {
        Some(
            TokenSpan {
                key_end: k,
                has_value: false,
                quoted: false,
                value_start: k,
                value_end: k,
                end: k,
            },
        )
    } else {
        None
    }
}

/// The mathematical value of a parsed line.
pub ghost struct ResponseView {
    /// The line as it was given to the parser.
    pub line: Seq<char>,
    /// The bare word at the start of the line, if there is one.
    pub response_type: Option<Seq<char>>,
    /// The value of each key; where a key occurs more than once, its last
    /// value.
    pub kv: Map<Seq<char>, Seq<char>>,
}

/// The values that the tokens give to their keys, later tokens overriding
/// earlier ones.
pub open spec fn kv_of(tokens: Seq<Token>) -> Map<Seq<char>, Seq<char>>
    decreases tokens.len(),
{
    if tokens.len() == 0 {
        Map::empty()
    } else {
        let earlier = kv_of(tokens.drop_last());
        match tokens.last().value {
            Some(value) => earlier.insert(text_of(tokens.last().key), text_of(value)),
            None => earlier,
        }
    }
}

/// The bare word that the tokens start with, if they do.
pub open spec fn type_of(tokens: Seq<Token>) -> Option<Seq<char>> {
    if tokens.len() > 0 && tokens[0].value is None {
        Some(text_of(tokens[0].key))
    } else {
        None
    }
}

/// The record that a line with the given tokens is parsed to.
pub open spec fn response_of(line: Seq<char>, tokens: Seq<Token>) -> ResponseView {
    ResponseView { line, response_type: type_of(tokens), kv: kv_of(tokens) }
}

/// What a whole parse comes to when `done` has been read and `rest` is the
/// outcome for the remainder.
pub open spec fn after(done: Seq<Token>, rest: Result<Seq<Token>, int>) -> Result<Seq<Token>, int> {
    match rest {
        Ok(tokens) => Ok(done + tokens),
        Err(p) => Err(p),
    }
}

/// A parsed reply line.
pub struct Response {
    line: String,
    response_type: Option<String>,
    kv: StringHashMap<String>,
}

/// The texts that a map from keys to strings holds.
pub open spec fn texts(kv: Map<Seq<char>, String>) -> Map<Seq<char>, Seq<char>> {
    Map::new(|k: Seq<char>| kv.contains_key(k), |k: Seq<char>| kv[k]@)
}

impl View for Response {
    type V = ResponseView;

    closed spec fn view(&self) -> ResponseView {
        ResponseView {
            line: self.line@,
            response_type: match self.response_type {
                Some(word) => Some(word@),
                None => None,
            },
            kv: texts(self.kv@),
        }
    }
}

impl Response {
    /// Parses a line.
    ///
    /// Succeeds exactly on the lines that the grammar accepts, and then
    /// holds the bare word and the value of every key. On any other line the
    /// error names the byte offset of the first token that cannot be read,
    /// which is never beyond the end of the line.
    pub fn parse(line: &str) -> (r: Result<Response, Error>)
        ensures
            match parse_line(bytes_of(line@)) {
                Ok(tokens) => r matches Ok(response) && response@ == response_of(line@, tokens),
                Err(position) => r matches Err(e) && e@ == (ErrorView::TmcdBadLine {
                    line: line@,
                    position,
                }) && 0 <= position <= bytes_of(line@).len(),
            },
    {
        let bytes = line.as_bytes();
        let n = bytes.len();
        let clean = clean_tail_start(bytes);
        let mut kv: StringHashMap<String> = StringHashMap::new();
        let mut response_type: Option<String> = None;
        let mut pos: usize = 0;
        let mut first = true;
        let ghost mut done: Seq<Token> = Seq::empty();
        proof {
            encode_utf8_valid_utf8(line@);
            is_char_boundary_start_end_of_seq(bytes@);
            assert(texts(kv@) =~= kv_of(done));
            assert(done + parse_from(bytes@, 0, true)->Ok_0 =~= parse_from(bytes@, 0, true)->Ok_0);
        }
        loop
            invariant
                bytes@ == bytes_of(line@),
                n == bytes@.len(),
                valid_utf8(bytes@),
                forall|p: int|
                    0 <= p <= bytes@.len() ==> (newline_free_from(bytes@, p) <==> clean <= p),
                pos <= n,
                is_char_boundary(bytes@, pos as int),
                is_char_boundary(bytes@, n as int),
                first == (done.len() == 0),
                parse_line(bytes@) == after(done, parse_from(bytes@, pos as int, first)),
                texts(kv@) == kv_of(done),
                type_of(done) == match response_type {
                    Some(word) => Some(word@),
                    None => None,
                },
            decreases n - pos,
        {
            let span = match scan_token(bytes, pos, clean) {
                Some(span) => span,
                None => {
                    return Err(Error::TmcdBadLine { line: line.to_owned(), position: pos });
                },
            };
            let ghost token = span.token(bytes@, pos as int);
            proof {
                if span.key_end < n {
                    lemma_ascii_byte_boundaries(bytes@, span.key_end as int);
                }
                if span.has_value {
                    lemma_ascii_byte_boundaries(bytes@, span.value_start - 1);
                    if span.value_end < n {
                        lemma_ascii_byte_boundaries(bytes@, span.value_end as int);
                    }
                }
                if span.end < n {
                    lemma_ascii_byte_boundaries(bytes@, span.end as int);
                }
            }
            let key = slice_str(line, pos, span.key_end);
            if span.has_value {
                let value = slice_str(line, span.value_start, span.value_end);
                kv.insert(key.to_owned(), value.to_owned());
                proof {
                    assert(done.push(token).drop_last() =~= done);
                    assert(texts(kv@) =~= kv_of(done.push(token)));
                }
            } else {
                if !first {
                    return Err(Error::TmcdBadLine { line: line.to_owned(), position: pos });
                }
                response_type = Some(key.to_owned());
                proof {
                    assert(done.push(token).drop_last() =~= done);
                }
            }
            proof {
                let rest = parse_from(bytes@, pos as int, first);
                if span.end < n {
                    let tail = parse_from(bytes@, span.end + 1, false);
                    assert(rest == after(seq![token], tail));
                    if tail is Ok {
                        assert(done + (seq![token] + tail->Ok_0) =~= done.push(token)
                            + tail->Ok_0);
                    }
                } else {
                    assert(done + seq![token] =~= done.push(token));
                }
                done = done.push(token);
            }
            first = false;
            if span.end >= n {
                proof {
                    assert(parse_line(bytes@) == Ok::<Seq<Token>, int>(done));
                }
                return Ok(Response { line: line.to_owned(), response_type, kv });
            }
            pos = span.end + 1;
        }
    }

    /// Returns the bare word at the start of the line, if there is one.
    pub fn response_type(&self) -> (r: Option<&str>)
        ensures
            match r {
                Some(word) => self@.response_type == Some(word@),
                None => self@.response_type is None,
            },
    {
        match &self.response_type {
            Some(word) => Some(word.as_str()),
            None => None,
        }
    }

    /// Returns the value of a key as it stood in the line.
    pub fn get(&self, key: &str) -> (r: Result<&String, Error>)
        ensures
            match r {
                Ok(value) => self@.kv.contains_key(key@) && value@ == self@.kv[key@],
                Err(e) => !self@.kv.contains_key(key@) && e@ == (ErrorView::TmcdMissingKey {
                    key: key@,
                    line: self@.line,
                }),
            },
    {
        match self.kv.get(key) {
            Some(value) => Ok(value),
            None => Err(Error::TmcdMissingKey { key: key.to_owned(), line: self.line.clone() }),
        }
    }

    /// Reads the value of a key as a `T`.
    ///
    /// Fails with `TmcdMissingKey` where the line does not hold the key, and
    /// with `TmcdBadValue` where its value does not read as a `T`.
    pub fn get_parsed<T: FromValue>(&self, key: &str) -> (r: Result<T, Error>)
        ensures
            match r {
                Ok(value) => self@.kv.contains_key(key@) && T::read(self@.kv[key@]) == Some(
                    value@,
                ),
                Err(e) => if self@.kv.contains_key(key@) {
                    T::read(self@.kv[key@]) is None && e@ == (ErrorView::TmcdBadValue {
                        key: key@,
                        value: self@.kv[key@],
                    })
                } else {
                    e@ == (ErrorView::TmcdMissingKey { key: key@, line: self@.line })
                },
            },
    {
        match self.kv.get(key) {
            Some(value) => match T::from_value(value.as_str()) {
                Some(parsed) => Ok(parsed),
                None => Err(Error::TmcdBadValue { key: key.to_owned(), value: value.clone() }),
            },
            None => Err(Error::TmcdMissingKey { key: key.to_owned(), line: self.line.clone() }),
        }
    }
}

/// A type that the value of a key can be read as.
pub trait FromValue: Sized + View {
    /// What a text reads as, if it can be read.
    spec fn read(text: Seq<char>) -> Option<Self::V>;

    /// Reads a text.
    fn from_value(text: &str) -> (r: Option<Self>)
        ensures
            match r {
                Some(value) => Self::read(text@) == Some(value@),
                None => Self::read(text@) is None,
            },
    ;
}

impl FromValue for String {
    /// Every text reads as itself.
    open spec fn read(text: Seq<char>) -> Option<Seq<char>> {
        Some(text)
    }

    fn from_value(text: &str) -> (r: Option<String>) {
        Some(text.to_owned())
    }
}

impl FromValue for u16 {
    /// A text reads as the decimal number that it spells.
    open spec fn read(text: Seq<char>) -> Option<u16> {
        read_u16(bytes_of(text))
    }

    fn from_value(text: &str) -> (r: Option<u16>) {
        parse_u16(text)
    }
}

/// Whether a token has the shape that the grammar gives to tokens: a key
/// of at least one letter `A` to `Z`, and a value that, in quotes, holds no
/// double quote, and, without quotes, is not empty and holds no space.
pub open spec fn well_shaped(token: Token) -> bool {
    &&& token.key.len() > 0
    &&& forall|i: int| 0 <= i < token.key.len() ==> in_class(ByteClass::Key, token.key[i])
    &&& token.value matches Some(value) ==> if token.quoted {
        forall|i: int| 0 <= i < value.len() ==> value[i] != QUOTE
    } else {
        value.len() > 0 && forall|i: int| 0 <= i < value.len() ==> value[i] != SPACE
    }
}

/// Every token that is read from a line is well shaped.
pub proof fn lemma_token_at_shape(line: Seq<u8>, pos: int)
    requires
        0 <= pos <= line.len(),
        token_at(line, pos) is Some,
    ensures
        well_shaped(token_at(line, pos).unwrap()),
{
    let k = span_end(line, pos, ByteClass::Key);
    lemma_span_end(line, pos, ByteClass::Key);
    if k < line.len() && line[k] == EQUALS {
        lemma_span_end(line, k + 1, ByteClass::Bare);
        if k + 2 <= line.len() {
            lemma_span_end(line, k + 2, ByteClass::Quoted);
        }
    }
}

/// Every token of a line that the grammar accepts is well shaped.
pub proof fn lemma_parse_from_shapes(line: Seq<u8>, pos: int, first: bool, i: int)
    requires
        0 <= pos <= line.len(),
        parse_from(line, pos, first) is Ok,
        0 <= i < parse_from(line, pos, first)->Ok_0.len(),
    ensures
        well_shaped(parse_from(line, pos, first)->Ok_0[i]),
    decreases line.len() - pos,
{
    let t = token_at(line, pos).unwrap();
    lemma_token_at(line, pos);
    lemma_token_at_shape(line, pos);
    if t.end < line.len() && i > 0 {
        lemma_parse_from_shapes(line, t.end + 1, false, i - 1);
    }
}

/// The value that the tokens give to the key of one of them is the value
/// of that token, unless a later token has the same key.
pub proof fn lemma_kv_of(tokens: Seq<Token>, i: int)
    requires
        0 <= i < tokens.len(),
        tokens[i].value is Some,
        forall|j: int|
            i < j < tokens.len() && tokens[j].value is Some ==> text_of(tokens[j].key) != text_of(
                tokens[i].key,
            ),
    ensures
        kv_of(tokens).contains_key(text_of(tokens[i].key)),
        kv_of(tokens)[text_of(tokens[i].key)] == text_of(tokens[i].value.unwrap()),
    decreases tokens.len(),
{
    if i < tokens.len() - 1 {
        let init = tokens.drop_last();
        lemma_kv_of(init, i);
    }
}

/// For a line that the grammar accepts, the parsed record gives to the key
/// of every token the value that the token has in the line, unless a later
/// token has the same key; and every token is well shaped, so that no
/// unquoted value holds a space and no quoted value a double quote.
pub proof fn lemma_parse_line_values(line: Seq<char>, i: int)
    requires
        parse_line(bytes_of(line)) is Ok,
        0 <= i < parse_line(bytes_of(line))->Ok_0.len(),
    ensures
        ({
            let tokens = parse_line(bytes_of(line))->Ok_0;
            let record = response_of(line, tokens);
            &&& well_shaped(tokens[i])
            &&& tokens[i].value is Some && (forall|j: int|
                i < j < tokens.len() ==> text_of(tokens[j].key) != text_of(tokens[i].key))
                ==> record.kv.contains_key(text_of(tokens[i].key)) && record.kv[text_of(
                tokens[i].key,
            )] == text_of(tokens[i].value.unwrap())
        }),
{
    let tokens = parse_line(bytes_of(line))->Ok_0;
    lemma_parse_from_shapes(bytes_of(line), 0, true, i);
    if tokens[i].value is Some && (forall|j: int|
        i < j < tokens.len() ==> text_of(tokens[j].key) != text_of(tokens[i].key)) {
        lemma_kv_of(tokens, i);
    }
}

/// Where a line is not accepted, the position of the error lies within
/// the line or at its end, at or after the place from which it was read.
pub proof fn lemma_parse_from_error(line: Seq<u8>, pos: int, first: bool)
    requires
        0 <= pos <= line.len(),
    ensures
        parse_from(line, pos, first) matches Err(position) ==> pos <= position <= line.len(),
    decreases line.len() - pos,
{
    if token_at(line, pos) is Some {
        let t = token_at(line, pos).unwrap();
        lemma_token_at(line, pos);
        if t.end < line.len() {
            lemma_parse_from_error(line, t.end + 1, false);
        }
    }
}

/// A token as it is written in a line: the key alone, or the key, the
/// equals sign and the value, in double quotes where the token has them.
pub open spec fn written(token: Token) -> Seq<u8> {
    match token.value {
        None => token.key,
        Some(value) => if token.quoted {
            token.key + seq![EQUALS, QUOTE] + value + seq![QUOTE]
        } else {
            token.key + seq![EQUALS] + value
        },
    }
}

/// Tokens as they are written in a line: one after the other, with a
/// single space between each two of them.
pub open spec fn written_line(tokens: Seq<Token>) -> Seq<u8>
    decreases tokens.len(),
{
    if tokens.len() == 0 {
        Seq::empty()
    } else if tokens.len() == 1 {
        written(tokens[0])
    } else {
        written(tokens[0]) + seq![SPACE] + written_line(tokens.drop_first())
    }
}

/// A token is written in the line from its start to its end.
pub proof fn lemma_token_at_written(line: Seq<u8>, pos: int)
    requires
        0 <= pos <= line.len(),
        token_at(line, pos) is Some,
    ensures
        written(token_at(line, pos).unwrap()) == line.subrange(
            pos,
            token_at(line, pos).unwrap().end,
        ),
{
    let t = token_at(line, pos).unwrap();
    let k = span_end(line, pos, ByteClass::Key);
    lemma_span_end(line, pos, ByteClass::Key);
    if k < line.len() && line[k] == EQUALS {
        lemma_span_end(line, k + 1, ByteClass::Bare);
        if k + 2 <= line.len() {
            lemma_span_end(line, k + 2, ByteClass::Quoted);
        }
    }
    assert(written(t) =~= line.subrange(pos, t.end));
}

/// Parsing loses nothing: the tokens of a line that the grammar accepts,
/// written one after the other with single spaces between them, are the
/// line from the place at which they were read.
pub proof fn lemma_parse_from_written(line: Seq<u8>, pos: int, first: bool)
    requires
        0 <= pos <= line.len(),
        parse_from(line, pos, first) is Ok,
    ensures
        written_line(parse_from(line, pos, first)->Ok_0) == line.subrange(pos, line.len() as int),
    decreases line.len() - pos,
{
    let t = token_at(line, pos).unwrap();
    lemma_token_at(line, pos);
    lemma_token_at_written(line, pos);
    if t.end < line.len() {
        let rest = parse_from(line, t.end + 1, false)->Ok_0;
        lemma_parse_from_written(line, t.end + 1, false);
        lemma_token_at(line, t.end + 1);
        let all = seq![t] + rest;
        assert(all.drop_first() =~= rest);
        assert(written_line(all) =~= line.subrange(pos, line.len() as int));
    } else {
        assert(line.subrange(pos, t.end) =~= line.subrange(pos, line.len() as int));
    }
}

} // verus!
