//! The lines that a user types at the prompt of an open store.
//!
//! A line is one of `put KEY VALUE`, `get KEY`, `get_bytes KEY`,
//! `delete KEY`, `list`, `dump`, `header`, `journal` and `journal_gc`. A key
//! is decimal digits, or `0x` and hexadecimal digits in lower case. White
//! space parts a command from its key and a key from its value; `delete`
//! may do without. A value runs to the end of the line, white space
//! included, and holds no NUL. Anything else is no command.

use crate::args::key_from_bytes;
use crate::args::key_numeral;
use crate::args::ArgumentError;
use vstd::prelude::*;
use vstd::string::StrSliceExecFns;
use vstd::string::StringExecFns;

verus! {

/// A kind of character that a part of a line is made of.
#[derive(Clone, Copy, Debug, PartialEq, Eq, Structural)]
pub enum CharClass {
    /// White space, as Unicode has it.
    Space,
    /// `0` to `9`.
    Decimal,
    /// `0` to `9` and `a` to `f`.
    Hexadecimal,
}

/// A line as it is written: the parts of a command, or no command.
pub enum Line {
    Put { key: Seq<char>, value: Seq<char> },
    Get { key: Seq<char> },
    GetBytes { key: Seq<char> },
    Delete { key: Seq<char> },
    List,
    Dump,
    Header,
    Journal,
    JournalGc,
    Invalid,
}

/// What a line asks for.
#[derive(Debug, PartialEq, Eq)]
pub enum Command {
    /// Store `value` under `key`.
    Put { key: u128, value: String },
    /// Show what is stored under `key`, as text if it is text.
    Get { key: u128 },
    /// Show what is stored under `key`, byte by byte.
    GetBytes { key: u128 },
    /// Remove what is stored under `key`.
    Delete { key: u128 },
    /// Show every key.
    List,
    /// Show every key with what is stored under it.
    Dump,
    /// Show the header of the store.
    Header,
    /// Show the journal.
    Journal,
    /// Collect the garbage of the journal.
    JournalGc,
    /// The line is no command.
    Invalid,
}

/// White space: the characters with Unicode's property of that name.
pub open spec fn is_space(c: char) -> bool {
    ||| c == ' '
    ||| '\t' <= c <= '\r'
    ||| c == '\u{85}'
    ||| c == '\u{a0}'
    ||| c == '\u{1680}'
    ||| '\u{2000}' <= c <= '\u{200a}'
    ||| c == '\u{2028}'
    ||| c == '\u{2029}'
    ||| c == '\u{202f}'
    ||| c == '\u{205f}'
    ||| c == '\u{3000}'
}

/// `c` is of the class.
pub open spec fn belongs(class: CharClass, c: char) -> bool {
    match class {
        CharClass::Space => is_space(c),
        CharClass::Decimal => '0' <= c <= '9',
        CharClass::Hexadecimal => '0' <= c <= '9' || 'a' <= c <= 'f',
    }
}

/// Where the longest run of characters of the class that begins at `from`
/// ends.
pub open spec fn run_end(text: Seq<char>, from: int, class: CharClass) -> int
    decreases text.len() - from,
{
    if 0 <= from < text.len() && belongs(class, text[from]) {
        run_end(text, from + 1, class)
    } else {
        from
    }
}

/// Where the key that begins at `from` ends, if one begins there: after
/// `0x` the longest run of hexadecimal digits, which may not be empty;
/// otherwise the longest run of decimal digits, which may not be empty.
pub open spec fn key_end(text: Seq<char>, from: int) -> Option<int> {
    if 0 <= from && from + 1 < text.len() && text[from] == '0' && text[from + 1] == 'x' {
        let end = run_end(text, from + 2, CharClass::Hexadecimal);
        if end > from + 2 {
            Some(end)
        } else {
            None
        }
    } else {
        let end = run_end(text, from, CharClass::Decimal);
        if end > from {
            Some(end)
        } else {
            None
        }
    }
}

/// `text` begins with `word`.
pub open spec fn begins_with(text: Seq<char>, word: Seq<char>) -> bool {
    word.len() <= text.len() && text.take(word.len() as int) == word
}

/// The key of a line that is `word`, white space, a key and nothing more.
pub open spec fn key_after(text: Seq<char>, word: Seq<char>, space_needed: bool) -> Option<
    Seq<char>,
> {
    let from = run_end(text, word.len() as int, CharClass::Space);
    if !begins_with(text, word) || (space_needed && from == word.len()) {
        None
    } else {
        match key_end(text, from) {
            Some(end) => if end == text.len() {
                Some(text.subrange(from, end))
            } else {
                None
            },
            None => None,
        }
    }
}

/// Where the value of a `put` begins whose key ends at `key_end`: after all
/// the white space that follows the key, but so that one character is left
/// for the value.
pub open spec fn value_start(text: Seq<char>, key_end: int) -> int {
    let spaces_end = run_end(text, key_end, CharClass::Space);
    if spaces_end == text.len() {
        text.len() - 1
    } else {
        spaces_end
    }
}

/// The key and the value of a line that is `put`, white space, a key, white
/// space and a value.
pub open spec fn put_parts(text: Seq<char>) -> Option<(Seq<char>, Seq<char>)> {
    let word = seq!['p', 'u', 't'];
    let from = run_end(text, 3, CharClass::Space);
    if !begins_with(text, word) || from == 3 {
        None
    } else {
        match key_end(text, from) {
            Some(end) => {
                let start = value_start(text, end);
                let value = text.subrange(start, text.len() as int);
                if start > end && !value.contains('\0') {
                    Some((text.subrange(from, end), value))
                } else {
                    None
                }
            },
            None => None,
        }
    }
}

/// The command that a line is written as.
pub open spec fn line_of(text: Seq<char>) -> Line {
    if let Some(parts) = put_parts(text) {
        Line::Put { key: parts.0, value: parts.1 }
    } else if let Some(key) = key_after(text, seq!['g', 'e', 't'], true) {
        Line::Get { key }
    } else if let Some(key) = key_after(
        text,
        seq!['g', 'e', 't', '_', 'b', 'y', 't', 'e', 's'],
        true,
    ) {
        Line::GetBytes { key }
    } else if let Some(key) = key_after(text, seq!['d', 'e', 'l', 'e', 't', 'e'], false) {
        Line::Delete { key }
    } else if text == seq!['l', 'i', 's', 't'] {
        Line::List
    } else if text == seq!['d', 'u', 'm', 'p'] {
        Line::Dump
    } else if text == seq!['h', 'e', 'a', 'd', 'e', 'r'] {
        Line::Header
    } else if text == seq!['j', 'o', 'u', 'r', 'n', 'a', 'l'] {
        Line::Journal
    } else if text == seq!['j', 'o', 'u', 'r', 'n', 'a', 'l', '_', 'g', 'c'] {
        Line::JournalGc
    } else {
        Line::Invalid
    }
}

/// The bytes of a key as it is written.
pub open spec fn key_bytes_of(key: Seq<char>) -> Seq<u8> {
    Seq::new(key.len(), |at: int| key[at] as u8)
}

/// The number that a key stands for as it is written.
pub open spec fn key_number(key: Seq<char>) -> nat {
    key_numeral(key_bytes_of(key)).unwrap()
}

/// `command` is what `line` asks for, with each key as a number.
pub open spec fn asks_for(command: Command, line: Line) -> bool {
    match line {
        Line::Put { key, value } => command matches Command::Put { key: number, value: text }
            && number == key_number(key) && text@ == value,
        Line::Get { key } => command matches Command::Get { key: number } && number == key_number(
            key,
        ),
        Line::GetBytes { key } => command matches Command::GetBytes { key: number } && number
            == key_number(key),
        Line::Delete { key } => command matches Command::Delete { key: number } && number
            == key_number(key),
        Line::List => command is List,
        Line::Dump => command is Dump,
        Line::Header => command is Header,
        Line::Journal => command is Journal,
        Line::JournalGc => command is JournalGc,
        Line::Invalid => command is Invalid,
    }
}

/// The key that a line names stands for more than 128 bits hold.
pub open spec fn key_too_large(line: Line) -> bool {
    match line {
        Line::Put { key, value } => key_number(key) > u128::MAX,
        Line::Get { key } => key_number(key) > u128::MAX,
        Line::GetBytes { key } => key_number(key) > u128::MAX,
        Line::Delete { key } => key_number(key) > u128::MAX,
        _ => false,
    }
}

/// A run ends within the text, at the first character that is not of the
/// class, and holds characters of the class only.
pub proof fn lemma_run_end(text: Seq<char>, from: int, class: CharClass)
    requires
        0 <= from <= text.len(),
    ensures
        from <= run_end(text, from, class) <= text.len(),
        forall|at: int| from <= at < run_end(text, from, class) ==> belongs(class, #[trigger] text[at]),
        run_end(text, from, class) < text.len() ==> !belongs(
            class,
            text[run_end(text, from, class)],
        ),
    decreases text.len() - from,
{
    if from < text.len() && belongs(class, text[from]) {
        lemma_run_end(text, from + 1, class);
    }
}

/// A key as it is written is a numeral: it stands for a number.
pub proof fn lemma_key_is_numeral(text: Seq<char>, from: int)
    requires
        0 <= from <= text.len(),
        key_end(text, from) is Some,
    ensures
        from < key_end(text, from).unwrap() <= text.len(),
        key_numeral(key_bytes_of(text.subrange(from, key_end(text, from).unwrap()))) is Some,
{
    let end = key_end(text, from).unwrap();
    let key = text.subrange(from, end);
    let bytes = key_bytes_of(key);
    if from + 1 < text.len() && text[from] == '0' && text[from + 1] == 'x' {
        lemma_run_end(text, from + 2, CharClass::Hexadecimal);
        let digits = bytes.skip(2);
        assert(bytes[0] == 48 && bytes[1] == 120);
        assert forall|at: int| 0 <= at < digits.len() implies crate::args::digit_of(
            #[trigger] digits[at],
        ) < 16 by {
            assert(belongs(CharClass::Hexadecimal, text[from + 2 + at]));
            assert(digits[at] == key[at + 2] as u8);
        }
        assert(belongs(CharClass::Hexadecimal, text[from + 2]));
        assert(digits[0] == key[2] as u8);
        assert(crate::args::unsigned(digits) == digits);
    } else {
        lemma_run_end(text, from, CharClass::Decimal);
        assert forall|at: int| 0 <= at < bytes.len() implies crate::args::digit_of(
            #[trigger] bytes[at],
        ) < 10 by {
            assert(belongs(CharClass::Decimal, text[from + at]));
            assert(bytes[at] == key[at] as u8);
        }
        assert(belongs(CharClass::Decimal, text[from]));
        assert(bytes[0] == key[0] as u8);
        assert(crate::args::unsigned(bytes) == bytes);
        if bytes.len() > 1 {
            assert(belongs(CharClass::Decimal, text[from + 1]));
            assert(bytes[1] == key[1] as u8);
        }
    }
}

fn is_of(class: CharClass, c: char) -> (of: bool)
    ensures
        of == belongs(class, c),
{
    match class {
        CharClass::Space => c == ' ' || ('\t' <= c && c <= '\r') || c == '\u{85}' || c == '\u{a0}'
            || c == '\u{1680}' || ('\u{2000}' <= c && c <= '\u{200a}') || c == '\u{2028}' || c
            == '\u{2029}' || c == '\u{202f}' || c == '\u{205f}' || c == '\u{3000}',
        CharClass::Decimal => '0' <= c && c <= '9',
        CharClass::Hexadecimal => ('0' <= c && c <= '9') || ('a' <= c && c <= 'f'),
    }
}

fn chars_of(text: &str) -> (chars: Vec<char>)
    ensures
        chars@ == text@,
{
    let mut chars: Vec<char> = Vec::new();
    for c in it: text.chars()
        invariant
            it.seq() == text@,
            chars@ == text@.take(it.index() as int),
    {
        chars.push(c);
    }
    chars
}

fn skip_run(text: &Vec<char>, from: usize, class: CharClass) -> (end: usize)
    requires
        from <= text@.len(),
    ensures
        end == run_end(text@, from as int, class),
        from <= end <= text@.len(),
{
    let mut at: usize = from;
    while at < text.len() && is_of(class, text[at])
        invariant
            from <= at <= text@.len(),
            run_end(text@, from as int, class) == run_end(text@, at as int, class),
        decreases text@.len() - at,
    {
        at = at + 1;
    }
    at
}

fn skip_key(text: &Vec<char>, from: usize) -> (end: Option<usize>)
    requires
        from <= text@.len(),
    ensures
        end matches Some(e) ==> key_end(text@, from as int) == Some(e as int) && from < e
            <= text@.len(),
        end is None ==> key_end(text@, from as int) is None,
{
    let length: usize = text.len();
    if from < length && length - from > 1 && text[from] == '0' && text[from + 1] == 'x' {
        let end: usize = skip_run(text, from + 2, CharClass::Hexadecimal);
        if end > from + 2 {
            Some(end)
        } else {
            None
        }
    } else {
        let end: usize = skip_run(text, from, CharClass::Decimal);
        if end > from {
            Some(end)
        } else {
            None
        }
    }
}

fn has_prefix(text: &Vec<char>, word: &Vec<char>) -> (has: bool)
    ensures
        has == begins_with(text@, word@),
{
    if word.len() > text.len() {
        return false;
    }
    let mut at: usize = 0;
    while at < word.len()
        invariant
            at <= word@.len() <= text@.len(),
            forall|i: int| 0 <= i < at ==> text@[i] == word@[i],
        decreases word@.len() - at,
    {
        if text[at] != word[at] {
            assert(text@.take(word@.len() as int)[at as int] != word@[at as int]);
            return false;
        }
        at = at + 1;
    }
    assert(text@.take(word@.len() as int) =~= word@);
    true
}

fn is_word(text: &Vec<char>, word: &Vec<char>) -> (is: bool)
    ensures
        is == (text@ == word@),
{
    if text.len() != word.len() {
        return false;
    }
    let has: bool = has_prefix(text, word);
    assert(text@.take(word@.len() as int) == text@);
    has
}

fn has_nul(text: &Vec<char>, from: usize) -> (has: bool)
    requires
        from <= text@.len(),
    ensures
        has == text@.subrange(from as int, text@.len() as int).contains('\0'),
{
    let ghost tail = text@.subrange(from as int, text@.len() as int);
    let mut at: usize = from;
    while at < text.len()
        invariant
            from <= at <= text@.len(),
            tail == text@.subrange(from as int, text@.len() as int),
            forall|i: int| from <= i < at ==> text@[i] != '\0',
        decreases text@.len() - at,
    {
        if text[at] == '\0' {
            assert(tail[at - from] == '\0');
            return true;
        }
        at = at + 1;
    }
    assert forall|i: int| 0 <= i < tail.len() implies tail[i] != '\0' by {
        assert(tail[i] == text@[from + i]);
    }
    false
}

/// The number of the key written in `from..to`.
fn read_key(text: &Vec<char>, from: usize, to: usize) -> (key: Result<u128, ArgumentError>)
    requires
        from <= to <= text@.len(),
        key_end(text@, from as int) == Some(to as int),
    ensures
        key matches Ok(number) ==> number == key_number(text@.subrange(from as int, to as int)),
        key is Err ==> key == Err::<u128, ArgumentError>(ArgumentError::TooLarge) && key_number(
            text@.subrange(from as int, to as int),
        ) > u128::MAX,
{
    let ghost written = text@.subrange(from as int, to as int);
    let mut bytes: Vec<u8> = Vec::new();
    let mut at: usize = from;
    while at < to
        invariant
            from <= at <= to <= text@.len(),
            written == text@.subrange(from as int, to as int),
            bytes@.len() == at - from,
            forall|i: int| 0 <= i < at - from ==> bytes@[i] == written[i] as u8,
        decreases to - at,
    {
        bytes.push(text[at] as u8);
        at = at + 1;
    }
    proof {
        assert(bytes@ =~= key_bytes_of(written));
        lemma_key_is_numeral(text@, from as int);
    }
    key_from_bytes(bytes.as_slice())
}

fn read_key_after(text: &Vec<char>, word: &Vec<char>, space_needed: bool) -> (key: Option<
    Result<u128, ArgumentError>,
>)
    ensures
        key is Some <==> key_after(text@, word@, space_needed) is Some,
        key matches Some(Ok(number)) ==> number == key_number(
            key_after(text@, word@, space_needed).unwrap(),
        ),
        key matches Some(Err(error)) ==> error == ArgumentError::TooLarge && key_number(
            key_after(text@, word@, space_needed).unwrap(),
        ) > u128::MAX,
{
    if !has_prefix(text, word) {
        return None;
    }
    let from: usize = skip_run(text, word.len(), CharClass::Space);
    if space_needed && from == word.len() {
        return None;
    }
    match skip_key(text, from) {
        Some(end) => {
            if end == text.len() {
                Some(read_key(text, from, end))
            } else {
                None
            }
        },
        None => None,
    }
}

fn read_put(input: &str, text: &Vec<char>) -> (parts: Option<(Result<u128, ArgumentError>, String)>)
    requires
        text@ == input@,
    ensures
        parts is Some <==> put_parts(input@) is Some,
        parts matches Some((key, value)) ==> value@ == put_parts(input@).unwrap().1 && (key matches Ok(
            number,
        ) ==> number == key_number(put_parts(input@).unwrap().0)) && (key matches Err(error)
            ==> error == ArgumentError::TooLarge && key_number(put_parts(input@).unwrap().0)
            > u128::MAX),
{
    let word: Vec<char> = vec!['p', 'u', 't'];
    assert(word@ =~= seq!['p', 'u', 't']);
    if !has_prefix(text, &word) {
        return None;
    }
    let from: usize = skip_run(text, 3, CharClass::Space);
    if from == 3 {
        return None;
    }
    let end: usize = match skip_key(text, from) {
        Some(end) => end,
        None => {
            return None;
        },
    };
    let spaces_end: usize = skip_run(text, end, CharClass::Space);
    let length: usize = text.len();
    let start: usize = if spaces_end == length {
        length - 1
    } else {
        spaces_end
    };
    if start <= end || has_nul(text, start) {
        return None;
    }
    let key: Result<u128, ArgumentError> = read_key(text, from, end);
    let value: String = String::from_str(input.substring_char(start, length));
    Some((key, value))
}

/// Reads a line typed at the prompt.
///
/// The result is the command that the line is written as, with its key as
/// a number. A line that is no command gives `Invalid`; one that names a key
/// of more than 128 bits gives `TooLarge` and no command.
pub fn parse_command(input: &str) -> (result: Result<Command, ArgumentError>)
    ensures
        result matches Ok(command) ==> asks_for(command, line_of(input@)) && !key_too_large(
            line_of(input@),
        ),
        result matches Err(error) ==> error == ArgumentError::TooLarge && key_too_large(
            line_of(input@),
        ),
{
    let text: Vec<char> = chars_of(input);
    match read_put(input, &text) {
        Some((Ok(key), value)) => {
            return Ok(Command::Put { key, value });
        },
        Some((Err(error), _)) => {
            return Err(error);
        },
        None => {},
    }
    let get: Vec<char> = vec!['g', 'e', 't'];
    assert(get@ =~= seq!['g', 'e', 't']);
    match read_key_after(&text, &get, true) {
        Some(Ok(key)) => {
            return Ok(Command::Get { key });
        },
        Some(Err(error)) => {
            return Err(error);
        },
        None => {},
    }
    let get_bytes: Vec<char> = vec!['g', 'e', 't', '_', 'b', 'y', 't', 'e', 's'];
    assert(get_bytes@ =~= seq!['g', 'e', 't', '_', 'b', 'y', 't', 'e', 's']);
    match read_key_after(&text, &get_bytes, true) {
        Some(Ok(key)) => {
            return Ok(Command::GetBytes { key });
        },
        Some(Err(error)) => {
            return Err(error);
        },
        None => {},
    }
    let delete: Vec<char> = vec!['d', 'e', 'l', 'e', 't', 'e'];
    assert(delete@ =~= seq!['d', 'e', 'l', 'e', 't', 'e']);
    match read_key_after(&text, &delete, false) {
        Some(Ok(key)) => {
            return Ok(Command::Delete { key });
        },
        Some(Err(error)) => {
            return Err(error);
        },
        None => {},
    }
    let list: Vec<char> = vec!['l', 'i', 's', 't'];
    assert(list@ =~= seq!['l', 'i', 's', 't']);
    let dump: Vec<char> = vec!['d', 'u', 'm', 'p'];
    assert(dump@ =~= seq!['d', 'u', 'm', 'p']);
    let header: Vec<char> = vec!['h', 'e', 'a', 'd', 'e', 'r'];
    assert(header@ =~= seq!['h', 'e', 'a', 'd', 'e', 'r']);
    let journal: Vec<char> = vec!['j', 'o', 'u', 'r', 'n', 'a', 'l'];
    assert(journal@ =~= seq!['j', 'o', 'u', 'r', 'n', 'a', 'l']);
    let journal_gc: Vec<char> = vec!['j', 'o', 'u', 'r', 'n', 'a', 'l', '_', 'g', 'c'];
    assert(journal_gc@ =~= seq!['j', 'o', 'u', 'r', 'n', 'a', 'l', '_', 'g', 'c']);
    if is_word(&text, &list) {
        Ok(Command::List)
    } else if is_word(&text, &dump) {
        Ok(Command::Dump)
    } else if is_word(&text, &header) {
        Ok(Command::Header)
    } else if is_word(&text, &journal) {
        Ok(Command::Journal)
    } else if is_word(&text, &journal_gc) {
        Ok(Command::JournalGc)
    } else {
        Ok(Command::Invalid)
    }
}

} // verus!
