use kanils::args::{string_to_u128, ArgumentError};
use kanils::command::{parse_command, Command};
use regex::Regex;

/// The patterns that define the syntax of the lines with a key.
fn patterns() -> [Regex; 4] {
    [
        Regex::new(r"^put\s+([0-9]+|0x[0-9a-f]+)\s+([^\x00]+)$").unwrap(),
        Regex::new(r"^get\s+([0-9]+|0x[0-9a-f]+)$").unwrap(),
        Regex::new(r"^get_bytes\s+([0-9]+|0x[0-9a-f]+)$").unwrap(),
        Regex::new(r"^delete\s*([0-9]+|0x[0-9a-f]+)$").unwrap(),
    ]
}

/// The same line read with the patterns.
fn by_patterns(patterns: &[Regex; 4], input: &str) -> Result<Command, ArgumentError> {
    let [put, get, get_bytes, delete] = patterns;
    if let Some(captured) = put.captures(input) {
        let key = string_to_u128(captured.get(1).unwrap().as_str())?;
        let value = captured.get(2).unwrap().as_str().to_owned();
        Ok(Command::Put { key, value })
    } else if let Some(captured) = get.captures(input) {
        Ok(Command::Get { key: string_to_u128(captured.get(1).unwrap().as_str())? })
    } else if let Some(captured) = get_bytes.captures(input) {
        Ok(Command::GetBytes { key: string_to_u128(captured.get(1).unwrap().as_str())? })
    } else if let Some(captured) = delete.captures(input) {
        Ok(Command::Delete { key: string_to_u128(captured.get(1).unwrap().as_str())? })
    } else if input == "list" {
        Ok(Command::List)
    } else if input == "dump" {
        Ok(Command::Dump)
    } else if input == "header" {
        Ok(Command::Header)
    } else if input == "journal" {
        Ok(Command::Journal)
    } else if input == "journal_gc" {
        Ok(Command::JournalGc)
    } else {
        Ok(Command::Invalid)
    }
}

#[test]
fn a_put_has_a_key_and_a_value() {
    assert_eq!(
        parse_command("put 1 hoge"),
        Ok(Command::Put { key: 1, value: "hoge".to_owned() })
    );
    assert_eq!(
        parse_command("put 0x1f hello world"),
        Ok(Command::Put { key: 31, value: "hello world".to_owned() })
    );
    assert_eq!(
        parse_command("put \t 42 \t  two  words "),
        Ok(Command::Put { key: 42, value: "two  words ".to_owned() })
    );
    assert_eq!(
        parse_command("put 7 日本語"),
        Ok(Command::Put { key: 7, value: "日本語".to_owned() })
    );
}

#[test]
fn a_value_of_white_space_keeps_its_last_character() {
    assert_eq!(parse_command("put 1  "), Ok(Command::Put { key: 1, value: " ".to_owned() }));
    assert_eq!(parse_command("put 1 \t\n"), Ok(Command::Put { key: 1, value: "\n".to_owned() }));
    assert_eq!(parse_command("put 1 "), Ok(Command::Invalid));
    assert_eq!(parse_command("put 1"), Ok(Command::Invalid));
}

#[test]
fn a_put_that_is_written_otherwise_is_no_command() {
    assert_eq!(parse_command("put"), Ok(Command::Invalid));
    assert_eq!(parse_command("put1 x"), Ok(Command::Invalid));
    assert_eq!(parse_command("put x y"), Ok(Command::Invalid));
    assert_eq!(parse_command("put 0x y"), Ok(Command::Invalid));
    assert_eq!(parse_command("put 0xG y"), Ok(Command::Invalid));
    assert_eq!(parse_command("put 0xAB y"), Ok(Command::Invalid));
    assert_eq!(parse_command("put 12ab y"), Ok(Command::Invalid));
    assert_eq!(parse_command("put 1 a\0b"), Ok(Command::Invalid));
    assert_eq!(parse_command(" put 1 a"), Ok(Command::Invalid));
    assert_eq!(parse_command("PUT 1 a"), Ok(Command::Invalid));
}

#[test]
fn commands_with_a_key() {
    assert_eq!(parse_command("get 5"), Ok(Command::Get { key: 5 }));
    assert_eq!(parse_command("get   0xff"), Ok(Command::Get { key: 255 }));
    assert_eq!(parse_command("get_bytes 5"), Ok(Command::GetBytes { key: 5 }));
    assert_eq!(parse_command("get_bytes\t0x10"), Ok(Command::GetBytes { key: 16 }));
    assert_eq!(parse_command("delete 5"), Ok(Command::Delete { key: 5 }));
    assert_eq!(parse_command("delete5"), Ok(Command::Delete { key: 5 }));
    assert_eq!(parse_command("delete0x0a"), Ok(Command::Delete { key: 10 }));
    assert_eq!(parse_command("get\u{3000}12"), Ok(Command::Get { key: 12 }));
    assert_eq!(parse_command("get\u{a0}\u{2003}12"), Ok(Command::Get { key: 12 }));
}

#[test]
fn commands_with_a_key_written_otherwise() {
    assert_eq!(parse_command("get"), Ok(Command::Invalid));
    assert_eq!(parse_command("get5"), Ok(Command::Invalid));
    assert_eq!(parse_command("get 5 "), Ok(Command::Invalid));
    assert_eq!(parse_command("get 5 6"), Ok(Command::Invalid));
    assert_eq!(parse_command("get +5"), Ok(Command::Invalid));
    assert_eq!(parse_command("get 0x"), Ok(Command::Invalid));
    assert_eq!(parse_command("get 0X1f"), Ok(Command::Invalid));
    assert_eq!(parse_command("get 0x1F"), Ok(Command::Invalid));
    assert_eq!(parse_command("get_bytes5"), Ok(Command::Invalid));
    assert_eq!(parse_command("get\u{200b}5"), Ok(Command::Invalid));
    assert_eq!(parse_command("delete"), Ok(Command::Invalid));
    assert_eq!(parse_command("delete x"), Ok(Command::Invalid));
    assert_eq!(parse_command("get １２"), Ok(Command::Invalid));
}

#[test]
fn commands_without_a_key() {
    assert_eq!(parse_command("list"), Ok(Command::List));
    assert_eq!(parse_command("dump"), Ok(Command::Dump));
    assert_eq!(parse_command("header"), Ok(Command::Header));
    assert_eq!(parse_command("journal"), Ok(Command::Journal));
    assert_eq!(parse_command("journal_gc"), Ok(Command::JournalGc));
    assert_eq!(parse_command(""), Ok(Command::Invalid));
    assert_eq!(parse_command("list "), Ok(Command::Invalid));
    assert_eq!(parse_command(" list"), Ok(Command::Invalid));
    assert_eq!(parse_command("lists"), Ok(Command::Invalid));
    assert_eq!(parse_command("journal_g"), Ok(Command::Invalid));
    assert_eq!(parse_command("help"), Ok(Command::Invalid));
}

#[test]
fn a_key_of_more_than_128_bits_gives_no_command() {
    assert_eq!(
        parse_command("get 340282366920938463463374607431768211455"),
        Ok(Command::Get { key: u128::MAX })
    );
    assert_eq!(
        parse_command("get 340282366920938463463374607431768211456"),
        Err(ArgumentError::TooLarge)
    );
    assert_eq!(
        parse_command("put 0x100000000000000000000000000000000 v"),
        Err(ArgumentError::TooLarge)
    );
    assert_eq!(
        parse_command("delete0x100000000000000000000000000000000"),
        Err(ArgumentError::TooLarge)
    );
    assert_eq!(
        parse_command("get_bytes 999999999999999999999999999999999999999999"),
        Err(ArgumentError::TooLarge)
    );
}

#[test]
fn lines_read_as_the_patterns_read_them() {
    let words = ["put", "get", "get_bytes", "delete", "list", "dump", "journal", "pu", ""];
    let gaps = ["", " ", "  ", "\t", "\u{a0}", "\u{3000} ", "\n", "\u{200b}", "_"];
    let keys = [
        "0", "7", "42", "007", "0x", "0x0", "0x1f", "0xff", "0xFF", "0x1g", "1f", "x", "", "+1",
        "00x1", "0x0x1", "12 ", "0x12 3",
    ];
    let tails = ["", " ", "  ", " v", "  v ", " a b", "\tv", " \0", " a\0", "v", " 0x1", "\n\n"];
    let patterns = patterns();
    let mut lines = 0;
    for word in words {
        for gap in gaps {
            for key in keys {
                for tail in tails {
                    let line = format!("{}{}{}{}", word, gap, key, tail);
                    assert_eq!(parse_command(&line), by_patterns(&patterns, &line), "{:?}", line);
                    lines += 1;
                }
            }
        }
    }
    assert_eq!(lines, 9 * 9 * 18 * 12);
}
