use padoracle::cli::{
    block_line, log_level, parse_chars, parse_cipher, parse_size, push_shown, Error, LogLevel, Options,
};
use padoracle::crypt::Dec;

fn tokens(sep: &str) -> String {
    (0..=255u8).rev().map(|b| format!("{:02x}", b)).collect::<Vec<String>>().join(sep)
}

#[test]
fn cipher_is_read_from_hex() {
    assert_eq!(parse_cipher(b"00ff10Ab").ok(), Some(vec![0x00, 0xff, 0x10, 0xab]));
    assert_eq!(parse_cipher(b"").ok(), Some(vec![]));
    assert_eq!(parse_cipher(b"6b697769").ok(), Some(b"kiwi".to_vec()));
}

#[test]
fn cipher_that_is_no_hex_is_refused() {
    match parse_cipher(b"abc") {
        Err(Error::HexParse { source, field }) => {
            assert_eq!(field, "cipher");
            assert_eq!(source, hex::FromHexError::OddLength);
        }
        _ => panic!("accepted"),
    }
    match parse_cipher(b"0g") {
        Err(Error::HexParse { source, field }) => {
            assert_eq!(field, "cipher");
            assert_eq!(source, hex::FromHexError::InvalidHexCharacter { c: 'g', index: 1 });
        }
        _ => panic!("accepted"),
    }
    assert!(matches!(parse_cipher(b"00 01"), Err(Error::HexParse { .. })));
}

#[test]
fn charset_is_read_with_any_white_space() {
    let expected: Vec<u8> = (0..=255u8).rev().collect();
    for sep in [" ", "\n", "", "\t ", "\r\n"] {
        let text = format!("  {}\n", tokens(sep));
        match parse_chars(text.as_bytes()) {
            Ok(chars) => assert_eq!(chars.to_vec(), expected),
            Err(_) => panic!("refused"),
        }
    }
}

#[test]
fn charset_of_the_wrong_length_is_refused() {
    let text = tokens(" ");
    assert!(matches!(parse_chars(text[..text.len() - 3].as_bytes()), Err(Error::InsufficiendChars)));
    let long = format!("{} 00", text);
    assert!(matches!(parse_chars(long.as_bytes()), Err(Error::InsufficiendChars)));
    assert!(matches!(parse_chars(b""), Err(Error::InsufficiendChars)));
}

#[test]
fn charset_with_a_byte_twice_is_refused() {
    let text = tokens(" ").replacen("fe", "ff", 1);
    assert!(matches!(parse_chars(text.as_bytes()), Err(Error::InsufficiendChars)));
}

#[test]
fn charset_that_is_no_hex_is_refused() {
    let text = tokens(" ").replacen("fe", "zz", 1);
    match parse_chars(text.as_bytes()) {
        Err(Error::HexParse { source, field }) => {
            assert_eq!(field, "chars");
            assert_eq!(source, hex::FromHexError::InvalidHexCharacter { c: 'z', index: 2 });
        }
        _ => panic!("accepted"),
    }
    let odd = format!("{}0", tokens(" "));
    assert!(matches!(parse_chars(odd.as_bytes()), Err(Error::HexParse { .. })));
}

#[test]
fn block_line_shows_plain_and_intermediate() {
    let dec = Dec::new(vec![0x00, 0xab, 0xff], b"Hi!".to_vec());
    assert_eq!(block_line(&dec), "486921 Hi! ::: 00abff");
}

#[test]
fn block_line_puts_dots_for_what_cannot_be_seen() {
    let dec = Dec::new(vec![0x10, 0x20], vec![0x20, 0x7e, 0x7f, 0x00, 0x21, 0xe9]);
    assert_eq!(block_line(&dec), "207e7f0021e9 .~..!. ::: 1020");
    let none = Dec::new(vec![], vec![]);
    assert_eq!(block_line(&none), "  ::: ");
}

#[test]
fn options_hand_back_what_they_hold() {
    let mut chars = [0u8; 256];
    for (i, c) in chars.iter_mut().enumerate() {
        *c = i as u8;
    }
    let opt = Options::new(
        vec![1, 2, 3],
        true,
        16,
        chars,
        "oracle".to_string(),
        vec!["a".to_string()],
        Some("out".to_string()),
        None,
        3,
    );
    assert_eq!(opt.cipher(), &[1, 2, 3]);
    assert!(opt.iv());
    assert_eq!(opt.size(), 16);
    assert_eq!(opt.chars(), &chars);
    assert_eq!(opt.oracle(), "oracle");
    assert_eq!(opt.oracle_args(), &vec!["a".to_string()]);
    assert_eq!(opt.outfile(), &Some("out".to_string()));
    assert_eq!(opt.logfile(), &None);
    assert_eq!(opt.loglvl(), 3);
}

#[test]
fn size_is_a_decimal_number_up_to_255() {
    assert_eq!(parse_size(b"16"), Some(16));
    assert_eq!(parse_size(b"+8"), Some(8));
    assert_eq!(parse_size(b"0"), Some(0));
    assert_eq!(parse_size(b"255"), Some(255));
    assert_eq!(parse_size(b"0016"), Some(16));
    assert_eq!(parse_size(b"256"), None);
    assert_eq!(parse_size(b"99999999999999999999"), None);
    assert_eq!(parse_size(b""), None);
    assert_eq!(parse_size(b"+"), None);
    assert_eq!(parse_size(b"++1"), None);
    assert_eq!(parse_size(b"-1"), None);
    assert_eq!(parse_size(b"1a"), None);
    assert_eq!(parse_size(b" 16"), None);
    assert_eq!(parse_size(b"2560"), None);
    assert_eq!(parse_size(b"300x"), None);
}

#[test]
fn log_levels_run_from_one_to_five() {
    assert_eq!(log_level(1), Some(LogLevel::Error));
    assert_eq!(log_level(2), Some(LogLevel::Warn));
    assert_eq!(log_level(3), Some(LogLevel::Info));
    assert_eq!(log_level(4), Some(LogLevel::Debug));
    assert_eq!(log_level(5), Some(LogLevel::Trace));
    assert_eq!(log_level(0), None);
    assert_eq!(log_level(6), None);
}

#[test]
fn shown_bytes_are_appended() {
    let mut line = "> ".to_string();
    push_shown(&mut line, b"a b\n\x7f~!");
    assert_eq!(line, "> a.b..~!");
}
