use vstd::prelude::*;
use vstd::string::*;
use crate::crypt::Dec;
use crate::hexfmt::{hex_bytes, hex_text, is_hex_text, push_char};
use crate::prio::{is_charset, is_permutation};

verus! {

/// Why the inputs of a run could not be read.
#[derive(Debug)]
#[allow(inconsistent_fields)]
pub enum Error {
    /// The file of characters could not be loaded.
    CharLoad { source: std::io::Error, file: String },
    /// The named input is no text of hexadecimal digits.
    HexParse { source: hex::FromHexError, field: &'static str },
    /// The characters are not each of the 256 byte values once.
    InsufficiendChars,
}

/// What a run was asked to do.
pub struct Options {
    cipher: Vec<u8>,
    iv: bool,
    size: u8,
    chars: [u8; 256],
    oracle: String,
    oracle_args: Vec<String>,
    outfile: Option<String>,
    logfile: Option<String>,
    loglvl: u64,
}

/// The options as a value.
pub struct Settings {
    pub cipher: Seq<u8>,
    pub iv: bool,
    pub size: u8,
    pub chars: Seq<u8>,
    pub oracle: String,
    pub oracle_args: Vec<String>,
    pub outfile: Option<String>,
    pub logfile: Option<String>,
    pub loglvl: u64,
}

impl View for Options {
    type V = Settings;

    closed spec fn view(&self) -> Settings {
        Settings {
            cipher: self.cipher@,
            iv: self.iv,
            size: self.size,
            chars: self.chars@,
            oracle: self.oracle,
            oracle_args: self.oracle_args,
            outfile: self.outfile,
            logfile: self.logfile,
            loglvl: self.loglvl,
        }
    }
}

impl Options {
    pub fn new(
        cipher: Vec<u8>,
        iv: bool,
        size: u8,
        chars: [u8; 256],
        oracle: String,
        oracle_args: Vec<String>,
        outfile: Option<String>,
        logfile: Option<String>,
        loglvl: u64,
    ) -> (opt: Self)
        ensures
            opt@ == (Settings {
                cipher: cipher@,
                iv,
                size,
                chars: chars@,
                oracle,
                oracle_args,
                outfile,
                logfile,
                loglvl,
            }),
    {
        Options { cipher, iv, size, chars, oracle, oracle_args, outfile, logfile, loglvl }
    }

    pub fn oracle(&self) -> (oracle: &String)
        ensures
            *oracle == self@.oracle,
    {
        &self.oracle
    }

    pub fn cipher(&self) -> (cipher: &[u8])
        ensures
            cipher@ == self@.cipher,
    {
        self.cipher.as_slice()
    }

    pub fn iv(&self) -> (iv: bool)
        ensures
            iv == self@.iv,
    {
        self.iv
    }

    pub fn size(&self) -> (size: u8)
        ensures
            size == self@.size,
    {
        self.size
    }

    pub fn chars(&self) -> (chars: &[u8; 256])
        ensures
            chars@ == self@.chars,
    {
        &self.chars
    }

    pub fn oracle_args(&self) -> (oracle_args: &Vec<String>)
        ensures
            *oracle_args == self@.oracle_args,
    {
        &self.oracle_args
    }

    pub fn outfile(&self) -> (outfile: &Option<String>)
        ensures
            *outfile == self@.outfile,
    {
        &self.outfile
    }

    pub fn logfile(&self) -> (logfile: &Option<String>)
        ensures
            *logfile == self@.logfile,
    {
        &self.logfile
    }

    pub fn loglvl(&self) -> (loglvl: u64)
        ensures
            loglvl == self@.loglvl,
    {
        self.loglvl
    }
}

/// The bytes that separate the digits of a text: the white space of ASCII.
pub open spec fn is_space(b: u8) -> bool {
    b == 0x20 || (0x09 <= b <= 0x0d)
}

/// The text without its white space.
pub open spec fn without_spaces(text: Seq<u8>) -> Seq<u8>
    decreases text.len(),
{
    if text.len() == 0 {
        text
    } else if is_space(text.last()) {
        without_spaces(text.drop_last())
    } else {
        without_spaces(text.drop_last()).push(text.last())
    }
}

fn strip(text: &[u8]) -> (out: Vec<u8>)
    ensures
        out@ == without_spaces(text@),
{
    let mut out: Vec<u8> = Vec::new();
    let mut i: usize = 0;
    while i < text.len()
        invariant
            i <= text@.len(),
            out@ == without_spaces(text@.subrange(0, i as int)),
        decreases text@.len() - i,
    {
        let b: u8 = text[i];
        proof {
            assert(text@.subrange(0, i + 1).drop_last() =~= text@.subrange(0, i as int));
        }
        if !(b == 0x20 || (0x09 <= b && b <= 0x0d)) {
            out.push(b);
        }
        i += 1;
    }
    proof {
        assert(text@.subrange(0, text@.len() as int) =~= text@);
    }
    out
}

/// Reads a ciphertext written as hexadecimal digits.
pub fn parse_cipher(text: &[u8]) -> (res: Result<Vec<u8>, Error>)
    ensures
        match res {
            Ok(cipher) => is_hex_text(text@) && cipher@ == hex_bytes(text@),
            Err(e) => {
                &&& !is_hex_text(text@)
                &&& e matches Error::HexParse { field, .. }
                &&& field@ == "cipher"@
            },
        },
{
    match crate::hexfmt::decode(text) {
        Ok(cipher) => Ok(cipher),
        Err(source) => Err(Error::HexParse { source, field: "cipher" }),
    }
}

/// Reads a character set: the 256 byte values, each once, the likeliest
/// first, written as hexadecimal digits with any white space between them.
pub fn parse_chars(text: &[u8]) -> (res: Result<[u8; 256], Error>)
    ensures
        match res {
            Ok(chars) => {
                &&& is_hex_text(without_spaces(text@))
                &&& chars@ == hex_bytes(without_spaces(text@))
                &&& is_permutation(chars@)
            },
            Err(Error::HexParse { field, .. }) => {
                &&& !is_hex_text(without_spaces(text@))
                &&& field@ == "chars"@
            },
            Err(Error::InsufficiendChars) => {
                &&& is_hex_text(without_spaces(text@))
                &&& !is_permutation(hex_bytes(without_spaces(text@)))
            },
            Err(Error::CharLoad { .. }) => false,
        },
{
    let digits: Vec<u8> = strip(text);
    match crate::hexfmt::decode(digits.as_slice()) {
        Err(source) => Err(Error::HexParse { source, field: "chars" }),
        Ok(bytes) => {
            if !is_charset(bytes.as_slice()) {
                return Err(Error::InsufficiendChars);
            }
            let mut out: [u8; 256] = [0u8; 256];
            let mut i: usize = 0;
            while i < 256
                invariant
                    i <= 256,
                    bytes@.len() == 256,
                    forall|j: int| 0 <= j < i ==> out@[j] == bytes@[j],
                decreases 256 - i,
            {
                out[i] = bytes[i];
                i += 1;
            }
            proof {
                assert(out@ =~= bytes@);
            }
            Ok(out)
        },
    }
}

/// An ASCII decimal digit.
pub open spec fn is_digit(b: u8) -> bool {
    0x30 <= b <= 0x39
}

/// The number that decimal digits stand for.
pub open spec fn number(digits: Seq<u8>) -> nat
    decreases digits.len(),
{
    if digits.len() == 0 {
        0
    } else if is_digit(digits.last()) {
        10 * number(digits.drop_last()) + (digits.last() - 0x30) as nat
    } else {
        10 * number(digits.drop_last())
    }
}

/// One decimal digit or more, and nothing else.
pub open spec fn is_number(digits: Seq<u8>) -> bool {
    &&& digits.len() > 0
    &&& forall|i: int| 0 <= i < digits.len() ==> is_digit(#[trigger] digits[i])
}

/// The text without the plus sign that may lead it.
pub open spec fn unsigned(text: Seq<u8>) -> Seq<u8> {
    if text.len() > 0 && text[0] == 0x2b {
        text.subrange(1, text.len() as int)
    } else {
        text
    }
}

proof fn lemma_number_grows(digits: Seq<u8>, k: int)
    requires
        0 <= k <= digits.len(),
    ensures
        number(digits.subrange(0, k)) <= number(digits),
    decreases digits.len() - k,
{
    if k == digits.len() {
        assert(digits.subrange(0, k) =~= digits);
    } else {
        lemma_number_grows(digits, k + 1);
        assert(digits.subrange(0, k + 1).drop_last() =~= digits.subrange(0, k));
    }
}

/// Reads a block size: a decimal number up to 255, with or without a plus
/// sign before it.
pub fn parse_size(text: &[u8]) -> (size: Option<u8>)
    ensures
        match size {
            Some(v) => is_number(unsigned(text@)) && number(unsigned(text@)) == v,
            None => !is_number(unsigned(text@)) || number(unsigned(text@)) > 255,
        },
{
    let start: usize = if text.len() > 0 && text[0] == 0x2b {
        1
    } else {
        0
    };
    let ghost digits = unsigned(text@);
    let mut acc: u16 = 0;
    let mut i: usize = start;
    proof {
        assert(digits.subrange(0, 0) =~= Seq::<u8>::empty());
        assert(text@.subrange(0, text@.len() as int) =~= text@);
    }
    while i < text.len()
        invariant
            start <= i <= text@.len(),
            digits == unsigned(text@),
            digits == text@.subrange(start as int, text@.len() as int),
            forall|j: int| 0 <= j < i - start ==> is_digit(#[trigger] digits[j]),
            acc == number(digits.subrange(0, i - start)),
            acc <= 255,
        decreases text@.len() - i,
    {
        let b: u8 = text[i];
        if b < 0x30 || b > 0x39 {
            proof {
                assert(digits[i - start] == b);
            }
            return None;
        }
        let next: u16 = acc * 10 + (b - 0x30) as u16;
        proof {
            assert(digits.subrange(0, i - start + 1).drop_last() =~= digits.subrange(
                0,
                i - start,
            ));
            assert(digits.subrange(0, i - start + 1).last() == b);
        }
        if next > 255 {
            proof {
                lemma_number_grows(digits, i - start + 1);
            }
            return None;
        }
        acc = next;
        i += 1;
    }
    proof {
        assert(digits.subrange(0, digits.len() as int) =~= digits);
    }
    if i == start {
        None
    } else {
        Some(acc as u8)
    }
}

/// How much a run writes to its log.
#[derive(Debug, Clone, Copy, PartialEq, Eq)]
pub enum LogLevel {
    Error,
    Warn,
    Info,
    Debug,
    Trace,
}

/// The log level that a count stands for: one for errors only, up to five
/// for everything; no other count stands for a level.
pub fn log_level(loglvl: u64) -> (lvl: Option<LogLevel>)
    ensures
        lvl == match loglvl {
            1 => Some(LogLevel::Error),
            2 => Some(LogLevel::Warn),
            3 => Some(LogLevel::Info),
            4 => Some(LogLevel::Debug),
            5 => Some(LogLevel::Trace),
            _ => None,
        },
{
    if loglvl == 1 {
        Some(LogLevel::Error)
    } else if loglvl == 2 {
        Some(LogLevel::Warn)
    } else if loglvl == 3 {
        Some(LogLevel::Info)
    } else if loglvl == 4 {
        Some(LogLevel::Debug)
    } else if loglvl == 5 {
        Some(LogLevel::Trace)
    } else {
        None
    }
}

/// The character that shows a byte on a line of output: itself where it is
/// a visible character of ASCII, else a dot.
pub open spec fn printable(b: u8) -> char {
    if 0x21 <= b <= 0x7e {
        b as char
    } else {
        '.'
    }
}

/// The line that shows a recovered block: the plaintext in hexadecimal
/// digits and as characters, then the intermediate block in hexadecimal
/// digits.
pub open spec fn block_text(intermediate: Seq<u8>, plain: Seq<u8>) -> Seq<char> {
    hex_text(plain) + seq![' '] + shown(plain) + " ::: "@ + hex_text(intermediate)
}

/// The bytes as the characters that show them.
pub open spec fn shown(bytes: Seq<u8>) -> Seq<char> {
    bytes.map_values(|b: u8| printable(b))
}

/// Appends to `line` the characters that show `bytes`.
pub fn push_shown(line: &mut String, bytes: &[u8])
    ensures
        final(line)@ == old(line)@ + shown(bytes@),
{
    let ghost head = line@;
    let mut i: usize = 0;
    proof {
        assert(line@ =~= head + shown(bytes@.subrange(0, 0)));
    }
    while i < bytes.len()
        invariant
            i <= bytes@.len(),
            line@ == head + shown(bytes@.subrange(0, i as int)),
        decreases bytes@.len() - i,
    {
        let b: u8 = bytes[i];
        let c: char = if 0x21 <= b && b <= 0x7e {
            b as char
        } else {
            '.'
        };
        push_char(line, c);
        proof {
            assert(line@ =~= head + shown(bytes@.subrange(0, i + 1)));
        }
        i += 1;
    }
    proof {
        assert(bytes@.subrange(0, bytes@.len() as int) =~= bytes@);
    }
}

/// Writes the line that shows a recovered block.
pub fn block_line(res: &Dec) -> (line: String)
    ensures
        line@ == block_text(res.intermediate@, res.plain@),
{
    let mut line: String = crate::hexfmt::encode(res.plain.as_slice());
    push_char(&mut line, ' ');
    push_shown(&mut line, res.plain.as_slice());
    line.append(" ::: ");
    let tail: String = crate::hexfmt::encode(res.intermediate.as_slice());
    line.append(tail.as_str());
    proof {
        assert(line@ =~= block_text(res.intermediate@, res.plain@));
    }
    line
}

} // verus!
