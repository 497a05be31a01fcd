use vstd::prelude::*;
use vstd::string::*;

verus! {

/// An error of the operating system's input and output, carried as it came.
#[verifier::external_type_specification]
#[verifier::external_body]
pub struct ExIoError(std::io::Error);

/// How a conversation with the oracle went wrong.
#[derive(Debug)]
pub enum Error {
    /// Writing to the oracle or reading from it failed.
    BrokenIO { source: std::io::Error },
    /// The oracle answered with something other than yes or no.
    BrokenLogic { reason: String },
}

/// The command that runs an oracle, and its arguments.
#[derive(Debug)]
pub struct CmdOracleCtx {
    cmd: String,
    args: Vec<String>,
}

impl CmdOracleCtx {
    pub closed spec fn command(&self) -> String {
        self.cmd
    }

    pub closed spec fn arguments(&self) -> Vec<String> {
        self.args
    }

    pub fn new(cmd: String, args: Vec<String>) -> (ctx: Self)
        ensures
            ctx.command() == cmd,
            ctx.arguments() == args,
    {
        CmdOracleCtx { cmd, args }
    }

    /// The command to run.
    pub fn cmd(&self) -> (cmd: &String)
        ensures
            *cmd == self.command(),
    {
        &self.cmd
    }

    /// The arguments to run it with.
    pub fn args(&self) -> (args: &Vec<String>)
        ensures
            *args == self.arguments(),
    {
        &self.args
    }
}

/// The standard Base64 text of `payload`, as `base64::encode` writes it.
pub uninterp spec fn base64_text(payload: Seq<u8>) -> Seq<char>;

/// Calls `base64::encode`: the result is the Base64 text of the bytes, the
/// same for the same bytes.
#[verifier::external_body]
fn encode(payload: &[u8]) -> (text: String)
    ensures
        text@ == base64_text(payload@),
{
    base64::encode(payload)
}

/// Ends an encoded question with the newline that hands it to the oracle.
pub fn frame(encoded: String) -> (line: String)
    ensures
        line@ == encoded@.push('\n'),
{
    proof {
        reveal_strlit("\n");
    }
    let line = encoded.concat("\n");
    proof {
        assert("\n"@ =~= seq!['\n']);
        assert(line@ =~= encoded@.push('\n'));
    }
    line
}

/// The line that asks the oracle about `payload`: its Base64 text and a
/// newline.
pub fn request_line(payload: &[u8]) -> (line: String)
    ensures
        line@ == base64_text(payload@).push('\n'),
{
    frame(encode(payload))
}

/// The characters that end a reply without being part of it: the white space
/// of Unicode.
pub open spec fn is_whitespace(c: char) -> bool {
    ||| '\u{9}' <= c <= '\u{d}'
    ||| c == ' '
    ||| c == '\u{85}'
    ||| c == '\u{a0}'
    ||| c == '\u{1680}'
    ||| '\u{2000}' <= c <= '\u{200a}'
    ||| c == '\u{2028}'
    ||| c == '\u{2029}'
    ||| c == '\u{202f}'
    ||| c == '\u{205f}'
    ||| c == '\u{3000}'
}

/// The line without the white space at its end.
pub open spec fn trim_end(line: Seq<char>) -> Seq<char>
    decreases line.len(),
{
    if line.len() > 0 && is_whitespace(line.last()) {
        trim_end(line.drop_last())
    } else {
        line
    }
}

/// The two answers of an oracle.
pub open spec fn yes() -> Seq<char> {
    seq!['y', 'e', 's']
}

pub open spec fn no() -> Seq<char> {
    seq!['n', 'o']
}

/// What is said of any other answer.
pub open spec fn invalid_choice(token: Seq<char>) -> Seq<char> {
    "invalid choice: \""@ + token + "\". choices are: yes/no"@
}

fn white(c: char) -> (w: bool)
    ensures
        w == is_whitespace(c),
{
    ('\u{9}' <= c && c <= '\u{d}') || c == ' ' || c == '\u{85}' || c == '\u{a0}' || c
        == '\u{1680}' || ('\u{2000}' <= c && c <= '\u{200a}') || c == '\u{2028}' || c
        == '\u{2029}' || c == '\u{202f}' || c == '\u{205f}' || c == '\u{3000}'
}

/// Reads the oracle's reply: `yes` for a valid padding, `no` for an invalid
/// one, whatever white space ends the line; anything else is an error that
/// quotes it.
pub fn interpret(line: &str) -> (res: Result<bool, Error>)
    ensures
        match res {
            Ok(valid) => trim_end(line@) == if valid {
                yes()
            } else {
                no()
            },
            Err(e) => {
                &&& trim_end(line@) != yes()
                &&& trim_end(line@) != no()
                &&& e matches Error::BrokenLogic { reason }
                &&& reason@ == invalid_choice(trim_end(line@))
            },
        },
{
    let mut n: usize = line.unicode_len();
    proof {
        assert(line@.subrange(0, n as int) =~= line@);
    }
    while n > 0 && white(line.get_char(n - 1))
        invariant
            n <= line@.len(),
            trim_end(line@) == trim_end(line@.subrange(0, n as int)),
        decreases n,
    {
        proof {
            assert(line@.subrange(0, n as int).drop_last() =~= line@.subrange(0, n - 1));
        }
        n -= 1;
    }
    let token: &str = line.substring_char(0, n);
    if n == 3 && token.get_char(0) == 'y' && token.get_char(1) == 'e' && token.get_char(2) == 's' {
        proof {
            assert(token@ =~= yes());
        }
        Ok(true)
    } else if n == 2 && token.get_char(0) == 'n' && token.get_char(1) == 'o' {
        proof {
            assert(token@ =~= no());
        }
        Ok(false)
    } else {
        let reason = String::from_str("invalid choice: \"").concat(token).concat(
            "\". choices are: yes/no",
        );
        Err(Error::BrokenLogic { reason })
    }
}

} // verus!
