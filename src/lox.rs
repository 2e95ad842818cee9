use crate::model::{scan_errors_of, scan_tokens_of};
use crate::scanner::Scanner;
use crate::token::{token_text, ScanError, ScanErrorKind, ScanErrorModel, Token, TokenModel};
use vstd::prelude::*;
use vstd::string::StringExecFns;

verus! {

/// The character of a decimal digit `d`.
pub open spec fn digit_char(d: nat) -> char {
    if d == 0 {
        '0'
    } else if d == 1 {
        '1'
    } else if d == 2 {
        '2'
    } else if d == 3 {
        '3'
    } else if d == 4 {
        '4'
    } else if d == 5 {
        '5'
    } else if d == 6 {
        '6'
    } else if d == 7 {
        '7'
    } else if d == 8 {
        '8'
    } else {
        '9'
    }
}

/// The decimal numeral of `n`, without leading zeros.
pub open spec fn decimal(n: nat) -> Seq<char>
    decreases n,
{
    if n < 10 {
        seq![digit_char(n)]
    } else {
        decimal(n / 10).push(digit_char(n % 10))
    }
}

/// Relies on `usize::to_string` (through `Display`): the decimal numeral of `n`.
#[verifier::external_body]
fn decimal_text(n: usize) -> (r: String)
    ensures
        r@ == decimal(n as nat),
{
    n.to_string()
}

/// The message of each kind of lexical error.
pub open spec fn error_message(k: ScanErrorKind) -> Seq<char> {
    match k {
        ScanErrorKind::UnterminatedString => "Unterminated string."@,
        ScanErrorKind::UnexpectedCharacter => "Unexpected character."@,
    }
}

/// The diagnostic line `[line <line>] Error<where>: <message>`.
pub open spec fn report_text(line: Seq<char>, wh: Seq<char>, message: Seq<char>) -> Seq<char> {
    "[line "@ + line + "] Error"@ + wh + ": "@ + message
}

/// The diagnostic line of a lexical error.
pub open spec fn diagnostic(e: ScanErrorModel) -> Seq<char> {
    report_text(decimal(e.line as nat), Seq::empty(), error_message(e.kind))
}

/// What a driver does when it starts, from its command-line arguments
/// (the program name first).
#[derive(Debug, PartialEq)]
pub enum StartMode {
    /// Too many arguments: print the usage line and stop.
    Usage,
    /// Run the script at this path.
    RunFile(String),
    /// Read lines interactively.
    Prompt,
}

/// The state a driver keeps across runs: whether a lexical error was reported.
pub struct Lox {
    has_error: bool,
}

impl Lox {
    /// Whether an error was reported since the driver started or was last reset.
    pub closed spec fn had_error_spec(&self) -> bool {
        self.has_error
    }

    pub fn new() -> (r: Lox)
        ensures
            !r.had_error_spec(),
    {
        Lox { has_error: false }
    }

    /// Whether an error was reported since the driver started or was last reset.
    pub fn had_error(&self) -> (r: bool)
        ensures
            r == self.had_error_spec(),
    {
        self.has_error
    }

    /// Forgets the errors reported so far, as an interactive session does
    /// between two lines.
    pub fn reset(&mut self)
        ensures
            !final(self).had_error_spec(),
    {
        self.has_error = false;
    }

    /// Records an error at `line` and returns its diagnostic line.
    pub fn error(&mut self, line: &str, message: &str) -> (r: String)
        ensures
            final(self).had_error_spec(),
            r@ == report_text(line@, Seq::empty(), message@),
    {
        proof {
            reveal_strlit("");
        }
        self.report(line, "", message)
    }

    fn report(&mut self, line: &str, wh: &str, message: &str) -> (r: String)
        ensures
            final(self).had_error_spec(),
            r@ == report_text(line@, wh@, message@),
    {
        self.has_error = true;
        let mut out = String::from_str("[line ");
        out.append(line);
        out.append("] Error");
        out.append(wh);
        out.append(": ");
        out.append(message);
        proof {
            assert(out@ =~= report_text(line@, wh@, message@));
        }
        out
    }

    fn message_of(kind: ScanErrorKind) -> (r: &'static str)
        ensures
            r@ == error_message(kind),
    {
        match kind {
            ScanErrorKind::UnterminatedString => "Unterminated string.",
            ScanErrorKind::UnexpectedCharacter => "Unexpected character.",
        }
    }

    /// Scans `source` and returns what a driver prints for it: the diagnostic
    /// line of each lexical error, then the rendering of each token. The
    /// error flag is set when the scan reported any error.
    pub fn run(&mut self, source: String) -> (r: Vec<String>)
        requires
            source@.len() < usize::MAX,
        ensures
            final(self).had_error_spec() == (old(self).had_error_spec() || scan_errors_of(
                source@,
            ).len() > 0),
            r@.map_values(|l: String| l@) == scan_errors_of(source@).map_values(
                |e: ScanErrorModel| diagnostic(e),
            ) + scan_tokens_of(source@).map_values(|t: TokenModel| token_text(t)),
    {
        let ghost s = source@;
        let mut scan = Scanner::new_from(source);
        scan.scan_tokens();
        let errors = scan.errors();
        let tokens = scan.tokens();
        let ghost errs = scan_errors_of(s);
        let ghost toks = scan_tokens_of(s);
        assert(errors@.map_values(|e: ScanError| e@) =~= errs);
        assert(tokens@.map_values(|t: Token| t@) =~= toks);
        let ghost old_flag = self.has_error;
        let mut lines: Vec<String> = Vec::new();
        let mut i: usize = 0;
        while i < errors.len()
            invariant
                i <= errors.len() == errs.len(),
                errors@.map_values(|e: ScanError| e@) == errs,
                lines.len() == i,
                forall|k: int| 0 <= k < i ==> #[trigger] lines@[k]@ == diagnostic(errs[k]),
                self.has_error == (old_flag || i > 0),
            decreases errors.len() - i,
        {
            let e = errors[i];
            assert(errs[i as int] == e@);
            let line = decimal_text(e.line);
            let d = self.error(line.as_str(), Lox::message_of(e.kind));
            lines.push(d);
            i = i + 1;
        }
        let n = lines.len();
        let mut j: usize = 0;
        while j < tokens.len()
            invariant
                j <= tokens.len() == toks.len(),
                n == errs.len(),
                tokens@.map_values(|t: Token| t@) == toks,
                lines.len() == n + j,
                forall|k: int| 0 <= k < n ==> #[trigger] lines@[k]@ == diagnostic(errs[k]),
                forall|k: int| 0 <= k < j ==> #[trigger] lines@[n + k]@ == token_text(toks[k]),
            decreases tokens.len() - j,
        {
            assert(toks[j as int] == tokens@[j as int]@);
            let text = tokens[j].to_string();
            lines.push(text);
            j = j + 1;
        }
        let ghost want = errs.map_values(|e: ScanErrorModel| diagnostic(e)) + toks.map_values(
            |t: TokenModel| token_text(t),
        );
        assert forall|k: int| 0 <= k < lines.len() implies #[trigger] lines@[k]@ == want[k] by {
            if k >= n {
                assert(lines@[n + (k - n)]@ == token_text(toks[k - n]));
            }
        }
        assert(lines@.map_values(|l: String| l@) =~= want);
        lines
    }

    /// Decides how to start from the command-line arguments, the program name
    /// first: with more than one further argument, print the usage line; with
    /// exactly one, run that script; with none, read lines interactively.
    pub fn start_up(&self, args: &Vec<String>) -> (r: StartMode)
        ensures
            args.len() > 2 ==> r == StartMode::Usage,
            args.len() == 2 ==> (r matches StartMode::RunFile(p) && p@ == args@[1]@),
            args.len() < 2 ==> r == StartMode::Prompt,
    {
        if args.len() > 2 {
            StartMode::Usage
        } else if args.len() == 2 {
            StartMode::RunFile(args[1].clone())
        } else {
            StartMode::Prompt
        }
    }

    /// The exit status for a script run: 65 when an error was reported, else 0.
    pub fn exit_code(&self) -> (r: i32)
        ensures
            r == if self.had_error_spec() {
                65i32
            } else {
                0i32
            },
    {
        if self.has_error {
            65
        } else {
            0
        }
    }
}

} // verus!
