//! What the command-line client decides: whether it can work with a
//! database, what to run for a command line, and how to reach the clipboard.

use vstd::prelude::*;
use crate::types::views;

verus! {

/// The oldest database schema that the client works with.
pub const MIN_SUPPORTED_DB_SCHEMA_VERSION: i32 = 21;

/// The newest database schema that the client works with.
pub const MAX_SUPPORTED_DB_SCHEMA_VERSION: i32 = 21;

/// Why the client cannot work with a database.
#[derive(Clone, Copy, Debug, PartialEq, Eq, Structural)]
pub enum VersionError {
    /// The database has this version, which is older than the oldest supported.
    TooOld(i32),
    /// The database has this version, which is newer than the newest supported.
    TooNew(i32),
}

/// Checks the schema version of a database against the versions that the
/// client supports.
pub fn check_db_version(version: i32) -> (r: Result<(), VersionError>)
    ensures
        version < MIN_SUPPORTED_DB_SCHEMA_VERSION ==> r == Err::<(), VersionError>(
            VersionError::TooOld(version),
        ),
        version > MAX_SUPPORTED_DB_SCHEMA_VERSION ==> r == Err::<(), VersionError>(
            VersionError::TooNew(version),
        ),
        MIN_SUPPORTED_DB_SCHEMA_VERSION <= version <= MAX_SUPPORTED_DB_SCHEMA_VERSION ==> r is Ok,
{
    if version < MIN_SUPPORTED_DB_SCHEMA_VERSION {
        return Err(VersionError::TooOld(version));
    }
    if version > MAX_SUPPORTED_DB_SCHEMA_VERSION {
        return Err(VersionError::TooNew(version));
    }
    Ok(())
}

/// The character of a decimal digit.
pub open spec fn digit_char(d: int) -> char {
    if d == 0 {
        '0'
    } else if d == 1 {
        '1'
    } else if d == 2 {
        '2'
    } else if d == 3 {
        '3'
    } else if d == 4 {
        '4'
    } else if d == 5 {
        '5'
    } else if d == 6 {
        '6'
    } else if d == 7 {
        '7'
    } else if d == 8 {
        '8'
    } else {
        '9'
    }
}

/// The decimal digits of a natural number, without leading zeros.
pub open spec fn digits(n: nat) -> Seq<char>
    decreases n,
{
    if n < 10 {
        seq![digit_char(n as int)]
    } else {
        digits(n / 10).push(digit_char((n % 10) as int))
    }
}

/// An integer written in decimal, with a minus sign where it is negative.
pub open spec fn decimal(n: int) -> Seq<char> {
    if n < 0 {
        seq!['-'] + digits((-n) as nat)
    } else {
        digits(n as nat)
    }
}

/// Appends the decimal digits of a number to a text.
fn append_digits(out: &mut String, n: u32)
    ensures
        final(out)@ == old(out)@ + digits(n as nat),
    decreases n,
{
    if n >= 10 {
        append_digits(out, n / 10);
    }
    let ghost before = out@;
    let d: u32 = n % 10;
    let digit: &str = if d == 0 {
        "0"
    } else if d == 1 {
        "1"
    } else if d == 2 {
        "2"
    } else if d == 3 {
        "3"
    } else if d == 4 {
        "4"
    } else if d == 5 {
        "5"
    } else if d == 6 {
        "6"
    } else if d == 7 {
        "7"
    } else if d == 8 {
        "8"
    } else {
        "9"
    };
    proof {
        reveal_strlit("0");
        reveal_strlit("1");
        reveal_strlit("2");
        reveal_strlit("3");
        reveal_strlit("4");
        reveal_strlit("5");
        reveal_strlit("6");
        reveal_strlit("7");
        reveal_strlit("8");
        reveal_strlit("9");
        assert(digit@ =~= seq![digit_char(d as int)]);
    }
    out.append(digit);
    proof {
        if n >= 10 {
            assert(out@ =~= old(out)@ + digits((n / 10) as nat).push(digit_char(d as int)));
        } else {
            assert(out@ =~= old(out)@ + seq![digit_char(d as int)]);
        }
    }
}

/// Writes an integer in decimal.
pub fn decimal_text(n: i32) -> (r: String)
    ensures
        r@ == decimal(n as int),
{
    let mut out = String::new();
    if n < 0 {
        out.append("-");
        proof {
            reveal_strlit("-");
        }
        let magnitude: u32 = (-(n as i64)) as u32;
        append_digits(&mut out, magnitude);
        assert(out@ =~= seq!['-'] + digits((-n) as nat));
    } else {
        append_digits(&mut out, n as u32);
        assert(out@ =~= digits(n as nat));
    }
    out
}

impl VersionError {
    /// What to tell the user.
    pub open spec fn spec_message(self) -> Seq<char> {
        match self {
            VersionError::TooOld(version) => "The database version ("@ + decimal(version as int)
                + "), is older than the oldest version supported by this application. Please upgrade the main projectpad application."@,
            VersionError::TooNew(version) => "The database version ("@ + decimal(version as int)
                + "), is newer than the newest version supported by this application. Please upgrade this CLI application."@,
        }
    }

    /// What to tell the user: the version found, and which side to upgrade.
    pub fn message(&self) -> (r: String)
        ensures
            r@ == self.spec_message(),
    {
        let mut out = String::from_str("The database version (");
        match self {
            VersionError::TooOld(version) => {
                let number = decimal_text(*version);
                out.append(number.as_str());
                out.append(
                    "), is older than the oldest version supported by this application. Please upgrade the main projectpad application.",
                );
            },
            VersionError::TooNew(version) => {
                let number = decimal_text(*version);
                out.append(number.as_str());
                out.append(
                    "), is newer than the newest version supported by this application. Please upgrade this CLI application.",
                );
            },
        }
        out
    }
}

// ---------------------------------------------------------------------------
// Command lines
// ---------------------------------------------------------------------------
/// The words of a command line as a Unix shell would split it, quotes
/// removed, or nothing where a quote is left open: what `shell_words::split`
/// returns for the text.
pub uninterp spec fn shell_words(command_line: Seq<char>) -> Option<Seq<Seq<char>>>;

/// The error of `shell_words::split`: a quote that is not closed.
#[verifier::external_type_specification]
#[verifier::external_body]
pub struct ExParseError(shell_words::ParseError);

/// `shell_words::split`: splits a command line into words as a Unix shell
/// would. The result depends on the text alone; it is an error exactly where
/// no words are named for the text.
#[verifier::external_body]
fn split_shell_words(command_line: &str) -> (r: Result<Vec<String>, shell_words::ParseError>)
    ensures
        match r {
            Ok(words) => shell_words(command_line@) == Some(views(words@)),
            Err(_) => shell_words(command_line@) is None,
        },
{
    shell_words::split(command_line)
}

/// What to do for a command line.
#[derive(Debug, PartialEq, Eq)]
pub enum CommandPlan {
    /// The command line cannot be split into words: nothing is run.
    Unparsable,
    /// The command line holds no word: nothing is run.
    Nothing,
    /// Run this program with these arguments.
    Run { program: String, args: Vec<String> },
}

/// What a [`CommandPlan`] holds.
pub enum CommandPlanView {
    Unparsable,
    Nothing,
    Run { program: Seq<char>, args: Seq<Seq<char>> },
}

impl View for CommandPlan {
    type V = CommandPlanView;

    open spec fn view(&self) -> CommandPlanView {
        match self {
            CommandPlan::Unparsable => CommandPlanView::Unparsable,
            CommandPlan::Nothing => CommandPlanView::Nothing,
            CommandPlan::Run { program, args } => CommandPlanView::Run {
                program: program@,
                args: views(args@),
            },
        }
    }
}

/// What to do for the words of a command line: the first word is the
/// program, the others are its arguments.
pub open spec fn planned(words: Option<Seq<Seq<char>>>) -> CommandPlanView {
    match words {
        None => CommandPlanView::Unparsable,
        Some(w) => if w.len() == 0 {
            CommandPlanView::Nothing
        } else {
            CommandPlanView::Run { program: w[0], args: w.skip(1) }
        },
    }
}

/// Decides what to run for the words of a command line, or for the lack
/// of them where the command line could not be split.
pub fn plan_words(words: Option<Vec<String>>) -> (r: CommandPlan)
    ensures
        r@ == planned(
            match words {
                Some(w) => Some(views(w@)),
                None => None,
            },
        ),
{
    match words {
        None => CommandPlan::Unparsable,
        Some(cl_elts) => {
            if cl_elts.len() == 0 {
                return CommandPlan::Nothing;
            }
            let program = cl_elts[0].clone();
            let mut args: Vec<String> = Vec::new();
            let mut i: usize = 1;
            assert(views(args@) =~= views(cl_elts@).subrange(1, 1));
            while i < cl_elts.len()
                invariant
                    1 <= i <= cl_elts.len(),
                    views(args@) == views(cl_elts@).subrange(1, i as int),
                decreases cl_elts.len() - i,
            {
                let ghost before = views(args@);
                args.push(cl_elts[i].clone());
                assert(views(args@) =~= before.push(cl_elts@[i as int]@));
                assert(views(cl_elts@).subrange(1, i + 1) =~= views(cl_elts@).subrange(
                    1,
                    i as int,
                ).push(cl_elts@[i as int]@));
                i += 1;
            }
            assert(views(cl_elts@).subrange(1, cl_elts.len() as int) =~= views(cl_elts@).skip(1));
            CommandPlan::Run { program, args }
        },
    }
}

/// Decides what to run for a command line: splits it into words as a
/// shell would, then takes the first word as the program and the others as
/// its arguments.
pub fn plan_command(command_line: &str) -> (r: CommandPlan)
    ensures
        r@ == planned(shell_words(command_line@)),
{
    match split_shell_words(command_line) {
        Ok(cl_elts) => plan_words(Some(cl_elts)),
        Err(_) => plan_words(None),
    }
}

// ---------------------------------------------------------------------------
// The clipboard
// ---------------------------------------------------------------------------
/// The program that puts a text on the clipboard.
#[derive(Clone, Copy, Debug, PartialEq, Eq, Structural)]
pub enum ClipboardTool {
    /// `wl-copy`, which takes the text as its argument.
    WlCopy,
    /// `xsel --clipboard`, which reads the text from its input.
    Xsel,
    /// The session is neither Wayland nor X11.
    Unavailable,
}

/// Chooses the program that reaches the clipboard: `wl-copy` in a Wayland
/// session, else `xsel` in an X11 session, else none.
pub fn clipboard_tool(wayland_display: bool, x11_display: bool) -> (r: ClipboardTool)
    ensures
        r == (if wayland_display {
            ClipboardTool::WlCopy
        } else if x11_display {
            ClipboardTool::Xsel
        } else {
            ClipboardTool::Unavailable
        }),
{
    if wayland_display {
        ClipboardTool::WlCopy
    } else if x11_display {
        ClipboardTool::Xsel
    } else {
        ClipboardTool::Unavailable
    }
}

} // verus!
