//! A record and the line it is written as:
//!
//! ```text
//! <moment> <file>:<line> [<target>] <LEVEL>: <message>\n
//! ```
//!
//! `<file>:<line>` is left empty where the record does not say where it
//! was made.
use vstd::prelude::*;
use vstd::string::*;
use crate::level::Level;

verus! {

/// What a caller hands to the sink.
#[derive(Debug)]
pub struct Record {
    pub level: Level,
    /// The module or category that the record belongs to.
    pub target: String,
    /// The source file in which the record was made.
    pub file: Option<String>,
    /// The line in that file.
    pub line: Option<u32>,
    /// The message, rendered.
    pub args: String,
}

/// The character of the digit `d`.
pub open spec fn spec_digit(d: int) -> char {
    if d == 0 {
        '0'
    } else if d == 1 {
        '1'
    } else if d == 2 {
        '2'
    } else if d == 3 {
        '3'
    } else if d == 4 {
        '4'
    } else if d == 5 {
        '5'
    } else if d == 6 {
        '6'
    } else if d == 7 {
        '7'
    } else if d == 8 {
        '8'
    } else {
        '9'
    }
}

/// The decimal digits of `n`, without leading zeros.
pub open spec fn spec_decimal(n: nat) -> Seq<char>
    decreases n,
{
    if n < 10 {
        seq![spec_digit(n as int)]
    } else {
        spec_decimal(n / 10).push(spec_digit((n % 10) as int))
    }
}

/// Where the record was made, as `file:line`, or nothing where file or
/// line is missing.
pub open spec fn spec_file_line(file: Option<Seq<char>>, line: Option<u32>) -> Seq<char> {
    match (file, line) {
        (Some(f), Some(l)) => f + seq![':'] + spec_decimal(l as nat),
        _ => Seq::empty(),
    }
}

/// The line of a record made at the moment whose text is `stamp`.
pub open spec fn spec_format(
    stamp: Seq<char>,
    file: Option<Seq<char>>,
    line: Option<u32>,
    target: Seq<char>,
    level: Level,
    args: Seq<char>,
) -> Seq<char> {
    stamp + seq![' '] + spec_file_line(file, line) + seq![' ', '['] + target + seq![']', ' ']
        + level.spec_name() + seq![':', ' '] + args + seq!['\n']
}

impl Record {
    /// The source file as characters, if there is one.
    pub open spec fn spec_file(self) -> Option<Seq<char>> {
        match self.file {
            Some(f) => Some(f@),
            None => None,
        }
    }

    /// The line of this record, made at the moment whose text is `stamp`.
    pub open spec fn spec_line(self, stamp: Seq<char>) -> Seq<char> {
        spec_format(stamp, self.spec_file(), self.line, self.target@, self.level, self.args@)
    }
}

fn digit(d: u32) -> (text: &'static str)
    requires
        d < 10,
    ensures
        text@ == seq![spec_digit(d as int)],
{
    proof {
        reveal_strlit("0");
        reveal_strlit("1");
        reveal_strlit("2");
        reveal_strlit("3");
        reveal_strlit("4");
        reveal_strlit("5");
        reveal_strlit("6");
        reveal_strlit("7");
        reveal_strlit("8");
        reveal_strlit("9");
    }
    let text = if d == 0 {
        "0"
    } else if d == 1 {
        "1"
    } else if d == 2 {
        "2"
    } else if d == 3 {
        "3"
    } else if d == 4 {
        "4"
    } else if d == 5 {
        "5"
    } else if d == 6 {
        "6"
    } else if d == 7 {
        "7"
    } else if d == 8 {
        "8"
    } else {
        "9"
    };
    assert(text@ =~= seq![spec_digit(d as int)]);
    text
}

/// Writes the decimal digits of `n` behind `text`.
pub fn append_decimal(text: &mut String, n: u32)
    ensures
        final(text)@ == old(text)@ + spec_decimal(n as nat),
    decreases n,
{
    if n >= 10 {
        append_decimal(text, n / 10);
    }
    text.append(digit(n % 10));
    proof {
        if n >= 10 {
            assert(final(text)@ =~= old(text)@ + spec_decimal(n as nat));
        }
    }
}

/// Where a record was made, as `file:line`.
pub fn file_line(file: Option<&str>, line: Option<u32>) -> (text: String)
    ensures
        text@ == spec_file_line(
            match file {
                Some(f) => Some(f@),
                None => None,
            },
            line,
        ),
{
    match (file, line) {
        (Some(f), Some(l)) => {
            proof {
                reveal_strlit(":");
                assert(":"@ =~= seq![':']);
            }
            let mut text = f.to_owned();
            text.append(":");
            append_decimal(&mut text, l);
            text
        },
        _ => String::new(),
    }
}

/// The line of a record made at the moment whose text is `stamp`.
pub fn format_record(stamp: &str, record: &Record) -> (text: String)
    ensures
        text@ == record.spec_line(stamp@),
{
    proof {
        reveal_strlit(" ");
        reveal_strlit(" [");
        reveal_strlit("] ");
        reveal_strlit(": ");
        reveal_strlit("\n");
        assert(" "@ =~= seq![' ']);
        assert(" ["@ =~= seq![' ', '[']);
        assert("] "@ =~= seq![']', ' ']);
        assert(": "@ =~= seq![':', ' ']);
        assert("\n"@ =~= seq!['\n']);
    }
    let place = match &record.file {
        Some(f) => file_line(Some(f.as_str()), record.line),
        None => file_line(None, record.line),
    };
    let mut text = stamp.to_owned();
    text.append(" ");
    text.append(place.as_str());
    text.append(" [");
    text.append(record.target.as_str());
    text.append("] ");
    text.append(record.level.as_str());
    text.append(": ");
    text.append(record.args.as_str());
    text.append("\n");
    text
}

} // verus!
