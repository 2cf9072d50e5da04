//! The command line of the image encoder.
//!
//! The encoder takes an effort level, a quality in percent, the path of
//! the input file and the path of the output file.

use vstd::prelude::*;
use vstd::string::*;
use crate::column::texts_of;
use crate::method::ConversionMethod;

verus! {

/// The highest quality that the encoder takes.
pub const QUALITY_LIMIT: u64 = 100;

/// Why the encoder cannot be run.
#[derive(Clone, Copy, Debug, PartialEq, Eq, Structural)]
pub enum EncoderError {
    /// The quality is above 100.
    QualityOutOfRange,
}

impl EncoderError {
    /// The message for this error.
    pub open spec fn spec_message(self) -> Seq<char> {
        "Quality must be between 0 and 100"@
    }

    /// Returns the message for this error.
    pub fn message(&self) -> (text: &'static str)
        ensures
            text@ == self.spec_message(),
    {
        "Quality must be between 0 and 100"
    }
}

/// The character for the digit `d`.
pub open spec fn digit_char(d: nat) -> char {
    (48 + d) as char
}

/// `n` in decimal notation, without leading zeros.
pub open spec fn decimal(n: nat) -> Seq<char>
    decreases n,
{
    if n < 10 {
        seq![digit_char(n)]
    } else {
        decimal(n / 10).push(digit_char(n % 10))
    }
}

fn digit_str(d: u64) -> (text: &'static str)
    requires
        d < 10,
    ensures
        text@ == seq![digit_char(d as nat)],
{
    proof {
        reveal_strlit("0");
        reveal_strlit("1");
        reveal_strlit("2");
        reveal_strlit("3");
        reveal_strlit("4");
        reveal_strlit("5");
        reveal_strlit("6");
        reveal_strlit("7");
        reveal_strlit("8");
        reveal_strlit("9");
    }
    let text = match d {
        0 => "0",
        1 => "1",
        2 => "2",
        3 => "3",
        4 => "4",
        5 => "5",
        6 => "6",
        7 => "7",
        8 => "8",
        _ => "9",
    };
    assert(text@ =~= seq![digit_char(d as nat)]);
    text
}

/// Writes `n` in decimal notation, without leading zeros.
pub fn decimal_string(n: u64) -> (text: String)
    ensures
        text@ == decimal(n as nat),
    decreases n,
{
    if n < 10 {
        String::from_str(digit_str(n))
    } else {
        let mut text = decimal_string(n / 10);
        text.append(digit_str(n % 10));
        text
    }
}

/// The arguments that make the encoder convert `input` to `output`: the
/// effort level by its number, the quality, multi-threading, automatic
/// filter strength and progress reporting, then the two paths.
pub open spec fn encoder_arguments(
    method: ConversionMethod,
    quality: u64,
    input: Seq<char>,
    output: Seq<char>,
) -> Seq<Seq<char>> {
    seq![
        "-m"@,
        decimal(method.spec_level()),
        "-q"@,
        decimal(quality as nat),
        "-mt"@,
        "-af"@,
        "-progress"@,
        input,
        "-o"@,
        output,
    ]
}

/// Returns the arguments that make the encoder convert `input` to `output`
/// with the given effort and quality. A quality above 100 is turned down.
pub fn webp_arguments(method: ConversionMethod, quality: u64, input: &str, output: &str) -> (result:
    Result<Vec<String>, EncoderError>)
    ensures
        result is Err <==> quality > QUALITY_LIMIT,
        result matches Ok(arguments) ==> texts_of(arguments@) == encoder_arguments(
            method,
            quality,
            input@,
            output@,
        ),
{
    if quality > QUALITY_LIMIT {
        return Err(EncoderError::QualityOutOfRange);
    }
    let mut arguments: Vec<String> = Vec::new();
    arguments.push(String::from_str("-m"));
    arguments.push(decimal_string(method.level() as u64));
    arguments.push(String::from_str("-q"));
    arguments.push(decimal_string(quality));
    arguments.push(String::from_str("-mt"));
    arguments.push(String::from_str("-af"));
    arguments.push(String::from_str("-progress"));
    arguments.push(String::from_str(input));
    arguments.push(String::from_str("-o"));
    arguments.push(String::from_str(output));
    assert(texts_of(arguments@) =~= encoder_arguments(method, quality, input@, output@));
    Ok(arguments)
}

} // verus!
