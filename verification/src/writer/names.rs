//! The names of the files of a recording.

use vstd::prelude::*;
use vstd::string::StringExecFns;

verus! {

/// The decimal digit `d`, for `d` below ten.
pub open spec fn decimal_digit(d: nat) -> char {
    if d == 0 {
        '0'
    } else if d == 1 {
        '1'
    } else if d == 2 {
        '2'
    } else if d == 3 {
        '3'
    } else if d == 4 {
        '4'
    } else if d == 5 {
        '5'
    } else if d == 6 {
        '6'
    } else if d == 7 {
        '7'
    } else if d == 8 {
        '8'
    } else {
        '9'
    }
}

/// `value` in decimal, without leading zeros.
pub open spec fn decimal(value: nat) -> Seq<char>
    decreases value,
{
    if value < 10 {
        seq![decimal_digit(value)]
    } else {
        decimal(value / 10).push(decimal_digit(value % 10))
    }
}

/// The name of the file of a stream: the user's name where there is one,
/// else the user's number in decimal, and the extension `.opus`.
pub open spec fn spec_stream_file_name(user_id: u64, user_name: Option<String>) -> Seq<char> {
    match user_name {
        Some(name) => name@ + ".opus"@,
        None => decimal(user_id as nat) + ".opus"@,
    }
}

/// The name of the archive of a recording: the name of its directory and
/// the extension `.zip`.
pub open spec fn spec_archive_name(output_dir_name: Seq<char>) -> Seq<char> {
    output_dir_name + ".zip"@
}

fn digit_str(d: u64) -> (text: &'static str)
    requires
        d < 10,
    ensures
        text@ == seq![decimal_digit(d as nat)],
{
    proof {
        reveal_strlit("0");
        reveal_strlit("1");
        reveal_strlit("2");
        reveal_strlit("3");
        reveal_strlit("4");
        reveal_strlit("5");
        reveal_strlit("6");
        reveal_strlit("7");
        reveal_strlit("8");
        reveal_strlit("9");
    }
    let text = match d {
        0 => "0",
        1 => "1",
        2 => "2",
        3 => "3",
        4 => "4",
        5 => "5",
        6 => "6",
        7 => "7",
        8 => "8",
        _ => "9",
    };
    assert(text@ =~= seq![decimal_digit(d as nat)]);
    text
}

/// Writes `value` in decimal.
pub fn decimal_string(value: u64) -> (text: String)
    ensures
        text@ == decimal(value as nat),
{
    let mut rest: u64 = value / 10;
    let mut text: String = String::from_str(digit_str(value % 10));
    while rest > 0
        invariant
            decimal(value as nat) == if rest == 0 {
                text@
            } else {
                decimal(rest as nat) + text@
            },
        decreases rest,
    {
        let ghost before = text@;
        text = String::from_str(digit_str(rest % 10)).concat(text.as_str());
        proof {
            let digit = seq![decimal_digit((rest % 10) as nat)];
            assert(text@ == digit + before);
            if rest >= 10 {
                assert(decimal((rest / 10) as nat).push(decimal_digit((rest % 10) as nat)) + before
                    =~= decimal((rest / 10) as nat) + (digit + before));
            }
        }
        rest = rest / 10;
    }
    text
}

/// The name of the file of a stream.
pub fn stream_file_name(user_id: u64, user_name: Option<String>) -> (name: String)
    ensures
        name@ == spec_stream_file_name(user_id, user_name),
{
    match user_name {
        None => decimal_string(user_id).concat(".opus"),
        Some(name) => name.concat(".opus"),
    }
}

/// The name of the archive of a recording.
pub fn archive_name(output_dir_name: &str) -> (name: String)
    ensures
        name@ == spec_archive_name(output_dir_name@),
{
    String::from_str(output_dir_name).concat(".zip")
}

} // verus!
