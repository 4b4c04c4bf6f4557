//! The command line: which colour to play in, or whether to show the help.

use vstd::prelude::*;

verus! {

/// What the program does on a given command line.
#[derive(Clone, Copy, Debug, PartialEq, Eq, Structural)]
pub enum Launch {
    /// Play, with everything drawn in this colour.
    Play(i32),
    /// Show the help and end normally.
    Help,
    /// Show the help and end with a failure.
    Fail,
}

/// The number that `str::parse::<i32>` reads from a text, or `None` where it
/// reports an error.
pub uninterp spec fn parsed_code(text: Seq<char>) -> Option<i32>;

/// Calls `str::parse::<i32>`: the result is the number that the standard
/// library reads from `text`, and `None` stands for its error. What it reads
/// is not spelled out here, only named.
#[verifier::external_body]
fn parse_code(text: &str) -> (r: Option<i32>)
    ensures
        r == parsed_code(text@),
{
    match text.parse::<i32>() {
        Ok(v) => Some(v),
        Err(_) => None,
    }
}

/// The colours a game can be played in: red, green, yellow and blue.
pub open spec fn allowed_color(code: int) -> bool {
    code == 31 || code == 32 || code == 33 || code == 34
}

/// What follows from the colour argument once it has been read: no number is
/// a failure, a number that is no colour asks for the help, and a colour is
/// played in.
pub open spec fn color_choice(code: Option<i32>) -> Launch {
    match code {
        None => Launch::Fail,
        Some(c) => if allowed_color(c as int) {
            Launch::Play(c)
        } else {
            Launch::Help
        },
    }
}

/// What follows from a whole command line, the program's name first: with
/// fewer than two arguments, or a first argument other than `--color`, the
/// help; else what the second argument, read as a number, stands for.
pub open spec fn launch_of(args: Seq<String>) -> Launch {
    if args.len() < 3 {
        Launch::Help
    } else if args[1]@ == "--color"@ {
        color_choice(parsed_code(args[2]@))
    } else {
        Launch::Help
    }
}

pub fn select_color(code: Option<i32>) -> (r: Launch)
    ensures
        r == color_choice(code),
{
    match code {
        None => Launch::Fail,
        Some(c) => {
            if c == 31 || c == 32 || c == 33 || c == 34 {
                Launch::Play(c)
            } else {
                Launch::Help
            }
        },
    }
}

/// Decides from the command line whether to play, and in which colour.
pub fn launch(args: &Vec<String>) -> (r: Launch)
    ensures
        r == launch_of(args@),
{
    if args.len() < 3 {
        return Launch::Help;
    }
    let flag: String = "--color".to_owned();
    if args[1] == flag {
        let code: Option<i32> = parse_code(args[2].as_str());
        select_color(code)
    } else {
        Launch::Help
    }
}

} // verus!
