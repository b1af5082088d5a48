//! The command line: which flags were given, and the tick period.

use crate::text::{bytes_start_with, number_of, parse_number, starts_with};
use vstd::prelude::*;
use vstd::string::*;
use vstd::utf8::encode_utf8;

verus! {

/// The tick period where none is given, in milliseconds.
pub const DEFAULT_TICK_MS: u64 = 500;

/// The shortest tick period.
pub const MIN_TICK_MS: u64 = 50;

/// The longest tick period.
pub const MAX_TICK_MS: u64 = 5000;

/// What the command line asks for.
#[derive(Clone, Copy, Debug, PartialEq, Eq, Structural)]
pub struct Args {
    /// The tick period in milliseconds.
    pub tick_ms: u64,
    /// Whether the mouse is left alone.
    pub no_mouse: bool,
    /// Whether the help text is asked for, or an argument was not
    /// understood.
    pub show_help: bool,
    /// Whether the version is asked for.
    pub show_version: bool,
}

/// `value` brought into the range of tick periods.
pub open spec fn clamped(value: u64) -> u64 {
    if value < MIN_TICK_MS {
        MIN_TICK_MS
    } else if value > MAX_TICK_MS {
        MAX_TICK_MS
    } else {
        value
    }
}

/// The bytes of `text` up to its first equals sign, or all of them.
pub open spec fn until_equals(text: Seq<u8>) -> Seq<u8>
    decreases text.len(),
{
    if text.len() == 0 || text[0] == 0x3d {
        Seq::empty()
    } else {
        seq![text[0]] + until_equals(text.drop_first())
    }
}

/// The value of an argument of the form `--tick-ms=VALUE`: what stands
/// between its first equals sign and its second, or its end.
pub open spec fn inline_value(arg: Seq<u8>) -> Seq<u8> {
    until_equals(arg.skip(10))
}

/// What the arguments from `index` on make of `args`. An argument that is
/// not understood asks for the help text.
pub open spec fn parsed_from(argv: Seq<Seq<char>>, index: int, args: Args) -> Args
    decreases argv.len() - index,
{
    if index < 0 || index >= argv.len() {
        args
    } else {
        let arg = argv[index];
        let help = Args { show_help: true, ..args };
        if arg == "-h"@ || arg == "--help"@ {
            parsed_from(argv, index + 1, help)
        } else if arg == "-V"@ || arg == "--version"@ {
            parsed_from(argv, index + 1, Args { show_version: true, ..args })
        } else if arg == "--no-mouse"@ {
            parsed_from(argv, index + 1, Args { no_mouse: true, ..args })
        } else if arg == "--tick-ms"@ {
            if index + 1 >= argv.len() {
                parsed_from(argv, index + 1, help)
            } else {
                match number_of(encode_utf8(argv[index + 1])) {
                    Some(value) => parsed_from(
                        argv,
                        index + 2,
                        Args { tick_ms: clamped(value), ..args },
                    ),
                    None => parsed_from(argv, index + 1, help),
                }
            }
        } else if starts_with(encode_utf8(arg), encode_utf8("--tick-ms="@)) {
            match number_of(inline_value(encode_utf8(arg))) {
                Some(value) => parsed_from(
                    argv,
                    index + 1,
                    Args { tick_ms: clamped(value), ..args },
                ),
                None => parsed_from(argv, index + 1, help),
            }
        } else {
            parsed_from(argv, index + 1, help)
        }
    }
}

/// What a command line asks for before any of its arguments is read.
pub open spec fn initial_args() -> Args {
    Args { tick_ms: DEFAULT_TICK_MS, no_mouse: false, show_help: false, show_version: false }
}

/// What the command line `argv` asks for. Its first entry names the
/// program and is not read.
pub open spec fn args_of(argv: Seq<Seq<char>>) -> Args {
    parsed_from(argv, 1, initial_args())
}

/// Whatever the arguments, the tick period lies in its range.
pub proof fn lemma_tick_in_range(argv: Seq<Seq<char>>, index: int, args: Args)
    requires
        MIN_TICK_MS <= args.tick_ms <= MAX_TICK_MS,
    ensures
        MIN_TICK_MS <= parsed_from(argv, index, args).tick_ms <= MAX_TICK_MS,
    decreases argv.len() - index,
{
    if 0 <= index < argv.len() {
        let arg = argv[index];
        let help = Args { show_help: true, ..args };
        lemma_tick_in_range(argv, index + 1, help);
        lemma_tick_in_range(argv, index + 1, Args { show_version: true, ..args });
        lemma_tick_in_range(argv, index + 1, Args { no_mouse: true, ..args });
        if index + 1 < argv.len() {
            match number_of(encode_utf8(argv[index + 1])) {
                Some(value) => {
                    lemma_tick_in_range(argv, index + 2, Args { tick_ms: clamped(value), ..args });
                },
                None => {},
            }
        }
        match number_of(inline_value(encode_utf8(arg))) {
            Some(value) => {
                lemma_tick_in_range(argv, index + 1, Args { tick_ms: clamped(value), ..args });
            },
            None => {},
        }
    }
}

/// Whether a text is the given word.
fn is_word(text: &str, word: &str) -> (same: bool)
    ensures
        same == (text@ == word@),
{
    let a = text.as_bytes();
    let b = word.as_bytes();
    proof {
        vstd::utf8::encode_utf8_decode_utf8(text@);
        vstd::utf8::encode_utf8_decode_utf8(word@);
    }
    if a.len() != b.len() {
        return false;
    }
    let mut i: usize = 0;
    while i < a.len()
        invariant
            i <= a@.len(),
            a@.len() == b@.len(),
            a@ == encode_utf8(text@),
            b@ == encode_utf8(word@),
            forall|k: int| 0 <= k < i ==> a@[k] == b@[k],
        decreases a@.len() - i,
    {
        if a[i] != b[i] {
            assert(a@[i as int] != b@[i as int]);
            return false;
        }
        i += 1;
    }
    assert(a@ =~= b@);
    true
}

/// Reads the value of an argument of the form `--tick-ms=VALUE`.
fn parse_inline(arg: &[u8]) -> (number: Option<u64>)
    requires
        arg@.len() >= 10,
    ensures
        number == number_of(inline_value(arg@)),
{
    let mut value: Vec<u8> = Vec::new();
    let mut i: usize = 10;
    let ghost rest = arg@.skip(10);
    while i < arg.len() && arg[i] != 0x3d
        invariant
            10 <= i <= arg@.len(),
            rest == arg@.skip(10),
            until_equals(rest) == value@ + until_equals(arg@.skip(i as int)),
        decreases arg@.len() - i,
    {
        proof {
            let here = arg@.skip(i as int);
            assert(here.drop_first() =~= arg@.skip(i + 1));
            assert(value@.push(arg@[i as int]) + until_equals(arg@.skip(i + 1)) =~= value@ + (
            seq![here[0]] + until_equals(here.drop_first())));
        }
        value.push(arg[i]);
        i += 1;
    }
    proof {
        assert(until_equals(arg@.skip(i as int)) =~= Seq::<u8>::empty());
        assert(value@ + Seq::<u8>::empty() =~= value@);
    }
    parse_number(value.as_slice())
}

/// Brings a number into the range of tick periods.
pub fn clamp_tick(value: u64) -> (tick: u64)
    ensures
        tick == clamped(value),
        MIN_TICK_MS <= tick <= MAX_TICK_MS,
{
    if value < MIN_TICK_MS {
        MIN_TICK_MS
    } else if value > MAX_TICK_MS {
        MAX_TICK_MS
    } else {
        value
    }
}

/// The views of the arguments.
pub open spec fn words_of(argv: Seq<String>) -> Seq<Seq<char>> {
    argv.map_values(|arg: String| arg@)
}

/// Reads the argument at `index`, and with it the next one where it is the
/// value of the first. Returns what the arguments now ask for, and the
/// index of the next argument to read.
fn parse_one(argv: &Vec<String>, index: usize, args: Args) -> (out: (Args, usize))
    requires
        index < argv@.len(),
        MIN_TICK_MS <= args.tick_ms <= MAX_TICK_MS,
    ensures
        index < out.1 <= argv@.len(),
        MIN_TICK_MS <= out.0.tick_ms <= MAX_TICK_MS,
        parsed_from(words_of(argv@), index as int, args) == parsed_from(
            words_of(argv@),
            out.1 as int,
            out.0,
        ),
{
    let ghost words = words_of(argv@);
    let count: usize = argv.len();
    let arg = argv[index].as_str();
    assert(words[index as int] == arg@);
    let help = Args {
        tick_ms: args.tick_ms,
        no_mouse: args.no_mouse,
        show_help: true,
        show_version: args.show_version,
    };
    if is_word(arg, "-h") || is_word(arg, "--help") {
        (help, index + 1)
    } else if is_word(arg, "-V") || is_word(arg, "--version") {
        (
            Args {
                tick_ms: args.tick_ms,
                no_mouse: args.no_mouse,
                show_help: args.show_help,
                show_version: true,
            },
            index + 1,
        )
    } else if is_word(arg, "--no-mouse") {
        (
            Args {
                tick_ms: args.tick_ms,
                no_mouse: true,
                show_help: args.show_help,
                show_version: args.show_version,
            },
            index + 1,
        )
    } else if is_word(arg, "--tick-ms") {
        if index + 1 >= count {
            (help, index + 1)
        } else {
            assert(words[index + 1] == argv@[index + 1]@);
            match parse_number(argv[index + 1].as_str().as_bytes()) {
                Some(value) => (
                    Args {
                        tick_ms: clamp_tick(value),
                        no_mouse: args.no_mouse,
                        show_help: args.show_help,
                        show_version: args.show_version,
                    },
                    index + 2,
                ),
                None => (help, index + 1),
            }
        }
    } else if bytes_start_with(arg.as_bytes(), "--tick-ms=".as_bytes()) {
        proof {
            reveal_strlit("--tick-ms=");
            vstd::utf8::is_ascii_chars_encode_utf8("--tick-ms="@);
        }
        match parse_inline(arg.as_bytes()) {
            Some(value) => (
                Args {
                    tick_ms: clamp_tick(value),
                    no_mouse: args.no_mouse,
                    show_help: args.show_help,
                    show_version: args.show_version,
                },
                index + 1,
            ),
            None => (help, index + 1),
        }
    } else {
        (help, index + 1)
    }
}

/// Reads the command line. The first entry names the program and is not
/// read.
pub fn parse_args(argv: &Vec<String>) -> (args: Args)
    ensures
        args == args_of(words_of(argv@)),
        MIN_TICK_MS <= args.tick_ms <= MAX_TICK_MS,
{
    let mut args = Args {
        tick_ms: DEFAULT_TICK_MS,
        no_mouse: false,
        show_help: false,
        show_version: false,
    };
    let mut i: usize = 1;
    while i < argv.len()
        invariant
            1 <= i,
            args_of(words_of(argv@)) == parsed_from(words_of(argv@), i as int, args),
            MIN_TICK_MS <= args.tick_ms <= MAX_TICK_MS,
        decreases argv@.len() - i,
    {
        let (next_args, next) = parse_one(argv, i, args);
        args = next_args;
        i = next;
    }
    args
}

} // verus!
