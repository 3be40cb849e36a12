//! The command line.

use vstd::prelude::*;
use vstd::string::StringExecFns;

use crate::board::{mix64, mixed};
use crate::text::{debug_text, parse_u32, parse_u64, parse_unsigned, quoted, same_text};

verus! {

/// The side of the clusters that a game starts with, where nothing else is asked
/// for.
pub const DEFAULT_CLUSTER_SIZE: u32 = 24;

/// What the program starts with.
#[derive(Clone, Copy, Debug, PartialEq, Eq, Structural)]
pub struct StartupConfig {
    pub seed: u64,
    pub cluster_size: u32,
    pub perfect_vsync: bool,
}

/// What the command line asks for.
#[derive(Clone, Copy, Debug, PartialEq, Eq, Structural)]
pub struct StartupArgs {
    pub seed: Option<u64>,
    pub cluster_size: u32,
    pub perfect_vsync: bool,
}

/// The complaint about a value that is no number.
pub open spec fn unsigned_complaint(name: Seq<char>, quote: Seq<char>) -> Seq<char> {
    name + " must be an unsigned integer, got "@ + quote
}

/// What arguments ask for on top of what was asked before, or the complaint about
/// the first of them that is not in order.
pub open spec fn read_args(args: Seq<Seq<char>>, before: StartupArgs) -> Result<
    StartupArgs,
    Seq<char>,
>
    decreases args.len(),
{
    if args.len() == 0 {
        Ok(before)
    } else if args[0] == "--seed"@ || args[0] == "-s"@ {
        if args.len() == 1 {
            Err("missing value after "@ + args[0])
        } else {
            match parse_unsigned(args[1], u64::MAX as nat) {
                Some(seed) => read_args(
                    args.skip(2),
                    StartupArgs { seed: Some(seed as u64), ..before },
                ),
                None => Err(unsigned_complaint("seed"@, debug_text(args[1]))),
            }
        }
    } else if args[0] == "--cluster-size"@ || args[0] == "-c"@ {
        if args.len() == 1 {
            Err("missing value after "@ + args[0])
        } else {
            match parse_unsigned(args[1], u32::MAX as nat) {
                Some(side) => read_args(
                    args.skip(2),
                    StartupArgs {
                        cluster_size: if side == 0 {
                            1
                        } else {
                            side as u32
                        },
                        ..before
                    },
                ),
                None => Err(unsigned_complaint("cluster-size"@, debug_text(args[1]))),
            }
        }
    } else if args[0] == "--pv"@ {
        read_args(args.skip(1), StartupArgs { perfect_vsync: true, ..before })
    } else if args[0] == "--help"@ || args[0] == "-h"@ {
        Err("usage: cellular-automata [--seed <u64>] [--cluster-size <u32>] [--pv]"@)
    } else {
        Err("unknown argument: "@ + args[0])
    }
}

/// What is asked for where the command line is empty.
pub open spec fn default_args() -> StartupArgs {
    StartupArgs { seed: None, cluster_size: DEFAULT_CLUSTER_SIZE, perfect_vsync: false }
}

/// What the program starts with for what the command line asks for.
pub open spec fn configured(read: StartupArgs, nanos: u64, process_id: u32) -> StartupConfig {
    StartupConfig {
        seed: match read.seed {
            Some(seed) => seed,
            None => mixed(nanos ^ (process_id as u64)),
        },
        cluster_size: read.cluster_size,
        perfect_vsync: read.perfect_vsync,
    }
}

/// The characters of each argument.
pub open spec fn arg_texts(args: Seq<String>) -> Seq<Seq<char>> {
    args.map_values(|arg: String| arg@)
}

/// Every command line that is in order asks for clusters of at least one cell.
pub proof fn clusters_are_never_empty(args: Seq<Seq<char>>, before: StartupArgs)
    requires
        before.cluster_size >= 1,
    ensures
        read_args(args, before) matches Ok(read) ==> read.cluster_size >= 1,
    decreases args.len(),
{
    if args.len() > 0 {
        if args.len() > 1 {
            if let Some(seed) = parse_unsigned(args[1], u64::MAX as nat) {
                clusters_are_never_empty(
                    args.skip(2),
                    StartupArgs { seed: Some(seed as u64), ..before },
                );
            }
            if let Some(side) = parse_unsigned(args[1], u32::MAX as nat) {
                clusters_are_never_empty(
                    args.skip(2),
                    StartupArgs {
                        cluster_size: if side == 0 {
                            1
                        } else {
                            side as u32
                        },
                        ..before
                    },
                );
            }
        }
        clusters_are_never_empty(args.skip(1), StartupArgs { perfect_vsync: true, ..before });
    }
}

/// The complaint about a value that is no number.
pub fn unsigned_error(name: &str, quote: &str) -> (complaint: String)
    ensures
        complaint@ == unsigned_complaint(name@, quote@),
{
    let mut complaint = name.to_owned();
    complaint.append(" must be an unsigned integer, got ");
    complaint.append(quote);
    complaint
}

/// Reads the value of an argument as a `u64`.
pub fn parse_u64_arg(name: &str, value: &str) -> (number: Result<u64, String>)
    ensures
        match number {
            Ok(n) => parse_unsigned(value@, u64::MAX as nat) == Some(n as nat),
            Err(complaint) => parse_unsigned(value@, u64::MAX as nat) is None && complaint@
                == unsigned_complaint(name@, debug_text(value@)),
        },
{
    match parse_u64(value) {
        Some(n) => Ok(n),
        None => Err(unsigned_error(name, quoted(value).as_str())),
    }
}

/// Reads the value of an argument as a `u32`.
pub fn parse_u32_arg(name: &str, value: &str) -> (number: Result<u32, String>)
    ensures
        match number {
            Ok(n) => parse_unsigned(value@, u32::MAX as nat) == Some(n as nat),
            Err(complaint) => parse_unsigned(value@, u32::MAX as nat) is None && complaint@
                == unsigned_complaint(name@, debug_text(value@)),
        },
{
    match parse_u32(value) {
        Some(n) => Ok(n),
        None => Err(unsigned_error(name, quoted(value).as_str())),
    }
}

/// The seed that follows from the time, in nanoseconds, and the number of the
/// process.
pub fn random_seed(nanos: u64, process_id: u32) -> (seed: u64)
    ensures
        seed == mixed(nanos ^ (process_id as u64)),
{
    mix64(nanos ^ (process_id as u64))
}

/// The two texts, one behind the other.
fn joined(first: &str, second: &str) -> (text: String)
    ensures
        text@ == first@ + second@,
{
    let mut text = first.to_owned();
    text.append(second);
    text
}

impl StartupArgs {
    /// Reads the arguments that follow the program's name.
    pub fn read(args: &Vec<String>) -> (read: Result<StartupArgs, String>)
        ensures
            match (read, read_args(arg_texts(args@), default_args())) {
                (Ok(read), Ok(expected)) => read == expected,
                (Err(complaint), Err(expected)) => complaint@ == expected,
                _ => false,
            },
    {
        let ghost texts = arg_texts(args@);
        let mut read = StartupArgs {
            seed: None,
            cluster_size: DEFAULT_CLUSTER_SIZE,
            perfect_vsync: false,
        };
        let mut i: usize = 0;
        assert(texts.skip(0) =~= texts);
        while i < args.len()
            invariant
                i <= args.len(),
                texts == arg_texts(args@),
                read_args(texts, default_args()) == read_args(texts.skip(i as int), read),
            decreases args.len() - i,
        {
            let arg = args[i].as_str();
            let ghost rest = texts.skip(i as int);
            assert(rest.skip(1) =~= texts.skip(i + 1));
            assert(rest.len() > 1 ==> rest.skip(2) =~= texts.skip(i + 2));
            if same_text(arg, "--seed") || same_text(arg, "-s") {
                if args.len() - i < 2 {
                    return Err(joined("missing value after ", arg));
                }
                match parse_u64_arg("seed", args[i + 1].as_str()) {
                    Ok(seed) => {
                        read = StartupArgs { seed: Some(seed), ..read };
                    },
                    Err(complaint) => {
                        return Err(complaint);
                    },
                }
                i = i + 2;
            } else if same_text(arg, "--cluster-size") || same_text(arg, "-c") {
                if args.len() - i < 2 {
                    return Err(joined("missing value after ", arg));
                }
                match parse_u32_arg("cluster-size", args[i + 1].as_str()) {
                    Ok(side) => {
                        read = StartupArgs { cluster_size: side.max(1), ..read };
                    },
                    Err(complaint) => {
                        return Err(complaint);
                    },
                }
                i = i + 2;
            } else if same_text(arg, "--pv") {
                read = StartupArgs { perfect_vsync: true, ..read };
                i = i + 1;
            } else if same_text(arg, "--help") || same_text(arg, "-h") {
                let usage = "usage: cellular-automata [--seed <u64>] [--cluster-size <u32>] [--pv]";
                return Err(usage.to_owned());
            } else {
                return Err(joined("unknown argument: ", arg));
            }
        }
        Ok(read)
    }
}

impl StartupConfig {
    /// Reads the arguments that follow the program's name. Where they name no seed,
    /// it follows from the time and the number of the process.
    pub fn from_args(args: &Vec<String>, nanos: u64, process_id: u32) -> (config: Result<
        StartupConfig,
        String,
    >)
        ensures
            config matches Ok(config) ==> (read_args(arg_texts(args@), default_args()) matches Ok(
                read,
            ) && config == configured(read, nanos, process_id)),
            match (config, read_args(arg_texts(args@), default_args())) {
                (Ok(config), Ok(read)) => config == (StartupConfig {
                    seed: match read.seed {
                        Some(seed) => seed,
                        None => mixed(nanos ^ (process_id as u64)),
                    },
                    cluster_size: read.cluster_size,
                    perfect_vsync: read.perfect_vsync,
                }),
                (Err(complaint), Err(expected)) => complaint@ == expected,
                _ => false,
            },
    {
        match StartupArgs::read(args) {
            Ok(read) => {
                let seed: u64 = match read.seed {
                    Some(seed) => seed,
                    None => random_seed(nanos, process_id),
                };
                Ok(
                    StartupConfig {
                        seed,
                        cluster_size: read.cluster_size,
                        perfect_vsync: read.perfect_vsync,
                    },
                )
            },
            Err(complaint) => Err(complaint),
        }
    }
}

/// What an empty command line asks for: no seed, clusters of 24 cells, and no steady
/// frame rate.
pub proof fn empty_command_line_asks_for_the_usual()
    ensures
        read_args(Seq::empty(), default_args()) == Ok::<StartupArgs, Seq<char>>(
            StartupArgs { seed: None, cluster_size: 24, perfect_vsync: false },
        ),
{
}

/// The option for a seed takes the text behind it: the number that it is becomes the
/// seed, and the rest is read on; a text that is no number is complained about.
pub proof fn seed_option_sets_the_seed(args: Seq<Seq<char>>, before: StartupArgs)
    requires
        args.len() >= 1,
        args[0] == "--seed"@ || args[0] == "-s"@,
    ensures
        args.len() == 1 ==> read_args(args, before) == Err::<StartupArgs, Seq<char>>(
            "missing value after "@ + args[0],
        ),
        args.len() > 1 ==> match parse_unsigned(args[1], 0xffff_ffff_ffff_ffff) {
            Some(seed) => read_args(args, before) == read_args(
                args.skip(2),
                StartupArgs {
                    seed: Some(seed as u64),
                    cluster_size: before.cluster_size,
                    perfect_vsync: before.perfect_vsync,
                },
            ),
            None => read_args(args, before) == Err::<StartupArgs, Seq<char>>(
                "seed"@ + " must be an unsigned integer, got "@ + debug_text(args[1]),
            ),
        },
{
}

/// The option for the cluster size takes the text behind it: the number that it is, or
/// one for zero, becomes the cluster size, and the rest is read on; a text that is no
/// number is complained about.
pub proof fn cluster_option_sets_the_cluster_size(args: Seq<Seq<char>>, before: StartupArgs)
    requires
        args.len() >= 1,
        args[0] == "--cluster-size"@ || args[0] == "-c"@,
    ensures
        args.len() == 1 ==> read_args(args, before) == Err::<StartupArgs, Seq<char>>(
            "missing value after "@ + args[0],
        ),
        args.len() > 1 ==> match parse_unsigned(args[1], 0xffff_ffff) {
            Some(side) => exists|cluster_size: u32|
                (side == 0 ==> cluster_size == 1) && (side > 0 ==> cluster_size == side)
                    && read_args(args, before) == #[trigger] read_args(
                    args.skip(2),
                    StartupArgs {
                        seed: before.seed,
                        cluster_size,
                        perfect_vsync: before.perfect_vsync,
                    },
                ),
            None => read_args(args, before) == Err::<StartupArgs, Seq<char>>(
                "cluster-size"@ + " must be an unsigned integer, got "@ + debug_text(args[1]),
            ),
        },
{
    reveal_strlit("--seed");
    reveal_strlit("-s");
    reveal_strlit("--cluster-size");
    reveal_strlit("-c");
    assert(args[0] != "--seed"@) by {
        assert("--cluster-size"@.len() != "--seed"@.len());
        assert("-c"@.len() != "--seed"@.len());
    }
    assert(args[0] != "-s"@) by {
        assert("-c"@[1] != "-s"@[1]);
        assert("--cluster-size"@.len() != "-s"@.len());
    }
    if args.len() > 1 {
        if let Some(side) = parse_unsigned(args[1], 0xffff_ffff) {
            let cluster_size: u32 = if side == 0 {
                1
            } else {
                side as u32
            };
            assert(read_args(args, before) == read_args(
                args.skip(2),
                StartupArgs {
                    seed: before.seed,
                    cluster_size,
                    perfect_vsync: before.perfect_vsync,
                },
            ));
        }
    }
}

/// The option for a steady frame rate asks for it, and the rest is read on.
pub proof fn vsync_option_asks_for_vsync(args: Seq<Seq<char>>, before: StartupArgs)
    requires
        args.len() >= 1,
        args[0] == "--pv"@,
    ensures
        read_args(args, before) == read_args(
            args.skip(1),
            StartupArgs {
                seed: before.seed,
                cluster_size: before.cluster_size,
                perfect_vsync: true,
            },
        ),
{
    reveal_strlit("--pv");
    reveal_strlit("--seed");
    reveal_strlit("-s");
    reveal_strlit("--cluster-size");
    reveal_strlit("-c");
    assert("--pv"@.len() == 4);
    assert("--seed"@.len() == 6 && "-s"@.len() == 2);
    assert("--cluster-size"@.len() == 14 && "-c"@.len() == 2);
}

/// Any other argument ends the reading: a call for help with the usage, and the rest
/// with a complaint.
pub proof fn other_arguments_are_refused(args: Seq<Seq<char>>, before: StartupArgs)
    requires
        args.len() >= 1,
        args[0] != "--seed"@ && args[0] != "-s"@,
        args[0] != "--cluster-size"@ && args[0] != "-c"@,
        args[0] != "--pv"@,
    ensures
        read_args(args, before) == Err::<StartupArgs, Seq<char>>(
            if args[0] == "--help"@ || args[0] == "-h"@ {
                "usage: cellular-automata [--seed <u64>] [--cluster-size <u32>] [--pv]"@
            } else {
                "unknown argument: "@ + args[0]
            },
        ),
{
}

/// The texts of the arguments are the arguments, in their order.
pub proof fn argument_texts_are_the_arguments(args: Seq<String>, i: int)
    ensures
        arg_texts(args).len() == args.len(),
        0 <= i < args.len() ==> arg_texts(args)[i] == args[i]@,
{
}

/// The complaint about a value that is no number names the argument and quotes the
/// value.
pub proof fn complaint_names_and_quotes(name: Seq<char>, quote: Seq<char>)
    ensures
        unsigned_complaint(name, quote) == name + " must be an unsigned integer, got "@ + quote,
{
}

/// A seed that the command line names is the one that is played, whatever the time and
/// the process; otherwise it is the mixture of both. The rest is as it was asked for.
pub proof fn named_seed_is_played(read: StartupArgs, nanos: u64, process_id: u32)
    ensures
        ({
            let config = configured(read, nanos, process_id);
            &&& read.seed matches Some(seed) ==> config.seed == seed
            &&& read.seed is None ==> config.seed == mixed(nanos ^ (process_id as u64))
            &&& config.cluster_size == read.cluster_size
            &&& config.perfect_vsync == read.perfect_vsync
        }),
{
}

} // verus!
