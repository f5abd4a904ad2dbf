//! Which path the command-line tool takes for its arguments: the
//! interactive browser (and where it starts), resampling, or usage.

use vstd::prelude::*;
use crate::text::str_eq;

verus! {

/// The path the tool takes.
#[derive(Debug, Clone, Copy, PartialEq, Eq, Structural)]
pub enum Invocation {
    /// The interactive browser, starting in the directory named by the
    /// argument at this index, or in the working directory.
    Browse(Option<usize>),
    /// Resample the first argument into the second at the rate in the third.
    Resample,
    /// Print how to use the tool.
    Usage,
}

/// An argument that starts with `-`.
pub open spec fn is_flag(arg: Seq<char>) -> bool {
    arg.len() > 0 && arg[0] == '-'
}

/// `-i` or `--interactive`.
pub open spec fn is_interactive_flag(arg: Seq<char>) -> bool {
    arg == "-i"@ || arg == "--interactive"@
}

/// The first argument from index `k` on that is no flag and names a
/// directory.
pub open spec fn start_dir_from(args: Seq<Seq<char>>, dirs: Seq<bool>, k: nat) -> Option<nat>
    decreases args.len() - k,
{
    if k >= args.len() {
        None
    } else if !is_flag(args[k as int]) && dirs[k as int] {
        Some(k)
    } else {
        start_dir_from(args, dirs, k + 1)
    }
}

/// The path taken for arguments `args`, `dirs[i]` telling whether `args[i]`
/// names a directory: with `-i`/`--interactive` anywhere, the browser in the
/// first non-flag directory argument (or the working directory); with no
/// arguments, the browser in the working directory; with one argument that
/// is a directory, the browser there; with three or more, resampling;
/// otherwise usage.
pub open spec fn invocation_for(args: Seq<Seq<char>>, dirs: Seq<bool>) -> Invocation {
    if exists|i: int| 0 <= i < args.len() && #[trigger] is_interactive_flag(args[i]) {
        Invocation::Browse(
            match start_dir_from(args, dirs, 0) {
                Some(i) => Some(i as usize),
                None => None,
            },
        )
    } else if args.len() == 0 {
        Invocation::Browse(None)
    } else if args.len() == 1 && dirs[0] {
        Invocation::Browse(Some(0))
    } else if args.len() >= 3 {
        Invocation::Resample
    } else {
        Invocation::Usage
    }
}

/// The texts of the arguments.
pub open spec fn arg_texts(args: Seq<String>) -> Seq<Seq<char>> {
    args.map_values(|a: String| a@)
}

/// Whether the argument starts with `-`.
fn starts_with_dash(arg: &str) -> (r: bool)
    ensures
        r == is_flag(arg@),
{
    arg.unicode_len() > 0 && arg.get_char(0) == '-'
}

/// The path the tool takes for its arguments (without the program name);
/// `dirs[i]` tells whether `args[i]` names a directory.
pub fn invocation(args: &Vec<String>, dirs: &Vec<bool>) -> (r: Invocation)
    requires
        args.len() == dirs.len(),
    ensures
        r == invocation_for(arg_texts(args@), dirs@),
{
    let ghost texts = arg_texts(args@);
    let mut i: usize = 0;
    let mut interactive = false;
    while i < args.len()
        invariant
            i <= args@.len(),
            texts == arg_texts(args@),
            interactive <==> exists|j: int| 0 <= j < i && #[trigger] is_interactive_flag(texts[j]),
        decreases args@.len() - i,
    {
        let a = args[i].as_str();
        if str_eq(a, "-i") || str_eq(a, "--interactive") {
            assert(is_interactive_flag(texts[i as int]));
            interactive = true;
        }
        i = i + 1;
    }
    if interactive {
        let mut k: usize = 0;
        while k < args.len()
            invariant
                k <= args@.len(),
                args@.len() == dirs@.len(),
                texts == arg_texts(args@),
                start_dir_from(texts, dirs@, 0) == start_dir_from(texts, dirs@, k as nat),
                exists|j: int| 0 <= j < args@.len() && #[trigger] is_interactive_flag(texts[j]),
            decreases args@.len() - k,
        {
            assert(texts[k as int] == args@[k as int]@);
            if !starts_with_dash(args[k].as_str()) && dirs[k] {
                return Invocation::Browse(Some(k));
            }
            k = k + 1;
        }
        return Invocation::Browse(None);
    }
    if args.len() == 0 {
        Invocation::Browse(None)
    } else if args.len() == 1 && dirs[0] {
        Invocation::Browse(Some(0))
    } else if args.len() >= 3 {
        Invocation::Resample
    } else {
        Invocation::Usage
    }
}

} // verus!
