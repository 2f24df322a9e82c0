//! Command-line handling of the desktop binary.
use vstd::prelude::*;
use crate::text::{chars_of, starts_with, string_of, sub_chars};

verus! {

/// The flag that asks the process to detach from its terminal.
pub const NO_BLOCK_FLAG: &'static str = "--no-block";

/// The prefix of the argument that names a directory to serve.
pub const SERVE_PREFIX: &'static str = "--serve=";

/// The environment variable that marks the detached copy of the process.
pub const DETACHED_ENV: &'static str = "TERAX_DETACHED";

/// The value of the environment marker that a detached child carries.
pub const DETACHED_MARKER: &'static str = "1";

/// The character sequences of a list of arguments.
pub open spec fn arg_views(args: Seq<String>) -> Seq<Seq<char>> {
    args.map_values(|a: String| a@)
}

/// The remainder of the first argument that starts with `prefix`, if any.
pub open spec fn first_stripped(args: Seq<Seq<char>>, prefix: Seq<char>) -> Option<Seq<char>>
    decreases args.len(),
{
    if args.len() == 0 {
        None
    } else if prefix.is_prefix_of(args[0]) {
        Some(args[0].skip(prefix.len() as int))
    } else {
        first_stripped(args.drop_first(), prefix)
    }
}

/// Reads the command line: whether `--no-block` is among the arguments, and
/// the value of the first `--serve=` argument.
pub fn parse_cli(args: &Vec<String>) -> (r: (bool, Option<String>))
    ensures
        r.0 == arg_views(args@).contains(NO_BLOCK_FLAG@),
        r.1 matches Some(v) ==> first_stripped(arg_views(args@), SERVE_PREFIX@) == Some(v@),
        r.1 is None <==> first_stripped(arg_views(args@), SERVE_PREFIX@) is None,
{
    let flag = String::from_str(NO_BLOCK_FLAG);
    let prefix = chars_of(SERVE_PREFIX);
    let ghost views = arg_views(args@);
    let mut no_block = false;
    let mut serve: Option<String> = None;
    let mut i: usize = 0;
    assert(views.skip(0) =~= views);
    while i < args.len()
        invariant
            i <= args.len(),
            views == arg_views(args@),
            flag@ == NO_BLOCK_FLAG@,
            prefix@ == SERVE_PREFIX@,
            no_block == views.take(i as int).contains(NO_BLOCK_FLAG@),
            serve matches Some(v) ==> first_stripped(views, SERVE_PREFIX@) == Some(v@),
            serve is None ==> first_stripped(views, SERVE_PREFIX@) == first_stripped(views.skip(i as int), SERVE_PREFIX@),
        decreases args.len() - i,
    {
        assert(views[i as int] == args@[i as int]@);
        if args[i] == flag {
            no_block = true;
        }
        assert(views.take(i + 1) =~= views.take(i as int).push(views[i as int]));
        proof {
            vstd::seq_lib::lemma_seq_contains_after_push(views.take(i as int), views[i as int], NO_BLOCK_FLAG@);
        }
        if serve.is_none() {
            let a = chars_of(args[i].as_str());
            assert(views.skip(i as int).drop_first() =~= views.skip(i + 1));
            if starts_with(&a, &prefix) {
                let rest = sub_chars(&a, prefix.len(), a.len());
                serve = Some(string_of(&rest));
            }
        }
        i = i + 1;
    }
    assert(views.take(args.len() as int) =~= views);
    (no_block, serve)
}

/// Whether the process should hand itself over to a detached copy: only when
/// `--no-block` was given and the process is not already the detached copy,
/// which carries the marker `1`.
pub fn should_detach(no_block: bool, marker: &str) -> (r: bool)
    ensures
        r == (no_block && marker@ != DETACHED_MARKER@),
{
    if !no_block {
        return false;
    }
    let m = String::from_str(marker);
    let one = String::from_str(DETACHED_MARKER);
    !(m == one)
}

} // verus!
