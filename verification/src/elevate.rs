//! Self-elevation: the program relaunches itself with the same arguments
//! under a UAC prompt. Launching is the program's business; the command line
//! it passes on is built here.
use vstd::prelude::*;

verus! {

/// An argument in double quotes.
pub open spec fn quoted(a: Seq<char>) -> Seq<char> {
    "\""@ + a + "\""@
}

/// The arguments, each quoted, separated by single spaces.
pub open spec fn spec_relaunch_params(args: Seq<Seq<char>>) -> Seq<char>
    decreases args.len(),
{
    if args.len() == 0 {
        Seq::empty()
    } else if args.len() == 1 {
        quoted(args[0])
    } else {
        spec_relaunch_params(args.drop_last()) + " "@ + quoted(args.last())
    }
}

/// The parameter string for relaunching with the arguments `args` (the
/// program name left out).
pub fn relaunch_params(args: &Vec<String>) -> (s: String)
    ensures
        s@ == spec_relaunch_params(args@.map_values(|a: String| a@)),
{
    let ghost av = args@.map_values(|a: String| a@);
    let mut s = String::new();
    let mut i: usize = 0;
    while i < args.len()
        invariant
            i <= args@.len(),
            av == args@.map_values(|a: String| a@),
            s@ == spec_relaunch_params(av.take(i as int)),
        decreases args@.len() - i,
    {
        let ghost before = s@;
        if i > 0 {
            s.append(" ");
        }
        s.append("\"");
        s.append(args[i].as_str());
        s.append("\"");
        assert(av.take(i + 1).drop_last() =~= av.take(i as int));
        assert(av.take(i + 1).last() == args@[i as int]@);
        if i == 0 {
            assert(s@ =~= quoted(av.take(1)[0]));
        } else {
            assert(s@ =~= before + " "@ + quoted(av.take(i + 1).last()));
        }
        i = i + 1;
    }
    assert(av.take(args@.len() as int) =~= av);
    s
}

/// `ShellExecuteW` reports success with a status above 32.
pub fn launch_succeeded(status: usize) -> (b: bool)
    ensures
        b == (status > 32),
{
    status > 32
}

} // verus!
