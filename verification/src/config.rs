//! The one setting of the server: the root directory of the file store.

use vstd::prelude::*;

verus! {

/// The directory that the arguments name: what follows the last
/// `--directory` that something follows. Empty where there is none.
pub open spec fn directory_of(args: Seq<String>) -> Seq<char>
    decreases args.len(),
{
    if args.len() < 2 {
        Seq::empty()
    } else if args[args.len() - 2]@ == "--directory"@ {
        args[args.len() - 1]@
    } else {
        directory_of(args.drop_last())
    }
}

/// The root directory of the file store, from the arguments of the process.
pub fn directory_from_args(args: &Vec<String>) -> (r: String)
    ensures
        r@ == directory_of(args@),
{
    let mut directory = String::new();
    if args.len() < 2 {
        return directory;
    }
    let flag = "--directory".to_owned();
    let mut i: usize = 0;
    while i + 1 < args.len()
        invariant
            2 <= args.len(),
            i + 1 <= args.len(),
            flag@ == "--directory"@,
            directory@ == directory_of(args@.take(i + 1)),
        decreases args.len() - i,
    {
        proof {
            let seen = args@.take(i + 2);
            assert(seen.drop_last() == args@.take(i + 1));
            assert(seen[seen.len() - 2] == args@[i as int]);
            assert(seen[seen.len() - 1] == args@[i + 1]);
        }
        if args[i] == flag {
            directory = args[i + 1].clone();
        }
        i += 1;
    }
    assert(args@.take(i + 1) == args@);
    directory
}

} // verus!
