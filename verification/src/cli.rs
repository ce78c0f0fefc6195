//! The program's command line: which optional outputs it asks for, and the
//! output directory's path.
use vstd::prelude::*;
use crate::text::{chars_of, str_eq, string_of};

verus! {

/// The optional outputs that the command line asks for.
#[derive(Debug, Clone, Copy, PartialEq, Eq, Structural)]
pub struct Flags {
    pub save_imgs: bool,
    pub save_chances: bool,
    pub save_treasures: bool,
}

/// Whether some argument is exactly `flag`.
pub open spec fn has_arg(args: Seq<String>, flag: Seq<char>) -> bool {
    exists|i: int| 0 <= i < args.len() && #[trigger] args[i]@ == flag
}

/// A flag is found wherever it stands: an argument equal to it at any
/// position sets it, and appending one more argument sets exactly the flags it
/// already had plus the one the new argument names.
pub proof fn lemma_flag_anywhere(args: Seq<String>, i: int, x: String, flag: Seq<char>)
    ensures
        0 <= i < args.len() && args[i]@ == flag ==> has_arg(args, flag),
        has_arg(args.push(x), flag) == (has_arg(args, flag) || x@ == flag),
{
    let t = args.push(x);
    if has_arg(t, flag) {
        let k = choose|k: int| 0 <= k < t.len() && #[trigger] t[k]@ == flag;
        if k < args.len() {
            assert(args[k] == t[k]);
        }
    }
    if has_arg(args, flag) {
        let k = choose|k: int| 0 <= k < args.len() && #[trigger] args[k]@ == flag;
        assert(t[k] == args[k]);
    }
    assert(t[args.len() as int] == x);
}

/// Reads the flags `--save-imgs`, `--save-chances` and `--save-treasures`;
/// every other argument is ignored.
pub fn parse_flags(args: &Vec<String>) -> (r: Flags)
    ensures
        r.save_imgs == has_arg(args@, "--save-imgs"@),
        r.save_chances == has_arg(args@, "--save-chances"@),
        r.save_treasures == has_arg(args@, "--save-treasures"@),
        r.save_imgs <==> exists|i: int| 0 <= i < args@.len() && #[trigger] args@[i]@ == "--save-imgs"@,
        r.save_chances <==> exists|i: int| 0 <= i < args@.len() && #[trigger] args@[i]@ == "--save-chances"@,
        r.save_treasures <==> exists|i: int| 0 <= i < args@.len() && #[trigger] args@[i]@ == "--save-treasures"@,
{
    let mut flags = Flags { save_imgs: false, save_chances: false, save_treasures: false };
    let mut i: usize = 0;
    while i < args.len()
        invariant
            i <= args@.len(),
            flags.save_imgs == has_arg(args@.take(i as int), "--save-imgs"@),
            flags.save_chances == has_arg(args@.take(i as int), "--save-chances"@),
            flags.save_treasures == has_arg(args@.take(i as int), "--save-treasures"@),
        decreases args@.len() - i,
    {
        let arg = args[i].as_str();
        if str_eq(arg, "--save-imgs") {
            flags.save_imgs = true;
        } else if str_eq(arg, "--save-chances") {
            flags.save_chances = true;
        } else if str_eq(arg, "--save-treasures") {
            flags.save_treasures = true;
        }
        proof {
            reveal_strlit("--save-imgs");
            reveal_strlit("--save-chances");
            reveal_strlit("--save-treasures");
            let t = args@.take(i + 1);
            assert(t[i as int] == args@[i as int]);
            assert forall|f: Seq<char>| has_arg(t, f) == (has_arg(args@.take(i as int), f) || args@[i as int]@ == f) by {
                if has_arg(t, f) {
                    let k = choose|k: int| 0 <= k < t.len() && #[trigger] t[k]@ == f;
                    if k < i {
                        assert(args@.take(i as int)[k] == t[k]);
                    }
                }
                if has_arg(args@.take(i as int), f) {
                    let k = choose|k: int| 0 <= k < i && #[trigger] args@.take(i as int)[k]@ == f;
                    assert(t[k] == args@.take(i as int)[k]);
                }
            }
            assert("--save-imgs"@[7] != "--save-chances"@[7]);
            assert("--save-imgs"@[7] != "--save-treasures"@[7]);
            assert("--save-chances"@[7] != "--save-treasures"@[7]);
        }
        i = i + 1;
    }
    assert(args@.take(args@.len() as int) =~= args@);
    flags
}

/// `path` with `sep` appended unless it already ends with it.
pub open spec fn with_trailing(path: Seq<char>, sep: char) -> Seq<char> {
    if path.len() > 0 && path.last() == sep {
        path
    } else {
        path.push(sep)
    }
}

/// `path` with `sep` appended unless it already ends with it.
pub fn with_trailing_separator(path: &str, sep: char) -> (r: String)
    ensures
        r@ == with_trailing(path@, sep),
{
    let mut cs = chars_of(path);
    let n = cs.len();
    if n > 0 && cs[n - 1] == sep {
        string_of(&cs)
    } else {
        cs.push(sep);
        string_of(&cs)
    }
}

} // verus!
