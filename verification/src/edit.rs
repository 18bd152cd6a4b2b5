//! The file and the command line for editing a node.

use vstd::prelude::*;
use vstd::string::*;

use crate::text::{contains_str, has_substring, replace, replaced, texts_of};

verus! {

/// The name of the file that a node is written to: the path of the node
/// with `_` for `/`, between `otree_` and the suffix.
pub open spec fn edit_file_name(identify: Seq<char>, extension: Seq<char>) -> Seq<char> {
    "otree_"@ + replaced(identify, "/"@, "_"@) + "."@ + extension
}

/// An argument of the editor, with the path of the file in the place of
/// `{file}`.
pub open spec fn edit_arg(arg: Seq<char>, path: Seq<char>) -> Seq<char> {
    if has_substring(arg, "{file}"@) {
        replaced(arg, "{file}"@, path)
    } else {
        arg
    }
}

/// The name of the file that a node is written to.
pub fn file_name(identify: &str, extension: &str) -> (r: String)
    ensures
        r@ == edit_file_name(identify@, extension@),
{
    let name = replace(identify, "/", "_");
    String::from_str("otree_").concat(name.as_str()).concat(".").concat(extension)
}

/// The arguments of the editor for the file at `path`.
pub fn command_args(args: &Vec<String>, path: &str) -> (r: Vec<String>)
    ensures
        r@.len() == args@.len(),
        forall|i: int|
            0 <= i < args@.len() ==> (#[trigger] texts_of(r@)[i]) == edit_arg(
                texts_of(args@)[i],
                path@,
            ),
{
    let mut out: Vec<String> = Vec::new();
    let mut i: usize = 0;
    while i < args.len()
        invariant
            i <= args.len(),
            out@.len() == i,
            forall|k: int|
                0 <= k < i ==> (#[trigger] texts_of(out@)[k]) == edit_arg(texts_of(args@)[k], path@),
        decreases args.len() - i,
    {
        let ghost before = texts_of(out@);
        let arg = if contains_str(args[i].as_str(), "{file}") {
            replace(args[i].as_str(), "{file}", path)
        } else {
            args[i].clone()
        };
        assert(arg@ == edit_arg(texts_of(args@)[i as int], path@));
        out.push(arg);
        assert(texts_of(out@) =~= before.push(arg@));
        i += 1;
    }
    out
}

} // verus!
