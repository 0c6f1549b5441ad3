//! The on-disk layout convention: where the runtime and the stored commands
//! live under the installation root. Paths are plain strings joined with a
//! `/` separator; the caller supplies the root.

use vstd::prelude::*;

verus! {

/// `dir` and `name` joined with a single separator.
pub open spec fn spec_join(dir: Seq<char>, name: Seq<char>) -> Seq<char> {
    dir + "/"@ + name
}

/// `dir/name` as a new string.
pub fn join_path(dir: &str, name: &str) -> (r: String)
    ensures
        r@ == spec_join(dir@, name@),
{
    let mut s = String::from_str(dir);
    s.append("/");
    s.append(name);
    s
}

/// The directory that holds the runtime executable.
pub fn get_deno_dir(root: &str) -> (r: String)
    ensures
        r@ == spec_join(root@, "deno"@),
{
    join_path(root, "deno")
}

/// The directory that holds all stored commands.
pub fn get_commands_dir(root: &str) -> (r: String)
    ensures
        r@ == spec_join(root@, "commands"@),
{
    join_path(root, "commands")
}

/// The directory of one command collection.
pub fn get_collection_dir(root: &str, command_collection: &str) -> (r: String)
    ensures
        r@ == spec_join(spec_join(root@, "commands"@), command_collection@),
{
    let commands = get_commands_dir(root);
    join_path(commands.as_str(), command_collection)
}

/// The directory of one stored command inside its collection.
pub fn get_command_dir(root: &str, command_collection: &str, command_name: &str) -> (r: String)
    ensures
        r@ == spec_join(
            spec_join(spec_join(root@, "commands"@), command_collection@),
            command_name@,
        ),
{
    let collection = get_collection_dir(root, command_collection);
    join_path(collection.as_str(), command_name)
}

} // verus!
