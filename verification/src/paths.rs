//! Path building for the launcher's per-user files: the config file, the
//! materialized flakes root, and the template files under it.
//!
//! Paths are UTF-8 byte strings; the shell around the library converts
//! them to and from platform strings at the filesystem boundary.

use vstd::prelude::*;

use crate::subst::append_bytes;

verus! {

/// `a`, a separator slash, then `b`.
pub open spec fn path_join(a: Seq<u8>, b: Seq<u8>) -> Seq<u8> {
    a + seq![47u8] + b
}

/// The home-relative directory `.pm/flakes` that holds the materialized
/// templates.
pub open spec fn flakes_suffix() -> Seq<u8> {
    seq![46u8, 112u8, 109u8, 47u8, 102u8, 108u8, 97u8, 107u8, 101u8, 115u8]
}

/// The flakes root under the given home directory.
pub open spec fn flakes_root(home: Seq<u8>) -> Seq<u8> {
    path_join(home, flakes_suffix())
}

/// The name `go_1_22` of the shared fallback template.
pub open spec fn default_flake_name() -> Seq<u8> {
    seq![103u8, 111u8, 95u8, 49u8, 95u8, 50u8, 50u8]
}

/// The fixed file name `flake.nix` of the environment-definition file
/// inside each template directory.
pub open spec fn flake_file_name() -> Seq<u8> {
    seq![102u8, 108u8, 97u8, 107u8, 101u8, 46u8, 110u8, 105u8, 120u8]
}

/// The name `.pmrc` of the per-user config file.
pub open spec fn config_file_name() -> Seq<u8> {
    seq![46u8, 112u8, 109u8, 114u8, 99u8]
}

/// Joins two path fragments with a single separator.
pub fn join_path(a: &Vec<u8>, b: &Vec<u8>) -> (r: Vec<u8>)
    ensures
        r@ == path_join(a@, b@),
{
    let mut r: Vec<u8> = Vec::new();
    append_bytes(&mut r, a);
    r.push(47u8);
    append_bytes(&mut r, b);
    proof {
        assert(r@ =~= path_join(a@, b@));
    }
    r
}

/// A path under the given home directory.
pub fn prepend_home(home: &Vec<u8>, s: &Vec<u8>) -> (r: Vec<u8>)
    ensures
        r@ == path_join(home@, s@),
{
    join_path(home, s)
}

/// The directory under the given home directory into which templates
/// are materialized.
pub fn flakes_destination_path(home: &Vec<u8>) -> (r: Vec<u8>)
    ensures
        r@ == flakes_root(home@),
{
    let suffix: Vec<u8> = vec![46u8, 112u8, 109u8, 47u8, 102u8, 108u8, 97u8, 107u8, 101u8, 115u8];
    proof {
        assert(suffix@ =~= flakes_suffix());
    }
    prepend_home(home, &suffix)
}

/// The directory of the shared fallback template under the given home
/// directory.
pub fn default_flake_location(home: &Vec<u8>) -> (r: Vec<u8>)
    ensures
        r@ == path_join(flakes_root(home@), default_flake_name()),
{
    let root = flakes_destination_path(home);
    let name = make_default_flake_name();
    join_path(&root, &name)
}

/// The name of the shared fallback template, as bytes.
pub fn make_default_flake_name() -> (r: Vec<u8>)
    ensures
        r@ == default_flake_name(),
{
    let r: Vec<u8> = vec![103u8, 111u8, 95u8, 49u8, 95u8, 50u8, 50u8];
    proof {
        assert(r@ =~= default_flake_name());
    }
    r
}

/// The environment-definition file inside a template directory.
pub fn flake_file_path(location: &Vec<u8>) -> (r: Vec<u8>)
    ensures
        r@ == path_join(location@, flake_file_name()),
{
    let name: Vec<u8> = vec![102u8, 108u8, 97u8, 107u8, 101u8, 46u8, 110u8, 105u8, 120u8];
    proof {
        assert(name@ =~= flake_file_name());
    }
    join_path(location, &name)
}

/// The per-user config file under the given home directory.
pub fn config_file_path(home: &Vec<u8>) -> (r: Vec<u8>)
    ensures
        r@ == path_join(home@, config_file_name()),
{
    let name: Vec<u8> = vec![46u8, 112u8, 109u8, 114u8, 99u8];
    proof {
        assert(name@ =~= config_file_name());
    }
    prepend_home(home, &name)
}

} // verus!
