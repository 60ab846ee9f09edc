//! The project resolver: decides which template directory serves a chosen
//! project. A project with a dedicated template gets its own directory; any
//! other project gets the shared fallback template, and the caller is told
//! so, to surface the notice once.

use vstd::prelude::*;

use crate::paths::default_flake_location;
use crate::paths::default_flake_name;
use crate::paths::flakes_destination_path;
use crate::paths::flakes_root;
use crate::paths::join_path;
use crate::paths::path_join;
use crate::subst::bytes_eq;

verus! {

/// Whether `name` is one of the known project names.
pub open spec fn known_has(known: Seq<Vec<u8>>, name: Seq<u8>) -> bool {
    exists|i: int| 0 <= i < known.len() && #[trigger] known[i]@ == name
}

/// Whether `proj` is one of the known project names.
pub fn is_known_project(known: &Vec<Vec<u8>>, proj: &Vec<u8>) -> (r: bool)
    ensures
        r == known_has(known@, proj@),
{
    let mut i: usize = 0;
    while i < known.len()
        invariant
            i <= known@.len(),
            forall|k: int| 0 <= k < i ==> #[trigger] known@[k]@ != proj@,
        decreases known@.len() - i,
    {
        if bytes_eq(&known[i], proj) {
            proof {
                assert(known@[i as int]@ == proj@);
            }
            return true;
        }
        i = i + 1;
    }
    false
}

/// The template directory that serves the chosen project: the dedicated
/// one if the project is known, else the shared fallback. The second
/// component is true exactly when the fallback was chosen, so that the
/// caller can emit the fallback notice.
pub fn flake_location(proj: &Vec<u8>, known: &Vec<Vec<u8>>, home: &Vec<u8>) -> (r: (Vec<u8>, bool))
    ensures
        r.1 == !known_has(known@, proj@),
        known_has(known@, proj@) ==> r.0@ == path_join(flakes_root(home@), proj@),
        !known_has(known@, proj@) ==> r.0@ == path_join(flakes_root(home@), default_flake_name()),
{
    if is_known_project(known, proj) {
        let root = flakes_destination_path(home);
        (join_path(&root, proj), false)
    } else {
        (default_flake_location(home), true)
    }
}

} // verus!
