//! The config store's logic: the single `project_dir=` line that records
//! the projects root, how it is parsed, and how it is produced.
//!
//! The shell around the library reads and writes the file itself; it hands
//! the raw bytes in and takes the bytes to write back out.

use vstd::prelude::*;

use crate::errors::LaunchError;
use crate::paths::config_file_name;
use crate::paths::path_join;
use crate::paths::config_file_path;
use crate::subst::copy_range;
use crate::subst::match_at;
use crate::subst::occurs_at;
use crate::subst::replace_all;
use crate::subst::replaced;

verus! {

/// The key prefix `project_dir=` of the one config line.
pub open spec fn config_key() -> Seq<u8> {
    seq![112u8, 114u8, 111u8, 106u8, 101u8, 99u8, 116u8, 95u8, 100u8, 105u8, 114u8, 61u8]
}

/// The key prefix `project_dir=`, as bytes.
pub fn make_config_key() -> (r: Vec<u8>)
    ensures
        r@ == config_key(),
{
    let r: Vec<u8> = vec![
        112u8, 114u8, 111u8, 106u8, 101u8, 99u8, 116u8, 95u8, 100u8, 105u8, 114u8, 61u8,
    ];
    proof {
        assert(r@ =~= config_key());
    }
    r
}

/// The config pattern matches at `i`: the key sits there, at least one
/// byte of value follows, and the value runs to the end of the content
/// without a line break.
pub open spec fn config_match_at(t: Seq<u8>, i: int) -> bool {
    occurs_at(t, config_key(), i) && i + config_key().len() < t.len()
        && (forall|j: int| i + config_key().len() <= j < t.len() ==> t[j] != 10u8)
}

/// The value captured by a config match at `i`: everything after the key.
pub open spec fn config_value(t: Seq<u8>, i: int) -> Seq<u8> {
    t.subrange(i + config_key().len() as int, t.len() as int)
}

/// Whether every byte from `start` on differs from a line break, with at
/// least one such byte.
fn value_runs_to_end(t: &Vec<u8>, start: usize) -> (r: bool)
    requires
        start <= t@.len(),
    ensures
        r == (start < t@.len() && (forall|j: int| start <= j < t@.len() ==> t@[j] != 10u8)),
{
    if start >= t.len() {
        return false;
    }
    let mut j: usize = start;
    while j < t.len()
        invariant
            start <= j <= t@.len(),
            forall|k: int| start <= k < j ==> t@[k] != 10u8,
        decreases t@.len() - j,
    {
        if t[j] == 10u8 {
            return false;
        }
        j = j + 1;
    }
    true
}

/// The successful outcome of a config read: `v` is the value of the
/// leftmost config match in `t`.
pub open spec fn parses_to(t: Seq<u8>, v: Seq<u8>) -> bool {
    exists|i: int|
        {
            &&& #[trigger] config_match_at(t, i)
            &&& v == config_value(t, i)
            &&& forall|h: int| 0 <= h < i ==> !config_match_at(t, h)
        }
}

/// Reads the projects root out of the config file's content.
///
/// `None` stands for an absent config file and fails with
/// `NotConfigured`; content without the key pattern fails with
/// `Corrupt`. A successful read returns the value of the leftmost match
/// of the pattern `project_dir=(.+)$`: everything after the key, running
/// to the end of the content with no line break.
pub fn parse_config(content: Option<&Vec<u8>>) -> (r: Result<Vec<u8>, LaunchError>)
    ensures
        match content {
            None => r == Err::<Vec<u8>, LaunchError>(LaunchError::NotConfigured),
            Some(t) => match r {
                Ok(v) => parses_to(t@, v@),
                Err(e) => e == LaunchError::Corrupt && !(exists|i: int| config_match_at(t@, i)),
            },
        },
{
    if content.is_none() {
        return Err(LaunchError::NotConfigured);
    }
    let t = content.unwrap();
    let key = make_config_key();
    if t.len() < key.len() {
        proof {
            assert forall|i: int| !config_match_at(t@, i) by {}
        }
        return Err(LaunchError::Corrupt);
    }
    let mut i: usize = 0;
    while i <= t.len() - key.len()
        invariant
            content == Some(t),
            key@ == config_key(),
            key@.len() <= t@.len(),
            i <= t@.len() - key@.len() + 1,
            forall|h: int| 0 <= h < i ==> !config_match_at(t@, h),
        decreases t@.len() - i,
    {
        if match_at(t, &key, i) && value_runs_to_end(t, i + key.len()) {
            proof {
                assert(config_match_at(t@, i as int));
            }
            let v = copy_range(t, i + key.len(), t.len());
            proof {
                assert(v@ == config_value(t@, i as int));
                assert(parses_to(t@, v@));
            }
            return Ok(v);
        }
        proof {
            assert(!config_match_at(t@, i as int));
        }
        i = i + 1;
    }
    proof {
        assert forall|h: int| !config_match_at(t@, h) by {
            if config_match_at(t@, h) {
                assert(0 <= h && h + config_key().len() <= t@.len());
                assert(h < i);
            }
        }
    }
    Err(LaunchError::Corrupt)
}

/// Law: a config line produced for a path parses back to that path, for
/// any nonempty path without a line break.
pub proof fn lemma_config_line_round_trip(path: Seq<u8>)
    requires
        path.len() > 0,
        forall|j: int| 0 <= j < path.len() ==> path[j] != 10u8,
    ensures
        config_match_at(config_key() + path, 0),
        config_value(config_key() + path, 0) == path,
{
    let t = config_key() + path;
    assert(t.subrange(0, config_key().len() as int) =~= config_key());
    assert(config_value(t, 0) =~= path);
}

/// The content the config store persists for a given projects root: the
/// key followed by the path.
pub fn config_line(path: &Vec<u8>) -> (r: Vec<u8>)
    ensures
        r@ == config_key() + path@,
{
    let mut r = make_config_key();
    crate::subst::append_bytes(&mut r, path);
    r
}

/// A `~` in the offered projects root stands for the home directory;
/// every occurrence is expanded, as literal replacement.
pub fn expand_tilde(input: &Vec<u8>, home: &Vec<u8>) -> (r: Vec<u8>)
    ensures
        r@ == replaced(input@, seq![126u8], home@),
{
    let tilde: Vec<u8> = vec![126u8];
    proof {
        assert(tilde@ =~= seq![126u8]);
    }
    replace_all(input, &tilde, home)
}

/// Validates the expanded projects root and plans the config write: the
/// config file path and its new content. `is_dir` is the filesystem's
/// answer on whether the path names an existing directory; a path that
/// does not is rejected with `InvalidPath` and nothing is written.
pub fn config_write_plan(expanded: &Vec<u8>, home: &Vec<u8>, is_dir: bool) -> (r: Result<
    (Vec<u8>, Vec<u8>),
    LaunchError,
>)
    ensures
        is_dir ==> (r matches Ok(p) && p.0@ == path_join(home@, config_file_name()) && p.1@
            == config_key() + expanded@),
        !is_dir ==> r == Err::<(Vec<u8>, Vec<u8>), LaunchError>(LaunchError::InvalidPath),
{
    if is_dir {
        Ok((config_file_path(home), config_line(expanded)))
    } else {
        Err(LaunchError::InvalidPath)
    }
}

} // verus!
