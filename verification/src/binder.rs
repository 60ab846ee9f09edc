//! The parameter binder: writes a concrete project name and projects root
//! over the placeholder tokens of a template file's content before a run,
//! and restores the tokens afterwards.
//!
//! Both directions are literal substring replacement, so a name or root
//! that contains a token, or that collides with the other as a substring,
//! gives no round trip; the round-trip law below states the conditions
//! under which restoration is exact.

use vstd::prelude::*;

use crate::subst::border_free;
use crate::subst::occurs_in;
use crate::subst::replace_all;
use crate::subst::replaced;

verus! {

/// The placeholder token `__PROJECTNAME__` that stands for the
/// project's name.
pub open spec fn name_token() -> Seq<u8> {
    seq![95u8, 95u8, 80u8, 82u8, 79u8, 74u8, 69u8, 67u8, 84u8, 78u8, 65u8, 77u8, 69u8, 95u8, 95u8]
}

/// The placeholder token `__PROJECTDIR__` that stands for the projects
/// root directory.
pub open spec fn dir_token() -> Seq<u8> {
    seq![95u8, 95u8, 80u8, 82u8, 79u8, 74u8, 69u8, 67u8, 84u8, 68u8, 73u8, 82u8, 95u8, 95u8]
}

/// The project-name placeholder token, as bytes.
pub fn make_name_token() -> (r: Vec<u8>)
    ensures
        r@ == name_token(),
{
    let r: Vec<u8> = vec![
        95u8, 95u8, 80u8, 82u8, 79u8, 74u8, 69u8, 67u8, 84u8, 78u8, 65u8, 77u8, 69u8, 95u8, 95u8,
    ];
    proof {
        assert(r@ =~= name_token());
    }
    r
}

/// The projects-root placeholder token, as bytes.
pub fn make_dir_token() -> (r: Vec<u8>)
    ensures
        r@ == dir_token(),
{
    let r: Vec<u8> = vec![
        95u8, 95u8, 80u8, 82u8, 79u8, 74u8, 69u8, 67u8, 84u8, 68u8, 73u8, 82u8, 95u8, 95u8,
    ];
    proof {
        assert(r@ =~= dir_token());
    }
    r
}

/// Template content with the name token replaced by `name`, then the
/// directory token replaced by `dir`.
pub open spec fn bound(content: Seq<u8>, name: Seq<u8>, dir: Seq<u8>) -> Seq<u8> {
    replaced(replaced(content, name_token(), name), dir_token(), dir)
}

/// Bound content with the projects root replaced back by the directory
/// token, then the project name replaced back by the name token: the
/// exact inverse of `bound`, undoing the two substitutions innermost
/// last.
pub open spec fn unbound(content: Seq<u8>, name: Seq<u8>, dir: Seq<u8>) -> Seq<u8> {
    replaced(replaced(content, dir, dir_token()), name, name_token())
}

/// Replaces both placeholder tokens of a template's content by the
/// concrete project name and projects root.
pub fn bind_content(content: &Vec<u8>, name: &Vec<u8>, dir: &Vec<u8>) -> (r: Vec<u8>)
    ensures
        r@ == bound(content@, name@, dir@),
{
    let name_tok = make_name_token();
    let dir_tok = make_dir_token();
    let step = replace_all(content, &name_tok, name);
    replace_all(&step, &dir_tok, dir)
}

/// Replaces the concrete project name and projects root of a bound
/// template's content back by the placeholder tokens.
pub fn unbind_content(content: &Vec<u8>, name: &Vec<u8>, dir: &Vec<u8>) -> (r: Vec<u8>)
    requires
        name@.len() > 0,
        dir@.len() > 0,
    ensures
        r@ == unbound(content@, name@, dir@),
{
    let name_tok = make_name_token();
    let dir_tok = make_dir_token();
    let step = replace_all(content, dir, &dir_tok);
    replace_all(&step, name, &name_tok)
}

/// Law: unbinding after binding restores the template exactly, provided
/// the project name occurs nowhere in the template, the projects root
/// occurs nowhere once the name is bound, and neither has a border (no
/// nonempty proper prefix of either is also its suffix).
pub proof fn lemma_bind_round_trip(content: Seq<u8>, name: Seq<u8>, dir: Seq<u8>)
    requires
        name.len() > 0,
        dir.len() > 0,
        !occurs_in(content, name),
        !occurs_in(replaced(content, name_token(), name), dir),
        border_free(name),
        border_free(dir),
    ensures
        unbound(bound(content, name, dir), name, dir) == content,
{
    crate::subst::lemma_replace_round_trip(
        replaced(content, name_token(), name),
        dir_token(),
        dir,
    );
    crate::subst::lemma_replace_round_trip(content, name_token(), name);
}

} // verus!
