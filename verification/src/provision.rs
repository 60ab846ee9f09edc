//! The template provisioner's logic: which files a `setup` run writes,
//! with what content, and the law that a second run changes nothing.
//!
//! The destination tree is modelled as a map from file path to file
//! content; the shell around the library performs the writes. A template
//! directory that was customized by hand is deliberately overwritten on
//! every run: the materialized templates are owned by the tool.

use vstd::prelude::*;

use crate::paths::flake_file_name;
use crate::paths::flake_file_path;
use crate::paths::flakes_destination_path;
use crate::paths::flakes_root;
use crate::paths::join_path;
use crate::paths::path_join;
use crate::subst::copy_bytes;

verus! {

/// A bundled template: its name and the content of its
/// environment-definition file.
pub struct Template {
    pub name: Vec<u8>,
    pub content: Vec<u8>,
}

/// One write a `setup` run performs: the template's directory, its
/// environment-definition file, and the content that file gets.
pub struct TemplateWrite {
    pub dir: Vec<u8>,
    pub file: Vec<u8>,
    pub content: Vec<u8>,
}

/// The environment-definition file of template `name` under `root`.
pub open spec fn template_file(root: Seq<u8>, name: Seq<u8>) -> Seq<u8> {
    path_join(path_join(root, name), flake_file_name())
}

/// The destination tree after provisioning the templates `ts` under
/// `root` into the tree `fs`: every template's file overwritten with the
/// bundled content, in order.
pub open spec fn provisioned(
    fs: Map<Seq<u8>, Seq<u8>>,
    ts: Seq<(Seq<u8>, Seq<u8>)>,
    root: Seq<u8>,
) -> Map<Seq<u8>, Seq<u8>>
    decreases ts.len(),
{
    if ts.len() == 0 {
        fs
    } else {
        provisioned(fs.insert(template_file(root, ts[0].0), ts[0].1), ts.skip(1), root)
    }
}

/// Whether `k` is a file that provisioning `ts` under `root` writes.
pub open spec fn writes_key(ts: Seq<(Seq<u8>, Seq<u8>)>, root: Seq<u8>, k: Seq<u8>) -> bool {
    exists|i: int| 0 <= i < ts.len() && k == template_file(root, #[trigger] ts[i].0)
}

/// `m1` and `m2` agree on every key that provisioning does not write.
pub open spec fn agree_outside(
    m1: Map<Seq<u8>, Seq<u8>>,
    m2: Map<Seq<u8>, Seq<u8>>,
    ts: Seq<(Seq<u8>, Seq<u8>)>,
    root: Seq<u8>,
) -> bool {
    forall|k: Seq<u8>|
        !#[trigger] writes_key(ts, root, k) ==> ((m1.dom().contains(k) <==> m2.dom().contains(k))
            && (m1.dom().contains(k) ==> m1[k] == m2[k]))
}

/// A key the tail writes is written by the whole list, and the head's
/// key is too.
proof fn lemma_writes_key_unfold(ts: Seq<(Seq<u8>, Seq<u8>)>, root: Seq<u8>, k: Seq<u8>)
    requires
        ts.len() > 0,
    ensures
        writes_key(ts, root, k) <==> (k == template_file(root, ts[0].0) || writes_key(
            ts.skip(1),
            root,
            k,
        )),
{
    if writes_key(ts, root, k) {
        let i = choose|i: int| 0 <= i < ts.len() && k == template_file(root, #[trigger] ts[i].0);
        if i > 0 {
            assert(ts.skip(1)[i - 1] == ts[i]);
            assert(k == template_file(root, ts.skip(1)[i - 1].0));
        }
    }
    if k == template_file(root, ts[0].0) {
        assert(writes_key(ts, root, k));
    }
    if writes_key(ts.skip(1), root, k) {
        let i = choose|i: int|
            0 <= i < ts.skip(1).len() && k == template_file(root, #[trigger] ts.skip(1)[i].0);
        assert(ts.skip(1)[i] == ts[i + 1]);
        assert(k == template_file(root, ts[i + 1].0));
    }
}

/// Trees that agree outside the written files are provisioned to the
/// same tree.
proof fn lemma_provision_congruent(
    m1: Map<Seq<u8>, Seq<u8>>,
    m2: Map<Seq<u8>, Seq<u8>>,
    ts: Seq<(Seq<u8>, Seq<u8>)>,
    root: Seq<u8>,
)
    requires
        agree_outside(m1, m2, ts, root),
    ensures
        provisioned(m1, ts, root) == provisioned(m2, ts, root),
    decreases ts.len(),
{
    if ts.len() == 0 {
        assert forall|k: Seq<u8>| #[trigger] m1.dom().contains(k) == m2.dom().contains(k) by {
            assert(!writes_key(ts, root, k));
        }
        assert forall|k: Seq<u8>| m1.dom().contains(k) implies #[trigger] m1[k] == m2[k] by {
            assert(!writes_key(ts, root, k));
        }
        assert(m1 =~= m2);
    } else {
        let key0 = template_file(root, ts[0].0);
        let m1p = m1.insert(key0, ts[0].1);
        let m2p = m2.insert(key0, ts[0].1);
        assert(agree_outside(m1p, m2p, ts.skip(1), root)) by {
            assert forall|k: Seq<u8>| !(#[trigger] writes_key(ts.skip(1), root, k)) implies ((
            m1p.dom().contains(k) <==> m2p.dom().contains(k)) && (m1p.dom().contains(k)
                ==> m1p[k] == m2p[k])) by {
                if k != key0 {
                    lemma_writes_key_unfold(ts, root, k);
                    assert(!writes_key(ts, root, k));
                    assert((m1.dom().contains(k) <==> m2.dom().contains(k)) && (m1.dom().contains(
                        k,
                    ) ==> m1[k] == m2[k]));
                    assert(m1p.dom().contains(k) <==> m2p.dom().contains(k));
                    assert(m1p.dom().contains(k) ==> m1p[k] == m2p[k]);
                } else {
                    assert(m1p.dom().contains(k));
                    assert(m2p.dom().contains(k));
                    assert(m1p[k] == m2p[k]);
                }
            }
        }
        lemma_provision_congruent(m1p, m2p, ts.skip(1), root);
    }
}

/// Provisioning changes nothing outside the written files.
proof fn lemma_provision_frame(m: Map<Seq<u8>, Seq<u8>>, ts: Seq<(Seq<u8>, Seq<u8>)>, root: Seq<u8>)
    ensures
        agree_outside(provisioned(m, ts, root), m, ts, root),
    decreases ts.len(),
{
    if ts.len() == 0 {
    } else {
        let key0 = template_file(root, ts[0].0);
        let mp = m.insert(key0, ts[0].1);
        lemma_provision_frame(mp, ts.skip(1), root);
        let out = provisioned(m, ts, root);
        assert forall|k: Seq<u8>| !(#[trigger] writes_key(ts, root, k)) implies ((
        out.dom().contains(k) <==> m.dom().contains(k)) && (out.dom().contains(k) ==> out[k]
            == m[k])) by {
            lemma_writes_key_unfold(ts, root, k);
            assert(!writes_key(ts.skip(1), root, k));
            assert(k != key0);
            let outp = provisioned(mp, ts.skip(1), root);
            assert(out == outp);
            assert((outp.dom().contains(k) <==> mp.dom().contains(k)) && (outp.dom().contains(k)
                ==> outp[k] == mp[k]));
        }
    }
}

/// Law: provisioning is idempotent — a second `setup` run leaves the
/// destination tree byte-identical to the first.
pub proof fn lemma_provision_idempotent(
    fs: Map<Seq<u8>, Seq<u8>>,
    ts: Seq<(Seq<u8>, Seq<u8>)>,
    root: Seq<u8>,
)
    ensures
        provisioned(provisioned(fs, ts, root), ts, root) == provisioned(fs, ts, root),
{
    lemma_provision_frame(fs, ts, root);
    lemma_provision_congruent(provisioned(fs, ts, root), fs, ts, root);
}

/// The writes a `setup` run performs for the bundled templates under the
/// given home directory: one directory and one file per template, the
/// file holding the bundled content byte for byte.
pub fn provision_writes(ts: &Vec<Template>, home: &Vec<u8>) -> (r: Vec<TemplateWrite>)
    ensures
        r@.len() == ts@.len(),
        forall|i: int| #![auto]
            0 <= i < ts@.len() ==> r@[i].dir@ == path_join(flakes_root(home@), ts@[i].name@)
                && r@[i].file@ == template_file(flakes_root(home@), ts@[i].name@) && r@[i].content@
                == ts@[i].content@,
{
    let root = flakes_destination_path(home);
    let mut r: Vec<TemplateWrite> = Vec::new();
    let mut i: usize = 0;
    while i < ts.len()
        invariant
            root@ == flakes_root(home@),
            i <= ts@.len(),
            r@.len() == i,
            forall|h: int| #![auto]
                0 <= h < i ==> r@[h].dir@ == path_join(flakes_root(home@), ts@[h].name@)
                    && r@[h].file@ == template_file(flakes_root(home@), ts@[h].name@)
                    && r@[h].content@ == ts@[h].content@,
        decreases ts@.len() - i,
    {
        let dir = join_path(&root, &ts[i].name);
        let file = flake_file_path(&dir);
        let content = copy_bytes(&ts[i].content);
        r.push(TemplateWrite { dir, file, content });
        i = i + 1;
    }
    r
}

} // verus!
