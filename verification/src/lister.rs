//! The project lister: merges the names discovered under the projects
//! root with the known project names, keeping order and dropping a
//! discovered name that is already known.

use vstd::prelude::*;

use crate::resolve::is_known_project;
use crate::resolve::known_has;
use crate::subst::copy_bytes;

verus! {

/// The byte strings a list of vectors holds.
pub open spec fn views(s: Seq<Vec<u8>>) -> Seq<Seq<u8>> {
    s.map_values(|v: Vec<u8>| v@)
}

/// The discovered names without a dedicated template, in discovery order.
pub open spec fn extras(known: Seq<Vec<u8>>, discovered: Seq<Seq<u8>>) -> Seq<Seq<u8>> {
    discovered.filter(|d: Seq<u8>| !known_has(known, d))
}

/// One more discovered name extends the extras exactly when it is not
/// already known.
proof fn lemma_extras_push(known: Seq<Vec<u8>>, vs: Seq<Seq<u8>>, x: Seq<u8>)
    ensures
        extras(known, vs.push(x)) == if !known_has(known, x) {
            extras(known, vs).push(x)
        } else {
            extras(known, vs)
        },
{
    broadcast use vstd::prelude::Seq::lemma_filter_push;

    let s = vs.push(x);
    assert(s.drop_last() =~= vs);
    assert(s.last() == x);
}

/// The names discovered under the projects root that have no dedicated
/// template, in discovery order.
pub fn extra_projects(known: &Vec<Vec<u8>>, discovered: &Vec<Vec<u8>>) -> (r: Vec<Vec<u8>>)
    ensures
        views(r@) == extras(known@, views(discovered@)),
{
    let mut r: Vec<Vec<u8>> = Vec::new();
    let mut i: usize = 0;
    proof {
        assert(views(discovered@).subrange(0, 0) =~= Seq::<Seq<u8>>::empty());
        assert(views(r@) =~~= Seq::<Seq<u8>>::empty());
        assert(extras(known@, Seq::<Seq<u8>>::empty()) == Seq::<Seq<u8>>::empty());
    }
    while i < discovered.len()
        invariant
            i <= discovered@.len(),
            views(r@) == extras(known@, views(discovered@).subrange(0, i as int)),
        decreases discovered@.len() - i,
    {
        let d = &discovered[i];
        proof {
            let vs = views(discovered@).subrange(0, i as int);
            assert(views(discovered@).subrange(0, i + 1) =~= vs.push(d@));
            lemma_extras_push(known@, vs, d@);
        }
        if !is_known_project(known, d) {
            let c = copy_bytes(d);
            proof {
                assert(views(r@.push(c)) =~~= views(r@).push(c@));
            }
            r.push(c);
        }
        i = i + 1;
    }
    proof {
        assert(views(discovered@).subrange(0, discovered@.len() as int) =~= views(discovered@));
    }
    r
}

/// The menu the launcher offers: the known names first, then every
/// discovered name that is not already known, in discovery order — the
/// ordered, deduplicated union of the two lists.
pub fn merge_projects(known: &Vec<Vec<u8>>, discovered: &Vec<Vec<u8>>) -> (r: Vec<Vec<u8>>)
    ensures
        views(r@) == views(known@) + extras(known@, views(discovered@)),
{
    let mut r: Vec<Vec<u8>> = Vec::new();
    let mut i: usize = 0;
    proof {
        assert(views(r@) =~= views(known@).subrange(0, 0));
    }
    while i < known.len()
        invariant
            i <= known@.len(),
            views(r@) == views(known@).subrange(0, i as int),
        decreases known@.len() - i,
    {
        let c = copy_bytes(&known[i]);
        proof {
            assert(views(r@.push(c)) =~~= views(r@).push(c@));
            assert(views(r@).push(c@) =~= views(known@).subrange(0, i + 1));
        }
        r.push(c);
        i = i + 1;
    }
    proof {
        assert(views(known@).subrange(0, known@.len() as int) =~= views(known@));
    }
    let extra = extra_projects(known, discovered);
    let mut j: usize = 0;
    proof {
        assert(views(known@) + views(extra@).subrange(0, 0) =~= views(known@));
    }
    while j < extra.len()
        invariant
            j <= extra@.len(),
            views(extra@) == extras(known@, views(discovered@)),
            views(r@) == views(known@) + views(extra@).subrange(0, j as int),
        decreases extra@.len() - j,
    {
        let c = copy_bytes(&extra[j]);
        proof {
            assert(views(r@.push(c)) =~~= views(r@).push(c@));
            assert(views(r@).push(c@) =~= views(known@) + views(extra@).subrange(0, j + 1));
        }
        r.push(c);
        j = j + 1;
    }
    proof {
        assert(views(extra@).subrange(0, extra@.len() as int) =~= views(extra@));
    }
    r
}

} // verus!
