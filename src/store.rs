//! The policy around the persisted manifest: what a load hands to the
//! registry when the stored state is missing or unusable.

use vstd::prelude::*;
use crate::manifest::{Manifest, empty_manifest, strs_view, DEFAULT_CONFIGURED_PROJECT};

verus! {

/// Whether the strings of `v` are pairwise distinct.
pub fn all_distinct(v: &Vec<String>) -> (r: bool)
    ensures
        r == strs_view(v@).no_duplicates(),
{
    let ghost s = strs_view(v@);
    let mut i: usize = 0;
    while i < v.len()
        invariant
            0 <= i <= v.len(),
            s == strs_view(v@),
            forall|a: int, b: int| 0 <= a < b < i ==> s[a] != s[b],
        decreases v.len() - i,
    {
        let mut j: usize = 0;
        while j < i
            invariant
                0 <= j <= i < v.len(),
                s == strs_view(v@),
                forall|a: int, b: int| 0 <= a < b < i ==> s[a] != s[b],
                forall|a: int| 0 <= a < j ==> s[a] != s[i as int],
            decreases i - j,
        {
            if v[j] == v[i] {
                proof {
                    assert(s[j as int] == s[i as int]);
                }
                return false;
            }
            j += 1;
        }
        i += 1;
    }
    true
}

/// Whether `manifest` is well formed: unique project names, no repeated
/// owner within a project, at most one profile per chat identity.
pub fn check_manifest(manifest: &Manifest) -> (r: bool)
    ensures
        r == manifest.wf(),
{
    let ghost ps = manifest@.projects;
    let mut names: Vec<String> = Vec::new();
    let mut i: usize = 0;
    while i < manifest.projects.len()
        invariant
            0 <= i <= manifest.projects.len(),
            ps == manifest@.projects,
            names.len() == i,
            forall|a: int| 0 <= a < i ==> (#[trigger] names@[a])@ == ps[a].0,
            forall|a: int| 0 <= a < i ==> (#[trigger] ps[a]).1.owners.no_duplicates(),
        decreases manifest.projects.len() - i,
    {
        if !all_distinct(&manifest.projects[i].project.project_owners) {
            proof {
                assert(!ps[i as int].1.owners.no_duplicates());
            }
            return false;
        }
        names.push(manifest.projects[i].name.clone());
        proof {
            assert(strs_view(names@)[i as int] == ps[i as int].0);
        }
        i += 1;
    }
    if !all_distinct(&names) {
        proof {
            let (a, b) = choose|a: int, b: int|
                0 <= a < strs_view(names@).len() && 0 <= b < strs_view(names@).len() && a != b
                    && strs_view(names@)[a] == strs_view(names@)[b];
            if a < b {
                assert(ps[a].0 == ps[b].0);
            } else {
                assert(ps[b].0 == ps[a].0);
            }
        }
        return false;
    }
    let ghost fs = manifest@.profiles;
    let mut chats: Vec<String> = Vec::new();
    let mut k: usize = 0;
    while k < manifest.profiles.len()
        invariant
            0 <= k <= manifest.profiles.len(),
            fs == manifest@.profiles,
            chats.len() == k,
            forall|a: int| 0 <= a < k ==> (#[trigger] chats@[a])@ == fs[a].0,
        decreases manifest.profiles.len() - k,
    {
        chats.push(manifest.profiles[k].slack_id.clone());
        proof {
            assert(strs_view(chats@)[k as int] == fs[k as int].0);
        }
        k += 1;
    }
    if !all_distinct(&chats) {
        proof {
            let (a, b) = choose|a: int, b: int|
                0 <= a < strs_view(chats@).len() && 0 <= b < strs_view(chats@).len() && a != b
                    && strs_view(chats@)[a] == strs_view(chats@)[b];
            if a < b {
                assert(fs[a].0 == fs[b].0);
            } else {
                assert(fs[b].0 == fs[a].0);
            }
        }
        return false;
    }
    proof {
        assert forall|a: int, b: int| 0 <= a < b < ps.len() implies #[trigger] ps[a].0
            != #[trigger] ps[b].0 by {
            assert(strs_view(names@)[a] != strs_view(names@)[b]);
        }
        assert forall|a: int, b: int| 0 <= a < b < fs.len() implies #[trigger] fs[a].0
            != #[trigger] fs[b].0 by {
            assert(strs_view(chats@)[a] != strs_view(chats@)[b]);
        }
    }
    true
}

/// What a load hands on: the manifest read from the store when it could be
/// read and is well formed, else a fresh empty one.
pub fn recover_manifest(stored: Option<Manifest>) -> (r: Manifest)
    ensures
        r.wf(),
        match stored {
            Some(m) => if m.wf() { r == m } else { r@ == empty_manifest(DEFAULT_CONFIGURED_PROJECT@) },
            None => r@ == empty_manifest(DEFAULT_CONFIGURED_PROJECT@),
        },
{
    match stored {
        Some(m) => if check_manifest(&m) { m } else { Manifest::empty() },
        None => Manifest::empty(),
    }
}

} // verus!
