//! Where plugins live: the choice between the user's plugins directory and the
//! bundled plugins, and which bundled plugins a first run installs.

use vstd::prelude::*;

verus! {

/// The directory to load plugins from: the user's plugins directory where it
/// holds an installed plugin, else the bundled plugins where they are found,
/// else the user's directory.
pub fn effective_plugins_dir(user_dir: String, has_installed: bool, bundled: Option<String>) -> (r:
    String)
    ensures
        r@ == if !has_installed && bundled is Some {
            bundled->0@
        } else {
            user_dir@
        },
{
    if !has_installed {
        if let Some(b) = bundled {
            return b;
        }
    }
    user_dir
}

/// One entry of the bundled plugins directory: its name, whether it is a
/// directory, and whether the user's plugins directory already has an entry of
/// that name.
#[derive(Debug, Clone)]
pub struct BundledEntry {
    pub name: String,
    pub is_dir: bool,
    pub installed: bool,
}

/// The names of the bundled plugins to copy, in order: directories that are
/// not installed yet. An installed plugin is never overwritten.
pub open spec fn spec_to_install(entries: Seq<BundledEntry>) -> Seq<Seq<char>>
    decreases entries.len(),
{
    if entries.len() == 0 {
        Seq::empty()
    } else {
        spec_to_install(entries.drop_last()) + if entries.last().is_dir
            && !entries.last().installed {
            seq![entries.last().name@]
        } else {
            Seq::empty()
        }
    }
}

/// Every bundled plugin that a first run copies is a directory that is not
/// installed yet.
pub proof fn lemma_installs_only_new_plugins(entries: Seq<BundledEntry>)
    ensures
        forall|k: int|
            0 <= k < spec_to_install(entries).len() ==> exists|j: int|
                0 <= j < entries.len() && entries[j].is_dir && !entries[j].installed
                    && #[trigger] spec_to_install(entries)[k] == entries[j].name@,
    decreases entries.len(),
{
    if entries.len() > 0 {
        let init = entries.drop_last();
        lemma_installs_only_new_plugins(init);
        let r = spec_to_install(entries);
        let before = spec_to_install(init);
        assert forall|k: int| 0 <= k < r.len() implies exists|j: int|
            0 <= j < entries.len() && entries[j].is_dir && !entries[j].installed
                && #[trigger] r[k] == entries[j].name@ by {
            if k < before.len() {
                assert(r[k] == before[k]);
                let j = choose|j: int|
                    0 <= j < init.len() && init[j].is_dir && !init[j].installed
                        && before[k] == init[j].name@;
                assert(entries[j] == init[j]);
            } else {
                let j = entries.len() - 1;
                assert(r[k] == entries[j].name@);
            }
        }
    }
}

/// The names of the bundled plugins to copy (see `spec_to_install`).
pub fn plugins_to_install(entries: &Vec<BundledEntry>) -> (r: Vec<String>)
    ensures
        r@.map_values(|s: String| s@) == spec_to_install(entries@),
{
    let mut r: Vec<String> = Vec::new();
    let n = entries.len();
    let mut i: usize = 0;
    while i < n
        invariant
            n == entries@.len(),
            i <= n,
            r@.map_values(|s: String| s@) == spec_to_install(entries@.take(i as int)),
        decreases n - i,
    {
        let e = &entries[i];
        assert(entries@.take(i + 1).drop_last() =~= entries@.take(i as int));
        let ghost before = r@;
        if e.is_dir && !e.installed {
            r.push(e.name.clone());
            assert(r@.map_values(|s: String| s@) =~= before.map_values(|s: String| s@).push(e.name@));
        } else {
            assert(r@.map_values(|s: String| s@) =~= before.map_values(|s: String| s@));
        }
        i = i + 1;
    }
    assert(entries@.take(n as int) =~= entries@);
    r
}

} // verus!
