//! Plugin manifests (`plugin.json`, schema version 1), loaded plugins, and the
//! order in which plugins are listed: by id.

use vstd::prelude::*;

verus! {

/// A plugin's `plugin.json`.
#[derive(Debug, Clone)]
pub struct PluginManifest {
    pub schema_version: u32,
    pub id: String,
    pub name: String,
    pub version: String,
    pub entry: String,
    pub icon: Option<String>,
    pub brand_color: Option<String>,
    pub lines: Vec<ManifestLine>,
}

/// One line that a manifest declares: `type` is "progress", "text" or "badge".
#[derive(Debug, Clone)]
pub struct ManifestLine {
    pub kind: String,
    pub label: String,
    pub scope: Option<String>,
    pub primary_order: Option<u32>,
}

/// A plugin loaded from disk, ready to run.
#[derive(Debug, Clone)]
pub struct LoadedPlugin {
    pub manifest: PluginManifest,
    /// The plugin directory.
    pub dir: String,
    /// Contents of the entry script.
    pub script: String,
}

/// `a` comes strictly before `b` in the order of `str`: by characters (code
/// points), a proper prefix first.
pub open spec fn precedes(a: Seq<char>, b: Seq<char>) -> bool
    decreases a.len(),
{
    if b.len() == 0 {
        false
    } else if a.len() == 0 {
        true
    } else if a[0] != b[0] {
        a[0] < b[0]
    } else {
        precedes(a.drop_first(), b.drop_first())
    }
}

pub proof fn lemma_precedes_asymmetric(a: Seq<char>, b: Seq<char>)
    ensures
        precedes(a, b) ==> !precedes(b, a),
    decreases a.len(),
{
    if a.len() > 0 && b.len() > 0 && a[0] == b[0] {
        lemma_precedes_asymmetric(a.drop_first(), b.drop_first());
    }
}

pub proof fn lemma_precedes_total(a: Seq<char>, b: Seq<char>)
    ensures
        a == b || precedes(a, b) || precedes(b, a),
    decreases a.len(),
{
    if a.len() > 0 && b.len() > 0 && a[0] == b[0] {
        lemma_precedes_total(a.drop_first(), b.drop_first());
        if a.drop_first() == b.drop_first() {
            assert(a =~= seq![a[0]] + a.drop_first());
            assert(b =~= seq![b[0]] + b.drop_first());
        }
    } else if a.len() == 0 && b.len() == 0 {
        assert(a =~= b);
    } else if a.len() > 0 && b.len() > 0 {
        assert(a[0] != b[0]);
    }
}

pub proof fn lemma_precedes_transitive(a: Seq<char>, b: Seq<char>, c: Seq<char>)
    requires
        precedes(a, b),
        precedes(b, c),
    ensures
        precedes(a, c),
    decreases a.len(),
{
    if a.len() > 0 && b.len() > 0 && c.len() > 0 && a[0] == b[0] && b[0] == c[0] {
        lemma_precedes_transitive(a.drop_first(), b.drop_first(), c.drop_first());
    }
}

/// Whether `a` comes strictly before `b`.
pub fn str_precedes(a: &str, b: &str) -> (r: bool)
    ensures
        r == precedes(a@, b@),
{
    let na = a.unicode_len();
    let nb = b.unicode_len();
    let mut i: usize = 0;
    assert(a@.skip(0) =~= a@);
    assert(b@.skip(0) =~= b@);
    while i < na && i < nb
        invariant
            na == a@.len(),
            nb == b@.len(),
            i <= na,
            i <= nb,
            precedes(a@, b@) == precedes(a@.skip(i as int), b@.skip(i as int)),
        decreases na - i,
    {
        let ca = a.get_char(i);
        let cb = b.get_char(i);
        assert(a@.skip(i as int)[0] == ca);
        assert(b@.skip(i as int)[0] == cb);
        if ca != cb {
            return ca < cb;
        }
        assert(a@.skip(i as int).drop_first() =~= a@.skip(i + 1));
        assert(b@.skip(i as int).drop_first() =~= b@.skip(i + 1));
        i = i + 1;
    }
    i < nb
}

/// `plugins` is ordered by manifest id.
pub open spec fn sorted_by_id(plugins: Seq<LoadedPlugin>) -> bool {
    forall|k: int, l: int|
        0 <= k < l < plugins.len() ==> !precedes(
            #[trigger] plugins[l].manifest.id@,
            #[trigger] plugins[k].manifest.id@,
        )
}

/// `sorted` is `input` ordered by manifest id, plugins of equal id in the
/// order of `input`: `perm` says where each came from.
pub open spec fn stable_sort_of(
    input: Seq<LoadedPlugin>,
    sorted: Seq<LoadedPlugin>,
    perm: Seq<int>,
) -> bool {
    &&& sorted.len() == input.len()
    &&& perm.len() == input.len()
    &&& forall|k: int| 0 <= k < perm.len() ==> 0 <= #[trigger] perm[k] < input.len()
    &&& forall|k: int, l: int| 0 <= k < l < perm.len() ==> #[trigger] perm[k] != #[trigger] perm[l]
    &&& forall|k: int| 0 <= k < sorted.len() ==> #[trigger] sorted[k] == input[perm[k]]
    &&& sorted_by_id(sorted)
    &&& forall|k: int, l: int|
        0 <= k < l < sorted.len() && #[trigger] sorted[k].manifest.id@ == #[trigger] sorted[
            l
        ].manifest.id@ ==> perm[k] < perm[l]
}

/// Orders plugins by manifest id, keeping plugins of equal id in their order.
pub fn sort_plugins(plugins: Vec<LoadedPlugin>) -> (r: Vec<LoadedPlugin>)
    ensures
        exists|perm: Seq<int>| stable_sort_of(plugins@, r@, perm),
{
    let ghost input = plugins@;
    let mut rest = plugins;
    let mut sorted: Vec<LoadedPlugin> = Vec::new();
    let ghost mut perm: Seq<int> = Seq::empty();
    let n = rest.len();
    let mut i: usize = 0;
    while i < n
        invariant
            n == input.len(),
            i <= n,
            rest@ == input.skip(i as int),
            sorted@.len() == i,
            perm.len() == i,
            forall|k: int| 0 <= k < perm.len() ==> 0 <= #[trigger] perm[k] < i,
            forall|k: int, l: int| 0 <= k < l < perm.len() ==> #[trigger] perm[k] != #[trigger] perm[l],
            forall|k: int| 0 <= k < sorted@.len() ==> #[trigger] sorted@[k] == input[perm[k]],
            sorted_by_id(sorted@),
            forall|k: int, l: int|
                0 <= k < l < sorted@.len() && #[trigger] sorted@[k].manifest.id@
                    == #[trigger] sorted@[l].manifest.id@ ==> perm[k] < perm[l],
        decreases n - i,
    {
        let item = rest.remove(0);
        assert(item == input[i as int]);
        assert(input.skip(i as int).drop_first() =~= input.skip(i + 1));
        let m = sorted.len();
        let mut pos: usize = 0;
        while pos < m && !str_precedes(item.manifest.id.as_str(), sorted[pos].manifest.id.as_str())
            invariant
                m == sorted@.len(),
                pos <= m,
                forall|j: int| 0 <= j < pos ==> !precedes(item.manifest.id@, #[trigger] sorted@[j].manifest.id@),
            decreases m - pos,
        {
            pos = pos + 1;
        }
        let ghost old_sorted = sorted@;
        let ghost new_id = item.manifest.id@;
        proof {
            // every plugin from `pos` on comes after the new one
            assert forall|j: int| pos <= j < m implies precedes(new_id, #[trigger] old_sorted[j].manifest.id@) by {
                let p0 = old_sorted[pos as int].manifest.id@;
                let pj = old_sorted[j].manifest.id@;
                if j > pos {
                    assert(!precedes(pj, p0));
                    lemma_precedes_total(p0, pj);
                    if p0 != pj {
                        lemma_precedes_transitive(new_id, p0, pj);
                    }
                }
            }
        }
        sorted.insert(pos, item);
        proof {
            let s = sorted@;
            assert forall|k: int| 0 <= k < s.len() implies s[k] == if k < pos {
                old_sorted[k]
            } else if k == pos {
                input[i as int]
            } else {
                old_sorted[k - 1]
            } by {}
            let new_perm = perm.insert(pos as int, i as int);
            assert forall|k: int| 0 <= k < new_perm.len() implies new_perm[k] == if k < pos {
                perm[k]
            } else if k == pos {
                i as int
            } else {
                perm[k - 1]
            } by {}
            assert forall|k: int, l: int| 0 <= k < l < s.len() implies !precedes(
                #[trigger] s[l].manifest.id@,
                #[trigger] s[k].manifest.id@,
            ) by {
                if k == pos {
                    lemma_precedes_asymmetric(new_id, s[l].manifest.id@);
                } else if l == pos {
                    assert(!precedes(new_id, s[k].manifest.id@));
                } else {
                    let kk = if k < pos { k } else { k - 1 };
                    let ll = if l < pos { l } else { l - 1 };
                    assert(!precedes(old_sorted[ll].manifest.id@, old_sorted[kk].manifest.id@));
                }
            }
            assert forall|k: int, l: int|
                0 <= k < l < s.len() && #[trigger] s[k].manifest.id@ == #[trigger] s[l].manifest.id@
                implies new_perm[k] < new_perm[l] by {
                if k == pos {
                    assert(precedes(new_id, s[l].manifest.id@));
                    lemma_precedes_asymmetric(new_id, new_id);
                } else if l == pos {
                } else {
                    let kk = if k < pos { k } else { k - 1 };
                    let ll = if l < pos { l } else { l - 1 };
                    assert(old_sorted[kk].manifest.id@ == old_sorted[ll].manifest.id@);
                }
            }
            assert forall|k: int, l: int| 0 <= k < l < new_perm.len() implies #[trigger] new_perm[k]
                != #[trigger] new_perm[l] by {
                if k != pos && l != pos {
                    let kk = if k < pos { k } else { k - 1 };
                    let ll = if l < pos { l } else { l - 1 };
                    assert(perm[kk] != perm[ll]);
                }
            }
            perm = new_perm;
        }
        i = i + 1;
    }
    assert(stable_sort_of(input, sorted@, perm));
    sorted
}

/// The highest manifest schema version this host knows; newer ones load anyway.
pub const SCHEMA_VERSION_MAX: u32 = 1;

} // verus!
