use vstd::prelude::*;

use crate::assets::file::Path;
use crate::assets::id::{AssetId, AssetIdTrait};

verus! {

/// The map that an association list stands for: entries are read in order
/// and a later entry for a key replaces an earlier one.
pub open spec fn assoc_map(s: Seq<(AssetId, Seq<char>)>) -> Map<AssetId, Seq<char>>
    decreases s.len(),
{
    if s.len() == 0 {
        Map::empty()
    } else {
        assoc_map(s.drop_last()).insert(s.last().0, s.last().1)
    }
}

/// Resolver entries keyed by the asset that each identifier names.
pub open spec fn keyed_entries<A: AssetIdTrait>(es: Seq<(A, String)>) -> Seq<(AssetId, Seq<char>)> {
    Seq::new(es.len(), |j: int| (es[j].0.spec_asset_id(), es[j].1@))
}

/// Stored entries with their paths as text.
pub open spec fn path_entries(v: Seq<(AssetId, Path)>) -> Seq<(AssetId, Seq<char>)> {
    Seq::new(v.len(), |j: int| (v[j].0, v[j].1@))
}

/// The value an association list gives for a key is that of its last entry for the key.
proof fn lemma_assoc_last(s: Seq<(AssetId, Seq<char>)>, id: AssetId, k: int)
    requires
        0 <= k < s.len(),
        s[k].0 == id,
        forall|j: int| k < j < s.len() ==> s[j].0 != id,
    ensures
        assoc_map(s).contains_key(id),
        assoc_map(s)[id] == s[k].1,
    decreases s.len(),
{
    if k == s.len() - 1 {
    } else {
        let t = s.drop_last();
        assert(t[k] == s[k]);
        assert forall|j: int| k < j < t.len() implies t[j].0 != id by {
            assert(t[j] == s[j]);
        }
        lemma_assoc_last(t, id, k);
    }
}

/// A key that no entry mentions is absent from the map.
proof fn lemma_assoc_absent(s: Seq<(AssetId, Seq<char>)>, id: AssetId)
    requires
        forall|j: int| 0 <= j < s.len() ==> s[j].0 != id,
    ensures
        !assoc_map(s).contains_key(id),
    decreases s.len(),
{
    if s.len() > 0 {
        let t = s.drop_last();
        assert forall|j: int| 0 <= j < t.len() implies t[j].0 != id by {
            assert(t[j] == s[j]);
        }
        lemma_assoc_absent(t, id);
    }
}

/// Finds the path of each asset of a category, below a base directory.
/// The table may be absent (when it could not be loaded): then nothing resolves.
pub struct Resolver {
    base_path: Path,
    map: Option<Vec<(AssetId, Path)>>,
}

impl Resolver {
    /// The base directory of the category.
    pub closed spec fn base(&self) -> Seq<char> {
        self.base_path@
    }

    /// The entries of the table, as read, with their paths as text.
    pub closed spec fn entry_list(&self) -> Option<Seq<(AssetId, Seq<char>)>> {
        match self.map {
            Some(v) => Some(path_entries(v@)),
            None => None,
        }
    }

    /// The table: the path of each known asset, relative to the base directory.
    pub open spec fn table(&self) -> Option<Map<AssetId, Seq<char>>> {
        match self.entry_list() {
            Some(s) => Some(assoc_map(s)),
            None => None,
        }
    }

    /// `id` has a path.
    pub open spec fn resolves(&self, id: AssetId) -> bool {
        self.table() matches Some(m) && m.contains_key(id)
    }

    /// The full path of `id`: the base directory, a slash and its table entry.
    pub open spec fn path_of(&self, id: AssetId) -> Seq<char> {
        self.base() + seq!['/'] + self.table().unwrap()[id]
    }

    /// A resolver for the assets below `base_path`, with the table that was
    /// read for that category (`None` when it could not be read).
    pub fn new<A: AssetIdTrait>(base_path: &str, entries: Option<Vec<(A, String)>>) -> (r: Resolver)
        ensures
            r.base() == base_path@,
            entries is None ==> r.table() is None,
            entries matches Some(es) ==> r.table() == Some(assoc_map(keyed_entries(es@))),
    {
        let map = match entries {
            None => None,
            Some(es) => {
                let mut v: Vec<(AssetId, Path)> = Vec::new();
                let n = es.len();
                let mut i: usize = 0;
                while i < n
                    invariant
                        n == es@.len(),
                        i <= n,
                        v@.len() == i,
                        forall|j: int|
                            0 <= j < i ==> #[trigger] v@[j].0 == es@[j].0.spec_asset_id()
                                && v@[j].1@ == es@[j].1@,
                    decreases n - i,
                {
                    let key = es[i].0.asset_id();
                    let path = Path::new_owned(es[i].1.clone());
                    v.push((key, path));
                    i = i + 1;
                }
                proof {
                    assert(path_entries(v@) =~= keyed_entries(es@));
                }
                Some(v)
            },
        };
        Resolver { base_path: Path::new_owned(String::from_str(base_path)), map }
    }

    /// The full path of `id`, `base/entry`, when the table has an entry for it.
    pub fn get(&self, id: AssetId) -> (r: Option<Path>)
        ensures
            r is Some <==> self.resolves(id),
            r matches Some(p) ==> p@ == self.path_of(id),
    {
        match &self.map {
            None => None,
            Some(v) => {
                let ghost s = self.entry_list().unwrap();
                proof {
                    assert forall|j: int| 0 <= j < s.len() implies s[j] == (v@[j].0, v@[j].1@) by {}
                }
                let mut i: usize = v.len();
                while i > 0
                    invariant
                        i <= v@.len(),
                        self.entry_list() == Some(s),
                        s.len() == v@.len(),
                        forall|j: int| 0 <= j < s.len() ==> s[j] == (v@[j].0, v@[j].1@),
                        forall|j: int| i <= j < s.len() ==> s[j].0 != id,
                    decreases i,
                {
                    i = i - 1;
                    if v[i].0 == id {
                        proof {
                            lemma_assoc_last(s, id, i as int);
                            reveal_strlit("/");
                            assert("/"@ =~= seq!['/']);
                        }
                        let mut full = String::from_str(self.base_path.as_str());
                        full.append("/");
                        full.append(v[i].1.as_str());
                        return Some(Path::new_owned(full));
                    }
                }
                proof {
                    lemma_assoc_absent(s, id);
                }
                None
            },
        }
    }
}

/// What a resolver gives for an asset is what its table's last entry for
/// that asset says, below the base directory; an asset without an entry, or
/// a resolver without a table, gives nothing.
pub proof fn law_resolver_lookup<A: AssetIdTrait>(
    base_path: Seq<char>,
    entries: Seq<(A, String)>,
    k: int,
    r: Resolver,
)
    requires
        r.base() == base_path,
        r.table() == Some(assoc_map(keyed_entries(entries))),
        0 <= k < entries.len(),
        forall|j: int|
            k < j < entries.len() ==> entries[j].0.spec_asset_id() != entries[k].0.spec_asset_id(),
    ensures
        r.resolves(entries[k].0.spec_asset_id()),
        r.path_of(entries[k].0.spec_asset_id()) == base_path + seq!['/'] + entries[k].1@,
{
    let s = keyed_entries(entries);
    let id = entries[k].0.spec_asset_id();
    assert forall|j: int| k < j < s.len() implies s[j].0 != id by {
        assert(s[j].0 == entries[j].0.spec_asset_id());
    }
    lemma_assoc_last(s, id, k);
}


/// An asset that no entry of the table names is not resolved, and a resolver
/// whose table could not be read resolves nothing.
pub proof fn law_resolver_unknown_asset<A: AssetIdTrait>(
    entries: Option<Seq<(A, String)>>,
    id: AssetId,
    r: Resolver,
)
    requires
        entries is None ==> r.table() is None,
        entries matches Some(es) ==> r.table() == Some(assoc_map(keyed_entries(es))),
        entries matches Some(es) ==> forall|j: int| 0 <= j < es.len() ==> (#[trigger] es[j]).0.spec_asset_id() != id,
    ensures
        !r.resolves(id),
{
    if let Some(es) = entries {
        let s = keyed_entries(es);
        assert forall|j: int| 0 <= j < s.len() implies s[j].0 != id by {
            assert(s[j].0 == es[j].0.spec_asset_id());
        }
        lemma_assoc_absent(s, id);
    }
}

} // verus!
