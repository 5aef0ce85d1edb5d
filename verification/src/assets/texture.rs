use vstd::prelude::*;

use crate::assets::file::Path;
use crate::assets::id::{AssetId, DynamicTextureParams, TextureId};
use crate::assets::resolver::Resolver;

verus! {

/// A texture file to load in the background: its identifier and its path.
pub struct TextureRequest {
    pub id: TextureId,
    pub path: Path,
}

/// What became of a background load when the storage is updated.
#[derive(Clone, Copy, Debug, PartialEq, Eq, Structural)]
pub enum LoadStatus {
    /// Still running.
    Waiting,
    /// The loading task panicked: the texture is recorded as missing.
    Panicked,
    /// The bytes were read and decoded into an image: the texture is loaded.
    Decoded,
    /// The bytes were read but could not be decoded: the load is dropped.
    DecodeFailed,
}

/// Everything a texture lookup did and answered.
pub struct Lookup {
    /// `Ok(id)` when the texture asked for can be drawn, `Err(fallback)`
    /// with the texture to draw in its place otherwise.
    pub result: Result<TextureId, TextureId>,
    /// Background loads started by this lookup, in order.
    pub requests: Vec<TextureRequest>,
    /// Generated textures created by this lookup, in order.
    pub created: Vec<TextureId>,
}

/// The state a lookup leaves behind, as the model states it.
pub struct LookupOutcome {
    pub result: Result<TextureId, TextureId>,
    pub pending: Seq<TextureId>,
    pub loaded: Seq<TextureId>,
}

/// The asset a texture identifier names.
pub open spec fn texture_asset(id: TextureId) -> AssetId {
    AssetId::Texture(id)
}

/// The generated texture used as a last resort: one white pixel.
pub open spec fn default_dynamic() -> TextureId {
    TextureId::Dynamic(DynamicTextureParams::spec_default())
}

/// Pending loads after asking for `id`: a load already under way is reused.
pub open spec fn request_after(pending: Seq<TextureId>, id: TextureId) -> Seq<TextureId> {
    if pending.contains(id) {
        pending
    } else {
        pending.push(id)
    }
}

/// What looking up `id` does, from the loaded, pending and missing textures:
/// a loaded texture is answered at once; a generated one is created; otherwise
/// its load is started (unless it is known to be missing) and a fallback is
/// answered: the default texture when loaded, else the default generated
/// texture, created if need be, after starting the default texture's load
/// again when it is known to be missing.
pub open spec fn lookup_outcome(
    loaded: Seq<TextureId>,
    pending: Seq<TextureId>,
    missing: Seq<TextureId>,
    id: TextureId,
) -> LookupOutcome {
    if loaded.contains(id) {
        LookupOutcome { result: Ok(id), pending, loaded }
    } else if id is Dynamic {
        LookupOutcome { result: Ok(id), pending, loaded: loaded.push(id) }
    } else {
        let p1 = if missing.contains(id) {
            pending
        } else {
            request_after(pending, id)
        };
        let d = TextureId::Missing;
        if loaded.contains(d) {
            LookupOutcome { result: Err(d), pending: p1, loaded }
        } else {
            let p2 = if missing.contains(d) {
                request_after(p1, d)
            } else {
                p1
            };
            let dd = default_dynamic();
            if loaded.contains(dd) {
                LookupOutcome { result: Err(dd), pending: p2, loaded }
            } else {
                LookupOutcome { result: Err(dd), pending: p2, loaded: loaded.push(dd) }
            }
        }
    }
}

/// The loaded textures and the pending loads of a storage, in order.
pub struct BookState {
    pub loaded: Seq<TextureId>,
    pub pending: Seq<TextureId>,
}

/// A load of `id` can be asked for while `pending` are running: it is
/// running already or the resolver knows its path.
pub open spec fn may_request(resolver: Resolver, pending: Seq<TextureId>, id: TextureId) -> bool {
    pending.contains(id) || resolver.resolves(texture_asset(id))
}

/// Every load that looking up `id` in state `st` starts has a path.
pub open spec fn lookup_allowed(
    resolver: Resolver,
    st: BookState,
    missing: Seq<TextureId>,
    id: TextureId,
) -> bool {
    let p1 = if missing.contains(id) {
        st.pending
    } else {
        request_after(st.pending, id)
    };
    &&& (!st.loaded.contains(id) && !(id is Dynamic) && !missing.contains(id)) ==> may_request(
        resolver,
        st.pending,
        id,
    )
    &&& (!st.loaded.contains(id) && !(id is Dynamic) && !st.loaded.contains(TextureId::Missing)
        && missing.contains(TextureId::Missing)) ==> may_request(resolver, p1, TextureId::Missing)
}

/// The state after looking `id` up in state `st`.
pub open spec fn lookup_step(st: BookState, missing: Seq<TextureId>, id: TextureId) -> BookState {
    let o = lookup_outcome(st.loaded, st.pending, missing, id);
    BookState { loaded: o.loaded, pending: o.pending }
}

/// Looking up `ids` in order, from state `st`, starts only loads that have a path.
pub open spec fn lookups_allowed(
    resolver: Resolver,
    st: BookState,
    missing: Seq<TextureId>,
    ids: Seq<TextureId>,
) -> bool
    decreases ids.len(),
{
    ids.len() == 0 || (lookup_allowed(resolver, st, missing, ids[0]) && lookups_allowed(
        resolver,
        lookup_step(st, missing, ids[0]),
        missing,
        ids.skip(1),
    ))
}

/// The state after looking up `ids` in order, from state `st`.
pub open spec fn after_lookups(st: BookState, missing: Seq<TextureId>, ids: Seq<TextureId>) -> BookState
    decreases ids.len(),
{
    if ids.len() == 0 {
        st
    } else {
        after_lookups(lookup_step(st, missing, ids[0]), missing, ids.skip(1))
    }
}

/// A lookup only adds to the loaded and pending lists, at their ends.
pub proof fn lemma_lookup_extends(st: BookState, missing: Seq<TextureId>, id: TextureId)
    ensures
        lookup_step(st, missing, id).loaded.len() >= st.loaded.len(),
        lookup_step(st, missing, id).loaded.take(st.loaded.len() as int) == st.loaded,
        lookup_step(st, missing, id).pending.len() >= st.pending.len(),
        lookup_step(st, missing, id).pending.take(st.pending.len() as int) == st.pending,
{
    let n = lookup_step(st, missing, id);
    assert(n.loaded.take(st.loaded.len() as int) =~= st.loaded);
    assert(n.pending.take(st.pending.len() as int) =~= st.pending);
}

/// The identifiers of `ids[j]`, `j < n`, whose status is `want`, in order.
pub open spec fn select(ids: Seq<TextureId>, st: Seq<LoadStatus>, want: LoadStatus, n: int) -> Seq<
    TextureId,
>
    decreases n,
{
    if n <= 0 {
        Seq::empty()
    } else {
        let prev = select(ids, st, want, n - 1);
        if st[n - 1] == want {
            prev.push(ids[n - 1])
        } else {
            prev
        }
    }
}

/// `loaded` with each of `ids` added in order, unless already there.
pub open spec fn insert_all(loaded: Seq<TextureId>, ids: Seq<TextureId>) -> Seq<TextureId>
    decreases ids.len(),
{
    if ids.len() == 0 {
        loaded
    } else {
        let l = insert_all(loaded, ids.drop_last());
        if l.contains(ids.last()) {
            l
        } else {
            l.push(ids.last())
        }
    }
}

/// What `select` keeps comes from the first `n` identifiers.
proof fn lemma_select_from(ids: Seq<TextureId>, st: Seq<LoadStatus>, want: LoadStatus, n: int, x: TextureId)
    requires
        0 <= n <= ids.len(),
        select(ids, st, want, n).contains(x),
    ensures
        exists|j: int| 0 <= j < n && ids[j] == x,
    decreases n,
{
    if n > 0 {
        let prev = select(ids, st, want, n - 1);
        if st[n - 1] == want && x == ids[n - 1] {
        } else {
            if st[n - 1] == want {
                let pp = prev.push(ids[n - 1]);
                assert(pp.contains(x));
                let k = choose|k: int| 0 <= k < pp.len() && #[trigger] pp[k] == x;
                assert(k < prev.len());
                assert(prev[k] == x);
            }
            lemma_select_from(ids, st, want, n - 1, x);
        }
    }
}

/// `select` of identifiers without repetition has no repetition.
proof fn lemma_select_no_dup(ids: Seq<TextureId>, st: Seq<LoadStatus>, want: LoadStatus, n: int)
    requires
        0 <= n <= ids.len(),
        ids.no_duplicates(),
    ensures
        select(ids, st, want, n).no_duplicates(),
    decreases n,
{
    if n > 0 {
        lemma_select_no_dup(ids, st, want, n - 1);
        let prev = select(ids, st, want, n - 1);
        if st[n - 1] == want {
            if prev.contains(ids[n - 1]) {
                lemma_select_from(ids, st, want, n - 1, ids[n - 1]);
            }
            lemma_push_no_dup(prev, ids[n - 1]);
        }
    }
}

/// Appending a new element keeps a sequence free of repetitions.
proof fn lemma_push_no_dup(s: Seq<TextureId>, x: TextureId)
    requires
        s.no_duplicates(),
        !s.contains(x),
    ensures
        s.push(x).no_duplicates(),
{
    let t = s.push(x);
    assert forall|a: int, b: int| 0 <= a < b < t.len() implies #[trigger] t[a] != #[trigger] t[b] by {
        if b == s.len() {
            assert(t[a] == s[a]);
        }
    }
}

/// Whether `id` is among `v`.
pub(crate) fn contains_id(v: &Vec<TextureId>, id: TextureId) -> (b: bool)
    ensures
        b == v@.contains(id),
{
    let mut i: usize = 0;
    while i < v.len()
        invariant
            i <= v@.len(),
            forall|j: int| 0 <= j < i ==> v@[j] != id,
        decreases v@.len() - i,
    {
        if v[i] == id {
            return true;
        }
        i = i + 1;
    }
    false
}

/// Bookkeeping of the texture storage: which textures are loaded, which are
/// being loaded in the background (in the order the loads were started) and
/// which could not be loaded. The images themselves live with the renderer.
pub struct Storage {
    loaded: Vec<TextureId>,
    resolver: Resolver,
    pending: Vec<TextureId>,
    missing: Vec<TextureId>,
}

impl Storage {
    pub closed spec fn loaded_ids(&self) -> Seq<TextureId> {
        self.loaded@
    }

    pub closed spec fn pending_ids(&self) -> Seq<TextureId> {
        self.pending@
    }

    pub closed spec fn missing_ids(&self) -> Seq<TextureId> {
        self.missing@
    }

    pub closed spec fn resolver(&self) -> Resolver {
        self.resolver
    }

    /// No texture is listed twice as loaded, pending or missing.
    pub open spec fn wf(&self) -> bool {
        &&& self.loaded_ids().no_duplicates()
        &&& self.pending_ids().no_duplicates()
        &&& self.missing_ids().no_duplicates()
    }

    /// The loaded and pending textures.
    pub open spec fn book(&self) -> BookState {
        BookState { loaded: self.loaded_ids(), pending: self.pending_ids() }
    }

    /// A load of `id` can be asked for while `pending` are running: it is
    /// running already or the resolver knows its path.
    pub open spec fn can_request(&self, pending: Seq<TextureId>, id: TextureId) -> bool {
        may_request(self.resolver(), pending, id)
    }

    /// Every load that looking up `id` starts has a path.
    pub open spec fn lookup_can_proceed(&self, id: TextureId) -> bool {
        lookup_allowed(self.resolver(), self.book(), self.missing_ids(), id)
    }

    /// A storage that starts loading the default texture, whose request it
    /// hands back.
    pub fn new(resolver: Resolver) -> (r: (Storage, TextureRequest))
        requires
            resolver.resolves(texture_asset(TextureId::Missing)),
        ensures
            r.0.wf(),
            r.0.loaded_ids() == Seq::<TextureId>::empty(),
            r.0.pending_ids() == seq![TextureId::Missing],
            r.0.missing_ids() == Seq::<TextureId>::empty(),
            r.0.resolver() == resolver,
            r.1.id == TextureId::Missing,
            r.1.path@ == resolver.path_of(texture_asset(TextureId::Missing)),
    {
        let default_id = TextureId::default();
        let path = match resolver.get(AssetId::from(default_id)) {
            Some(p) => p,
            None => {
                proof {
                    assert(false);
                }
                Path::new("")
            },
        };
        let mut pending: Vec<TextureId> = Vec::new();
        pending.push(default_id);
        let storage = Storage { loaded: Vec::new(), resolver, pending, missing: Vec::new() };
        proof {
            assert(storage.pending_ids() =~= seq![TextureId::Missing]);
        }
        (storage, TextureRequest { id: default_id, path })
    }

    /// Asks for the load of `id`: a load already under way is reused (`None`),
    /// otherwise a new one is started and its request handed back.
    pub fn request(&mut self, id: TextureId) -> (r: Option<TextureRequest>)
        requires
            old(self).wf(),
            old(self).can_request(old(self).pending_ids(), id),
        ensures
            final(self).wf(),
            final(self).loaded_ids() == old(self).loaded_ids(),
            final(self).missing_ids() == old(self).missing_ids(),
            final(self).resolver() == old(self).resolver(),
            final(self).pending_ids() == request_after(old(self).pending_ids(), id),
            r is None <==> old(self).pending_ids().contains(id),
            r matches Some(q) ==> q.id == id && q.path@ == old(self).resolver().path_of(
                texture_asset(id),
            ),
    {
        if contains_id(&self.pending, id) {
            return None;
        }
        let path = match self.resolver.get(AssetId::from(id)) {
            Some(p) => p,
            None => {
                proof {
                    assert(false);
                }
                Path::new("")
            },
        };
        let ghost before = self.pending@;
        self.pending.push(id);
        proof {
            lemma_push_no_dup(before, id);
        }
        Some(TextureRequest { id, path })
    }

    /// Records that the generated texture `params` now exists.
    pub fn create_dynamic(&mut self, params: DynamicTextureParams) -> (id: TextureId)
        requires
            old(self).wf(),
            !old(self).loaded_ids().contains(TextureId::Dynamic(params)),
        ensures
            final(self).wf(),
            id == TextureId::Dynamic(params),
            final(self).loaded_ids() == old(self).loaded_ids().push(id),
            final(self).pending_ids() == old(self).pending_ids(),
            final(self).missing_ids() == old(self).missing_ids(),
            final(self).resolver() == old(self).resolver(),
    {
        let id = TextureId::Dynamic(params);
        let ghost before = self.loaded@;
        self.loaded.push(id);
        proof {
            lemma_push_no_dup(before, id);
        }
        id
    }

    /// Looks a texture up for drawing, as [`lookup_outcome`] states: the
    /// answer, the loads started and the textures generated on the way.
    pub fn get(&mut self, id: TextureId) -> (r: Lookup)
        requires
            old(self).wf(),
            old(self).lookup_can_proceed(id),
        ensures
            final(self).wf(),
            ({
                let o = lookup_outcome(
                    old(self).loaded_ids(),
                    old(self).pending_ids(),
                    old(self).missing_ids(),
                    id,
                );
                &&& r.result == o.result
                &&& final(self).pending_ids() == o.pending
                &&& final(self).loaded_ids() == o.loaded
            }),
            final(self).missing_ids() == old(self).missing_ids(),
            final(self).resolver() == old(self).resolver(),
            r.created@ == final(self).loaded_ids().skip(old(self).loaded_ids().len() as int),
            r.requests@.len() == final(self).pending_ids().len() - old(self).pending_ids().len(),
            forall|k: int|
                0 <= k < r.requests@.len() ==> {
                    &&& (#[trigger] r.requests@[k]).id == final(self).pending_ids()[old(
                        self,
                    ).pending_ids().len() + k]
                    &&& r.requests@[k].path@ == old(self).resolver().path_of(
                        texture_asset(r.requests@[k].id),
                    )
                },
    {
        let ghost l0 = self.loaded@;
        let ghost p0 = self.pending@;
        let mut requests: Vec<TextureRequest> = Vec::new();
        let mut created: Vec<TextureId> = Vec::new();
        if contains_id(&self.loaded, id) {
            proof {
                assert(self.loaded@.skip(l0.len() as int) =~= Seq::<TextureId>::empty());
            }
            return Lookup { result: Ok(id), requests, created };
        }
        if let TextureId::Dynamic(params) = id {
            let made = self.create_dynamic(params);
            created.push(made);
            proof {
                assert(self.loaded@.skip(l0.len() as int) =~= created@);
                assert(self.pending@ == p0);
            }
            return Lookup { result: Ok(id), requests, created };
        }
        if !contains_id(&self.missing, id) {
            if let Some(q) = self.request(id) {
                requests.push(q);
            }
        }
        let ghost p1 = self.pending@;
        let default_id = TextureId::default();
        if contains_id(&self.loaded, default_id) {
            proof {
                assert(self.loaded@.skip(l0.len() as int) =~= Seq::<TextureId>::empty());
            }
            return Lookup { result: Err(default_id), requests, created };
        }
        if contains_id(&self.missing, default_id) {
            if let Some(q) = self.request(default_id) {
                requests.push(q);
            }
        }
        let default_params = DynamicTextureParams::default();
        let default_dynamic_id = TextureId::Dynamic(default_params);
        if contains_id(&self.loaded, default_dynamic_id) {
            proof {
                assert(self.loaded@.skip(l0.len() as int) =~= Seq::<TextureId>::empty());
            }
            return Lookup { result: Err(default_dynamic_id), requests, created };
        }
        let made = self.create_dynamic(default_params);
        created.push(made);
        proof {
            assert(self.loaded@.skip(l0.len() as int) =~= created@);
        }
        Lookup { result: Err(made), requests, created }
    }

    /// Settles the background loads: `statuses[j]` is what became of the
    /// `j`-th pending load. Finished loads leave the pending list; panicked ones
    /// are recorded as missing; decoded ones become loaded.
    pub fn update(&mut self, statuses: &Vec<LoadStatus>)
        requires
            old(self).wf(),
            statuses@.len() == old(self).pending_ids().len(),
            forall|j: int|
                0 <= j < statuses@.len() && statuses@[j] == LoadStatus::Panicked
                    ==> !old(self).missing_ids().contains(#[trigger] old(self).pending_ids()[j]),
        ensures
            final(self).wf(),
            final(self).pending_ids() == select(
                old(self).pending_ids(),
                statuses@,
                LoadStatus::Waiting,
                statuses@.len() as int,
            ),
            final(self).missing_ids() == old(self).missing_ids() + select(
                old(self).pending_ids(),
                statuses@,
                LoadStatus::Panicked,
                statuses@.len() as int,
            ),
            final(self).loaded_ids() == insert_all(
                old(self).loaded_ids(),
                select(old(self).pending_ids(), statuses@, LoadStatus::Decoded, statuses@.len() as int),
            ),
            final(self).resolver() == old(self).resolver(),
    {
        let ghost p0 = self.pending@;
        let ghost m0 = self.missing@;
        let ghost l0 = self.loaded@;
        let ghost r0 = self.resolver;
        let n = self.pending.len();
        let mut kept: Vec<TextureId> = Vec::new();
        let mut i: usize = 0;
        while i < n
            invariant
                n == p0.len(),
                n == statuses@.len(),
                self.pending@ == p0,
                self.resolver == r0,
                p0.no_duplicates(),
                i <= n,
                forall|j: int|
                    0 <= j < statuses@.len() && statuses@[j] == LoadStatus::Panicked
                        ==> !m0.contains(#[trigger] p0[j]),
                kept@ == select(p0, statuses@, LoadStatus::Waiting, i as int),
                self.missing@ == m0 + select(p0, statuses@, LoadStatus::Panicked, i as int),
                self.missing@.no_duplicates(),
                self.loaded@ == insert_all(
                    l0,
                    select(p0, statuses@, LoadStatus::Decoded, i as int),
                ),
                self.loaded@.no_duplicates(),
            decreases n - i,
        {
            let id = self.pending[i];
            let ghost sel_d = select(p0, statuses@, LoadStatus::Decoded, i as int);
            let ghost sel_p = select(p0, statuses@, LoadStatus::Panicked, i as int);
            match statuses[i] {
                LoadStatus::Waiting => {
                    kept.push(id);
                },
                LoadStatus::Panicked => {
                    let ghost before = self.missing@;
                    proof {
                        if sel_p.contains(id) {
                            lemma_select_from(p0, statuses@, LoadStatus::Panicked, i as int, id);
                            let j = choose|j: int| 0 <= j < i && p0[j] == id;
                            assert(p0[j] == p0[i as int]);
                        }
                        assert(!before.contains(id)) by {
                            if before.contains(id) {
                                let k = choose|k: int| 0 <= k < before.len() && before[k] == id;
                                if k < m0.len() {
                                    assert(m0[k] == id);
                                    assert(m0.contains(p0[i as int]));
                                } else {
                                    assert(sel_p[k - m0.len()] == id);
                                    assert(sel_p.contains(id));
                                }
                            }
                        }
                    }
                    self.missing.push(id);
                    proof {
                        assert(self.missing@ == m0 + sel_p.push(id));
                        lemma_push_no_dup(before, id);
                    }
                },
                LoadStatus::Decoded => {
                    let ghost before = self.loaded@;
                    if !contains_id(&self.loaded, id) {
                        self.loaded.push(id);
                        proof {
                            lemma_push_no_dup(before, id);
                        }
                    }
                    proof {
                        let s1 = select(p0, statuses@, LoadStatus::Decoded, i + 1);
                        assert(s1 == sel_d.push(id));
                        assert(s1.drop_last() == sel_d);
                    }
                },
                LoadStatus::DecodeFailed => {},
            }
            i = i + 1;
        }
        self.pending = kept;
        proof {
            lemma_select_no_dup(p0, statuses@, LoadStatus::Waiting, n as int);
        }
    }
}

/// A lookup always answers with a texture that is loaded once it is done;
/// it answers `Ok` exactly for textures that are loaded or generated.
pub proof fn law_lookup_answers_loaded_texture(
    loaded: Seq<TextureId>,
    pending: Seq<TextureId>,
    missing: Seq<TextureId>,
    id: TextureId,
)
    ensures
        ({
            let o = lookup_outcome(loaded, pending, missing, id);
            &&& (o.result is Ok <==> (loaded.contains(id) || id is Dynamic))
            &&& o.result matches Ok(t) ==> t == id
            &&& match o.result {
                Ok(t) => o.loaded.contains(t),
                Err(t) => o.loaded.contains(t),
            }
            &&& forall|t: TextureId| loaded.contains(t) ==> o.loaded.contains(t)
        }),
{
    let o = lookup_outcome(loaded, pending, missing, id);
    assert forall|t: TextureId| loaded.contains(t) implies o.loaded.contains(t) by {
        let k = choose|k: int| 0 <= k < loaded.len() && loaded[k] == t;
        assert(o.loaded[k] == t);
    }
    match o.result {
        Ok(t) => {
            if !loaded.contains(id) {
                assert(o.loaded[loaded.len() as int] == id);
            }
        },
        Err(t) => {
            if !loaded.contains(t) {
                assert(o.loaded[loaded.len() as int] == t);
            }
        },
    }
}

proof fn lemma_insert_all_contains(loaded: Seq<TextureId>, ids: Seq<TextureId>, x: TextureId)
    requires
        loaded.contains(x) || ids.contains(x),
    ensures
        insert_all(loaded, ids).contains(x),
    decreases ids.len(),
{
    if ids.len() > 0 {
        let l = insert_all(loaded, ids.drop_last());
        if x == ids.last() {
            if !l.contains(x) {
                assert(l.push(x)[l.len() as int] == x);
            }
        } else {
            if !loaded.contains(x) {
                let k = choose|k: int| 0 <= k < ids.len() && ids[k] == x;
                assert(ids.drop_last()[k] == x);
            }
            lemma_insert_all_contains(loaded, ids.drop_last(), x);
            if !l.contains(ids.last()) {
                let j = choose|j: int| 0 <= j < l.len() && l[j] == x;
                assert(l.push(ids.last())[j] == x);
            }
        }
    }
}

proof fn lemma_select_contains(ids: Seq<TextureId>, st: Seq<LoadStatus>, want: LoadStatus, n: int, k: int)
    requires
        0 <= k < n <= ids.len(),
        n <= st.len(),
        st[k] == want,
    ensures
        select(ids, st, want, n).contains(ids[k]),
    decreases n,
{
    let prev = select(ids, st, want, n - 1);
    if k == n - 1 {
        assert(prev.push(ids[k])[prev.len() as int] == ids[k]);
    } else {
        lemma_select_contains(ids, st, want, n - 1, k);
        if st[n - 1] == want {
            let j = choose|j: int| 0 <= j < prev.len() && prev[j] == ids[k];
            assert(prev.push(ids[n - 1])[j] == ids[k]);
        }
    }
}

/// Once the update has seen a texture's load decoded, every later lookup of
/// that texture answers it directly, starting nothing and creating nothing.
pub proof fn law_decoded_texture_is_served(
    loaded: Seq<TextureId>,
    pending: Seq<TextureId>,
    statuses: Seq<LoadStatus>,
    missing: Seq<TextureId>,
    later_pending: Seq<TextureId>,
    k: int,
)
    requires
        statuses.len() == pending.len(),
        0 <= k < pending.len(),
        statuses[k] == LoadStatus::Decoded,
    ensures
        ({
            let l = insert_all(loaded, select(pending, statuses, LoadStatus::Decoded, pending.len() as int));
            let o = lookup_outcome(l, later_pending, missing, pending[k]);
            &&& o.result == Ok::<TextureId, TextureId>(pending[k])
            &&& o.pending == later_pending
            &&& o.loaded == l
        }),
{
    let sel = select(pending, statuses, LoadStatus::Decoded, pending.len() as int);
    lemma_select_contains(pending, statuses, LoadStatus::Decoded, pending.len() as int, k);
    lemma_insert_all_contains(loaded, sel, pending[k]);
}

/// A texture known to be missing (other than the default one) is never
/// loaded again by looking it up.
pub proof fn law_missing_texture_not_reloaded(
    loaded: Seq<TextureId>,
    pending: Seq<TextureId>,
    missing: Seq<TextureId>,
    id: TextureId,
)
    requires
        missing.contains(id),
        id != TextureId::Missing,
        !pending.contains(id),
    ensures
        !lookup_outcome(loaded, pending, missing, id).pending.contains(id),
{
    let o = lookup_outcome(loaded, pending, missing, id);
    if o.pending.contains(id) {
        let j = choose|j: int| 0 <= j < o.pending.len() && o.pending[j] == id;
        if j < pending.len() {
            assert(pending[j] == id);
        }
    }
}

/// A background load is never started twice for the same texture.
pub proof fn law_requests_are_not_repeated(pending: Seq<TextureId>, id: TextureId)
    requires
        pending.no_duplicates(),
    ensures
        request_after(pending, id).no_duplicates(),
        request_after(pending, id).contains(id),
        request_after(request_after(pending, id), id) == request_after(pending, id),
{
    let r = request_after(pending, id);
    if !pending.contains(id) {
        lemma_push_no_dup(pending, id);
        assert(r[pending.len() as int] == id);
    }
}

} // verus!
