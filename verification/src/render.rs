use vstd::prelude::*;

use crate::assets::id::TextureId;
use crate::assets::texture::{
    after_lookups, contains_id, lemma_lookup_extends, lookup_outcome, lookup_step, lookups_allowed,
    texture_asset, BookState, Storage, TextureRequest,
};
use crate::render_log::{LogCounts, RenderLog};

verus! {

/// What the renderer needs to know of one queued drawing request.
#[derive(Clone, Copy, Debug, PartialEq, Eq, Structural)]
pub enum RenderBitKind {
    /// A sprite drawn from a texture of the texture storage.
    Texture(TextureId),
    /// A ready-made mesh.
    Mesh,
    /// A mesh that is built when drawn.
    MeshBuilder,
    /// A text.
    Text,
    /// The immediate-mode GUI window.
    EguiWindow,
}

/// Counters after the first `n` bits of a layer: a texture counts as a
/// texture (and as not found when its lookup fell back), a mesh or mesh
/// builder as a mesh plus a draw call, a text as a text plus a draw call, the
/// GUI window as a draw call.
pub open spec fn bit_counts(bits: Seq<RenderBitKind>, fell_back: Seq<bool>, n: int) -> LogCounts
    decreases n,
{
    if n <= 0 {
        LogCounts::zero()
    } else {
        let c = bit_counts(bits, fell_back, n - 1);
        match bits[n - 1] {
            RenderBitKind::Texture(_) => if fell_back[n - 1] {
                c.after_texture_not_found().after_texture()
            } else {
                c.after_texture()
            },
            RenderBitKind::Mesh => c.after_mesh().after_draw_call(),
            RenderBitKind::MeshBuilder => c.after_mesh().after_draw_call(),
            RenderBitKind::Text => c.after_text().after_draw_call(),
            RenderBitKind::EguiWindow => c.after_draw_call(),
        }
    }
}

/// The distinct textures among the first `n` bits, in order of first use.
pub open spec fn used_textures(bits: Seq<RenderBitKind>, n: int) -> Seq<TextureId>
    decreases n,
{
    if n <= 0 {
        Seq::empty()
    } else {
        let u = used_textures(bits, n - 1);
        match bits[n - 1] {
            RenderBitKind::Texture(t) => if u.contains(t) {
                u
            } else {
                u.push(t)
            },
            _ => u,
        }
    }
}

/// Counters of a whole layer: those of its bits, plus one draw call per
/// distinct texture (each texture's sprites are drawn in one batch).
pub open spec fn layer_counts(bits: Seq<RenderBitKind>, fell_back: Seq<bool>) -> LogCounts {
    let c = bit_counts(bits, fell_back, bits.len() as int);
    LogCounts {
        draw_calls: c.draw_calls + used_textures(bits, bits.len() as int).len(),
        ..c
    }
}

/// Number of bits among the first `n` that are textures.
pub open spec fn count_textures(bits: Seq<RenderBitKind>, n: int) -> int
    decreases n,
{
    if n <= 0 {
        0
    } else {
        count_textures(bits, n - 1) + if bits[n - 1] is Texture {
            1int
        } else {
            0int
        }
    }
}

proof fn lemma_counts_bounded(bits: Seq<RenderBitKind>, fell_back: Seq<bool>, n: int)
    requires
        0 <= n <= bits.len(),
    ensures
        ({
            let c = bit_counts(bits, fell_back, n);
            &&& 0 <= c.textures_not_found <= c.textures
            &&& c.textures == count_textures(bits, n)
            &&& 0 <= c.meshes && 0 <= c.texts && 0 <= c.draw_calls
            &&& c.elements == c.textures + c.meshes + c.texts
            &&& c.elements <= n
            &&& c.draw_calls + used_textures(bits, n).len() <= n
            &&& c.draw_calls + count_textures(bits, n) == n
        }),
    decreases n,
{
    if n > 0 {
        lemma_counts_bounded(bits, fell_back, n - 1);
    }
}

/// Everything the renderer records while drawing one layer.
pub struct LayerTally {
    pub log: RenderLog,
    /// The distinct textures drawn, in order of first use.
    pub used_textures: Vec<TextureId>,
}

/// Tallies one layer of drawing requests. `fell_back[i]` tells whether the
/// texture of bit `i` had to be replaced by a fallback (it is ignored for
/// the other bits).
pub fn tally_layer(bits: &Vec<RenderBitKind>, fell_back: &Vec<bool>) -> (t: LayerTally)
    requires
        fell_back@.len() == bits@.len(),
        bits@.len() <= i32::MAX,
    ensures
        t.log@ == layer_counts(bits@, fell_back@),
        t.used_textures@ == used_textures(bits@, bits@.len() as int),
{
    let mut log = RenderLog::new();
    let mut used: Vec<TextureId> = Vec::new();
    let n = bits.len();
    let mut i: usize = 0;
    while i < n
        invariant
            n == bits@.len(),
            n == fell_back@.len(),
            n <= i32::MAX,
            i <= n,
            log@ == bit_counts(bits@, fell_back@, i as int),
            used@ == used_textures(bits@, i as int),
        decreases n - i,
    {
        proof {
            lemma_counts_bounded(bits@, fell_back@, i as int);
        }
        match bits[i] {
            RenderBitKind::Texture(texture) => {
                if fell_back[i] {
                    log.on_texture_not_found();
                }
                log.on_texture();
                if !contains_id(&used, texture) {
                    used.push(texture);
                }
            },
            RenderBitKind::Mesh => {
                log.on_mesh();
                log.on_draw_call();
            },
            RenderBitKind::MeshBuilder => {
                log.on_mesh();
                log.on_draw_call();
            },
            RenderBitKind::Text => {
                log.on_text();
                log.on_draw_call();
            },
            RenderBitKind::EguiWindow => {
                log.on_draw_call();
            },
        }
        i = i + 1;
    }
    proof {
        lemma_counts_bounded(bits@, fell_back@, n as int);
    }
    let ghost base = log@;
    let mut k: usize = 0;
    while k < used.len()
        invariant
            k <= used@.len(),
            base.draw_calls + used@.len() <= i32::MAX,
            log@ == (LogCounts { draw_calls: base.draw_calls + k, ..base }),
        decreases used@.len() - k,
    {
        log.on_draw_call();
        k = k + 1;
    }
    LayerTally { log, used_textures: used }
}

/// In a layer's tally, elements are the textures, meshes and texts drawn;
/// textures not found are among the textures; every non-texture bit is a
/// draw call and each distinct texture adds one more; a texture is drawn
/// at most once per batch.
pub proof fn law_layer_tally(bits: Seq<RenderBitKind>, fell_back: Seq<bool>)
    ensures
        ({
            let c = layer_counts(bits, fell_back);
            let u = used_textures(bits, bits.len() as int);
            &&& c.elements_consistent()
            &&& 0 <= c.textures_not_found <= c.textures
            &&& c.textures == count_textures(bits, bits.len() as int)
            &&& c.draw_calls == bits.len() - c.textures + u.len()
            &&& u.len() <= c.textures
            &&& u.no_duplicates()
        }),
{
    lemma_counts_bounded(bits, fell_back, bits.len() as int);
    lemma_used_facts(bits, bits.len() as int);
}

/// Drawing requests of one layer with, for each, whether its texture fell back.
pub struct LayerBits {
    pub bits: Vec<RenderBitKind>,
    pub fell_back: Vec<bool>,
}

/// Number of requests in the first `n` layers.
pub open spec fn total_bits(layers: Seq<LayerBits>, n: int) -> int
    decreases n,
{
    if n <= 0 {
        0
    } else {
        total_bits(layers, n - 1) + layers[n - 1].bits@.len()
    }
}

/// Counters of the first `n` layers of a frame: the sum of the layers' counters.
pub open spec fn frame_counts(layers: Seq<LayerBits>, n: int) -> LogCounts
    decreases n,
{
    if n <= 0 {
        LogCounts::zero()
    } else {
        frame_counts(layers, n - 1).plus(
            layer_counts(layers[n - 1].bits@, layers[n - 1].fell_back@),
        )
    }
}

proof fn lemma_frame_bounded(layers: Seq<LayerBits>, n: int)
    requires
        0 <= n <= layers.len(),
        forall|j: int| 0 <= j < layers.len() ==> (#[trigger] layers[j]).fell_back@.len() == layers[j].bits@.len(),
    ensures
        ({
            let c = frame_counts(layers, n);
            &&& 0 <= c.elements <= total_bits(layers, n)
            &&& 0 <= c.textures <= total_bits(layers, n)
            &&& 0 <= c.meshes <= total_bits(layers, n)
            &&& 0 <= c.texts <= total_bits(layers, n)
            &&& 0 <= c.draw_calls <= total_bits(layers, n)
            &&& 0 <= c.textures_not_found <= total_bits(layers, n)
        }),
        0 <= total_bits(layers, n),
    decreases n,
{
    if n > 0 {
        lemma_frame_bounded(layers, n - 1);
        let l = layers[n - 1];
        lemma_counts_bounded(l.bits@, l.fell_back@, l.bits@.len() as int);
        lemma_used_facts(l.bits@, l.bits@.len() as int);
    }
}

/// Tallies a whole frame, layer after layer, summing the layers' logs.
pub fn tally_frame(layers: &Vec<LayerBits>) -> (log: RenderLog)
    requires
        forall|j: int| 0 <= j < layers@.len() ==> (#[trigger] layers@[j]).fell_back@.len() == layers@[j].bits@.len(),
        total_bits(layers@, layers@.len() as int) <= i32::MAX,
    ensures
        log@ == frame_counts(layers@, layers@.len() as int),
{
    let mut global = RenderLog::new();
    let n = layers.len();
    let mut i: usize = 0;
    while i < n
        invariant
            n == layers@.len(),
            i <= n,
            forall|j: int| 0 <= j < layers@.len() ==> (#[trigger] layers@[j]).fell_back@.len() == layers@[j].bits@.len(),
            total_bits(layers@, n as int) <= i32::MAX,
            global@ == frame_counts(layers@, i as int),
        decreases n - i,
    {
        proof {
            lemma_frame_bounded(layers@, i as int);
            lemma_frame_bounded(layers@, i + 1);
            lemma_total_monotone(layers@, i + 1, n as int);
        }
        let layer = &layers[i];
        let t = tally_layer(&layer.bits, &layer.fell_back);
        global.add_assign(t.log);
        i = i + 1;
    }
    global
}

proof fn lemma_total_monotone(layers: Seq<LayerBits>, a: int, b: int)
    requires
        0 <= a <= b <= layers.len(),
    ensures
        total_bits(layers, a) <= total_bits(layers, b),
    decreases b - a,
{
    if a < b {
        lemma_total_monotone(layers, a, b - 1);
    }
}

/// Over a whole frame, elements are the textures, meshes and texts drawn,
/// and the textures not found are among the textures drawn.
pub proof fn law_frame_tally(layers: Seq<LayerBits>, n: int)
    requires
        0 <= n <= layers.len(),
    ensures
        frame_counts(layers, n).elements_consistent(),
        0 <= frame_counts(layers, n).textures_not_found <= frame_counts(layers, n).textures,
    decreases n,
{
    if n > 0 {
        law_frame_tally(layers, n - 1);
        let l = layers[n - 1];
        lemma_counts_bounded(l.bits@, l.fell_back@, l.bits@.len() as int);
    }
}

/// The textures of the requests, in order.
pub open spec fn texture_ids(bits: Seq<RenderBitKind>) -> Seq<TextureId>
    decreases bits.len(),
{
    if bits.len() == 0 {
        Seq::empty()
    } else {
        match bits[0] {
            RenderBitKind::Texture(t) => seq![t] + texture_ids(bits.skip(1)),
            _ => texture_ids(bits.skip(1)),
        }
    }
}

/// The textures looked up while a layer is drawn: the texture of each
/// texture request in order, then once more each distinct texture, when its
/// batch is drawn.
pub open spec fn layer_lookup_ids(bits: Seq<RenderBitKind>) -> Seq<TextureId> {
    texture_ids(bits) + used_textures(bits, bits.len() as int)
}

/// For each request, whether its texture fell back when looked up in turn
/// from state `st` (never, for the other requests).
pub open spec fn fell_back_flags(st: BookState, missing: Seq<TextureId>, bits: Seq<RenderBitKind>) -> Seq<
    bool,
>
    decreases bits.len(),
{
    if bits.len() == 0 {
        Seq::empty()
    } else {
        match bits[0] {
            RenderBitKind::Texture(t) => seq![
                lookup_outcome(st.loaded, st.pending, missing, t).result is Err,
            ] + fell_back_flags(lookup_step(st, missing, t), missing, bits.skip(1)),
            _ => seq![false] + fell_back_flags(st, missing, bits.skip(1)),
        }
    }
}

/// Everything drawing one layer did: its tally, and the loads started and
/// textures generated by the texture lookups on the way, in order.
pub struct LayerRun {
    pub log: RenderLog,
    pub used_textures: Vec<TextureId>,
    pub requests: Vec<TextureRequest>,
    pub created: Vec<TextureId>,
}

/// Draws one layer against the texture storage: each texture request is
/// looked up in turn (counting it as not found when it falls back), the
/// other requests are counted, then each distinct texture is looked up once
/// more for its batch draw call.
pub fn render_layer(storage: &mut Storage, bits: &Vec<RenderBitKind>) -> (r: LayerRun)
    requires
        old(storage).wf(),
        bits@.len() <= i32::MAX,
        lookups_allowed(
            old(storage).resolver(),
            old(storage).book(),
            old(storage).missing_ids(),
            layer_lookup_ids(bits@),
        ),
    ensures
        final(storage).wf(),
        final(storage).resolver() == old(storage).resolver(),
        final(storage).missing_ids() == old(storage).missing_ids(),
        final(storage).book() == after_lookups(
            old(storage).book(),
            old(storage).missing_ids(),
            layer_lookup_ids(bits@),
        ),
        r.log@ == layer_counts(
            bits@,
            fell_back_flags(old(storage).book(), old(storage).missing_ids(), bits@),
        ),
        r.used_textures@ == used_textures(bits@, bits@.len() as int),
        r.created@ == final(storage).loaded_ids().skip(old(storage).loaded_ids().len() as int),
        r.requests@.len() == final(storage).pending_ids().len() - old(storage).pending_ids().len(),
        forall|k: int|
            0 <= k < r.requests@.len() ==> {
                &&& (#[trigger] r.requests@[k]).id == final(storage).pending_ids()[old(
                    storage,
                ).pending_ids().len() + k]
                &&& r.requests@[k].path@ == old(storage).resolver().path_of(
                    texture_asset(r.requests@[k].id),
                )
            },
{
    let ghost r0 = storage.resolver();
    let ghost m0 = storage.missing_ids();
    let ghost b0 = storage.book();
    let ghost all = layer_lookup_ids(bits@);
    let ghost fin = after_lookups(b0, m0, all);
    let ghost full = fell_back_flags(b0, m0, bits@);
    let ghost used_all = used_textures(bits@, bits@.len() as int);
    let ghost mut fb: Seq<bool> = Seq::empty();
    let mut log = RenderLog::new();
    let mut used: Vec<TextureId> = Vec::new();
    let mut requests: Vec<TextureRequest> = Vec::new();
    let mut created: Vec<TextureId> = Vec::new();
    let n = bits.len();
    let mut i: usize = 0;
    proof {
        assert(bits@.skip(0) =~= bits@);
        assert(full =~= fb + fell_back_flags(storage.book(), m0, bits@.skip(0)));
        assert(storage.loaded_ids().skip(b0.loaded.len() as int) =~= created@);
    }
    while i < n
        invariant
            n == bits@.len(),
            n <= i32::MAX,
            i <= n,
            storage.wf(),
            storage.resolver() == r0,
            storage.missing_ids() == m0,
            used_all == used_textures(bits@, bits@.len() as int),
            full == fell_back_flags(b0, m0, bits@),
            lookups_allowed(r0, storage.book(), m0, texture_ids(bits@.skip(i as int)) + used_all),
            after_lookups(storage.book(), m0, texture_ids(bits@.skip(i as int)) + used_all) == fin,
            fb.len() == i,
            full == fb + fell_back_flags(storage.book(), m0, bits@.skip(i as int)),
            log@ == bit_counts(bits@, full, i as int),
            used@ == used_textures(bits@, i as int),
            storage.loaded_ids().len() >= b0.loaded.len(),
            storage.loaded_ids().take(b0.loaded.len() as int) == b0.loaded,
            created@ == storage.loaded_ids().skip(b0.loaded.len() as int),
            storage.pending_ids().len() >= b0.pending.len(),
            storage.pending_ids().take(b0.pending.len() as int) == b0.pending,
            requests@.len() == storage.pending_ids().len() - b0.pending.len(),
            forall|k: int|
                0 <= k < requests@.len() ==> {
                    &&& (#[trigger] requests@[k]).id == storage.pending_ids()[b0.pending.len() + k]
                    &&& requests@[k].path@ == r0.path_of(texture_asset(requests@[k].id))
                },
        decreases n - i,
    {
        proof {
            lemma_counts_bounded(bits@, full, i as int);
        }
        let ghost rest = bits@.skip(i as int);
        proof {
            assert(rest[0] == bits@[i as int]);
            assert(rest.skip(1) =~= bits@.skip(i + 1));
        }
        match bits[i] {
            RenderBitKind::Texture(texture) => {
                let ghost before = storage.book();
                let ghost rem = texture_ids(rest) + used_all;
                proof {
                    assert(texture_ids(rest) == seq![texture] + texture_ids(bits@.skip(i + 1)));
                    assert(rem[0] == texture);
                    assert(rem.skip(1) =~= texture_ids(bits@.skip(i + 1)) + used_all);
                    lemma_lookup_extends(before, m0, texture);
                }
                let mut look = storage.get(texture);
                let fell = look.result.is_err();
                proof {
                    assert(storage.book() == lookup_step(before, m0, texture));
                    assert(fell_back_flags(before, m0, rest) == seq![fell] + fell_back_flags(
                        storage.book(),
                        m0,
                        bits@.skip(i + 1),
                    ));
                    assert(full[i as int] == fell) by {
                        assert((fb + fell_back_flags(before, m0, rest))[i as int] == fell);
                    }
                    fb = fb.push(fell);
                    assert(full =~= fb + fell_back_flags(storage.book(), m0, bits@.skip(i + 1)));
                }
                if fell {
                    log.on_texture_not_found();
                }
                log.on_texture();
                if !contains_id(&used, texture) {
                    used.push(texture);
                }
                let ghost req_before = requests@;
                let ghost cre_before = created@;
                let ghost new_reqs = look.requests@;
                requests.append(&mut look.requests);
                created.append(&mut look.created);
                proof {
                    assert(created@ =~= storage.loaded_ids().skip(b0.loaded.len() as int)) by {
                        assert(before.loaded.take(b0.loaded.len() as int) == b0.loaded);
                        assert(storage.loaded_ids().take(before.loaded.len() as int) == before.loaded);
                    }
                    assert(storage.loaded_ids().take(b0.loaded.len() as int) =~= b0.loaded) by {
                        assert(storage.loaded_ids().take(before.loaded.len() as int) == before.loaded);
                    }
                    assert(storage.pending_ids().take(b0.pending.len() as int) =~= b0.pending) by {
                        assert(storage.pending_ids().take(before.pending.len() as int)
                            == before.pending);
                    }
                    assert forall|k: int| 0 <= k < requests@.len() implies {
                        &&& (#[trigger] requests@[k]).id == storage.pending_ids()[b0.pending.len() + k]
                        &&& requests@[k].path@ == r0.path_of(texture_asset(requests@[k].id))
                    } by {
                        if k < req_before.len() {
                            assert(requests@[k] == req_before[k]);
                            assert(storage.pending_ids().take(before.pending.len() as int)
                                == before.pending);
                            assert(storage.pending_ids()[b0.pending.len() + k] == before.pending[b0.pending.len() + k]);
                        } else {
                            assert(requests@[k] == new_reqs[k - req_before.len()]);
                        }
                    }
                }
            },
            _ => {
                proof {
                    assert(texture_ids(rest) == texture_ids(bits@.skip(i + 1)));
                    assert(fell_back_flags(storage.book(), m0, rest) == seq![false]
                        + fell_back_flags(storage.book(), m0, bits@.skip(i + 1)));
                    assert(full[i as int] == false) by {
                        assert((fb + fell_back_flags(storage.book(), m0, rest))[i as int] == false);
                    }
                    fb = fb.push(false);
                    assert(full =~= fb + fell_back_flags(storage.book(), m0, bits@.skip(i + 1)));
                }
                match bits[i] {
                    RenderBitKind::Mesh => {
                        log.on_mesh();
                        log.on_draw_call();
                    },
                    RenderBitKind::MeshBuilder => {
                        log.on_mesh();
                        log.on_draw_call();
                    },
                    RenderBitKind::Text => {
                        log.on_text();
                        log.on_draw_call();
                    },
                    _ => {
                        log.on_draw_call();
                    },
                }
            },
        }
        i = i + 1;
    }
    proof {
        lemma_counts_bounded(bits@, full, n as int);
        assert(bits@.skip(n as int) =~= Seq::<RenderBitKind>::empty());
        assert(texture_ids(bits@.skip(n as int)) == Seq::<TextureId>::empty());
        assert(texture_ids(bits@.skip(n as int)) + used_all =~= used_all);
        assert(used_all.skip(0) =~= used_all);
    }
    let ghost base = log@;
    let mut k: usize = 0;
    while k < used.len()
        invariant
            used@ == used_all,
            k <= used@.len(),
            storage.wf(),
            storage.resolver() == r0,
            storage.missing_ids() == m0,
            lookups_allowed(r0, storage.book(), m0, used_all.skip(k as int)),
            after_lookups(storage.book(), m0, used_all.skip(k as int)) == fin,
            base.draw_calls + used@.len() <= i32::MAX,
            log@ == (LogCounts { draw_calls: base.draw_calls + k, ..base }),
            storage.loaded_ids().len() >= b0.loaded.len(),
            storage.loaded_ids().take(b0.loaded.len() as int) == b0.loaded,
            created@ == storage.loaded_ids().skip(b0.loaded.len() as int),
            storage.pending_ids().len() >= b0.pending.len(),
            storage.pending_ids().take(b0.pending.len() as int) == b0.pending,
            requests@.len() == storage.pending_ids().len() - b0.pending.len(),
            forall|j: int|
                0 <= j < requests@.len() ==> {
                    &&& (#[trigger] requests@[j]).id == storage.pending_ids()[b0.pending.len() + j]
                    &&& requests@[j].path@ == r0.path_of(texture_asset(requests@[j].id))
                },
        decreases used@.len() - k,
    {
        let texture = used[k];
        let ghost before = storage.book();
        let ghost rem = used_all.skip(k as int);
        proof {
            assert(rem[0] == texture);
            assert(rem.skip(1) =~= used_all.skip(k + 1));
            lemma_lookup_extends(before, m0, texture);
        }
        let mut look = storage.get(texture);
        proof {
            assert(storage.book() == lookup_step(before, m0, texture));
        }
        log.on_draw_call();
        let ghost req_before = requests@;
        let ghost new_reqs = look.requests@;
        requests.append(&mut look.requests);
        created.append(&mut look.created);
        proof {
            assert(created@ =~= storage.loaded_ids().skip(b0.loaded.len() as int)) by {
                assert(before.loaded.take(b0.loaded.len() as int) == b0.loaded);
                assert(storage.loaded_ids().take(before.loaded.len() as int) == before.loaded);
            }
            assert(storage.loaded_ids().take(b0.loaded.len() as int) =~= b0.loaded) by {
                assert(storage.loaded_ids().take(before.loaded.len() as int) == before.loaded);
            }
            assert(storage.pending_ids().take(b0.pending.len() as int) =~= b0.pending) by {
                assert(storage.pending_ids().take(before.pending.len() as int) == before.pending);
            }
            assert forall|j: int| 0 <= j < requests@.len() implies {
                &&& (#[trigger] requests@[j]).id == storage.pending_ids()[b0.pending.len() + j]
                &&& requests@[j].path@ == r0.path_of(texture_asset(requests@[j].id))
            } by {
                if j < req_before.len() {
                    assert(requests@[j] == req_before[j]);
                    assert(storage.pending_ids().take(before.pending.len() as int)
                        == before.pending);
                    assert(storage.pending_ids()[b0.pending.len() + j] == before.pending[b0.pending.len() + j]);
                } else {
                    assert(requests@[j] == new_reqs[j - req_before.len()]);
                }
            }
        }
        k = k + 1;
    }
    proof {
        assert(used_all.skip(used@.len() as int) =~= Seq::<TextureId>::empty());
    }
    LayerRun { log, used_textures: used, requests, created }
}

/// Looking up `a` then `b` is allowed exactly when looking up `a + b` is,
/// and leads to the same state.
pub proof fn lemma_lookups_concat(
    resolver: crate::assets::resolver::Resolver,
    st: BookState,
    missing: Seq<TextureId>,
    a: Seq<TextureId>,
    b: Seq<TextureId>,
)
    ensures
        lookups_allowed(resolver, st, missing, a + b) == (lookups_allowed(resolver, st, missing, a)
            && lookups_allowed(resolver, after_lookups(st, missing, a), missing, b)),
        after_lookups(st, missing, a + b) == after_lookups(after_lookups(st, missing, a), missing, b),
    decreases a.len(),
{
    if a.len() == 0 {
        assert(a + b =~= b);
    } else {
        assert((a + b)[0] == a[0]);
        assert((a + b).skip(1) =~= a.skip(1) + b);
        lemma_lookups_concat(resolver, lookup_step(st, missing, a[0]), missing, a.skip(1), b);
    }
}

/// Looking up `a` then `b` leads to the state that looking up `a + b` does.
proof fn lemma_after_lookups_concat(
    st: BookState,
    missing: Seq<TextureId>,
    a: Seq<TextureId>,
    b: Seq<TextureId>,
)
    ensures
        after_lookups(st, missing, a + b) == after_lookups(after_lookups(st, missing, a), missing, b),
    decreases a.len(),
{
    if a.len() == 0 {
        assert(a + b =~= b);
    } else {
        assert((a + b)[0] == a[0]);
        assert((a + b).skip(1) =~= a.skip(1) + b);
        lemma_after_lookups_concat(lookup_step(st, missing, a[0]), missing, a.skip(1), b);
    }
}

/// The requests of each layer, as sequences.
pub open spec fn layer_seqs(v: Seq<Vec<RenderBitKind>>) -> Seq<Seq<RenderBitKind>> {
    Seq::new(v.len(), |j: int| v[j]@)
}

/// The textures looked up while the layers are drawn in order.
pub open spec fn frame_lookup_ids(layers: Seq<Seq<RenderBitKind>>) -> Seq<TextureId>
    decreases layers.len(),
{
    if layers.len() == 0 {
        Seq::empty()
    } else {
        layer_lookup_ids(layers[0]) + frame_lookup_ids(layers.skip(1))
    }
}

/// Number of requests in all the layers.
pub open spec fn frame_bits(layers: Seq<Seq<RenderBitKind>>) -> int
    decreases layers.len(),
{
    if layers.len() == 0 {
        0
    } else {
        layers[0].len() + frame_bits(layers.skip(1))
    }
}

/// Counters of drawing the layers in order from state `st`: the sum of each
/// layer's counters, its fallbacks being those of its lookups in turn.
pub open spec fn frame_run_counts(
    st: BookState,
    missing: Seq<TextureId>,
    layers: Seq<Seq<RenderBitKind>>,
) -> LogCounts
    decreases layers.len(),
{
    if layers.len() == 0 {
        LogCounts::zero()
    } else {
        layer_counts(layers[0], fell_back_flags(st, missing, layers[0])).plus(
            frame_run_counts(
                after_lookups(st, missing, layer_lookup_ids(layers[0])),
                missing,
                layers.skip(1),
            ),
        )
    }
}

/// Every counter lies between 0 and `m`.
pub open spec fn counts_within(c: LogCounts, m: int) -> bool {
    &&& 0 <= c.elements <= m
    &&& 0 <= c.textures <= m
    &&& 0 <= c.meshes <= m
    &&& 0 <= c.texts <= m
    &&& 0 <= c.draw_calls <= m
    &&& 0 <= c.textures_not_found <= m
}

/// Everything drawing a frame did: the summed log, the loads started and
/// the textures generated, in order.
pub struct FrameRun {
    pub log: RenderLog,
    pub requests: Vec<TextureRequest>,
    pub created: Vec<TextureId>,
}

/// The drawing requests of a frame, layer by layer, in drawing order.
pub struct Renderer {
    render_request: Vec<Vec<RenderBitKind>>,
}

impl Renderer {
    /// The queued requests.
    pub closed spec fn request(&self) -> Vec<Vec<RenderBitKind>> {
        self.render_request
    }

    /// A renderer with nothing queued.
    pub fn new() -> (r: Renderer)
        ensures
            r.request()@ == Seq::<Vec<RenderBitKind>>::empty(),
    {
        Renderer { render_request: Vec::new() }
    }

    /// The queued requests, to add to.
    pub fn render_request(&mut self) -> (r: &mut Vec<Vec<RenderBitKind>>)
        ensures
            *r == old(self).request(),
            final(self).request() == *final(r),
    {
        &mut self.render_request
    }

    /// Draws the queued layers in order against the texture storage, as
    /// [`render_layer`] draws each, sums their logs and empties the queue.
    pub fn run(&mut self, storage: &mut Storage) -> (r: FrameRun)
        requires
            old(storage).wf(),
            frame_bits(layer_seqs(old(self).request()@)) <= i32::MAX,
            lookups_allowed(
                old(storage).resolver(),
                old(storage).book(),
                old(storage).missing_ids(),
                frame_lookup_ids(layer_seqs(old(self).request()@)),
            ),
        ensures
            final(self).request()@ == Seq::<Vec<RenderBitKind>>::empty(),
            final(storage).wf(),
            final(storage).resolver() == old(storage).resolver(),
            final(storage).missing_ids() == old(storage).missing_ids(),
            final(storage).book() == after_lookups(
                old(storage).book(),
                old(storage).missing_ids(),
                frame_lookup_ids(layer_seqs(old(self).request()@)),
            ),
            r.log@ == frame_run_counts(
                old(storage).book(),
                old(storage).missing_ids(),
                layer_seqs(old(self).request()@),
            ),
            r.created@ == final(storage).loaded_ids().skip(old(storage).loaded_ids().len() as int),
            r.requests@.len() == final(storage).pending_ids().len() - old(
                storage,
            ).pending_ids().len(),
            forall|k: int|
                0 <= k < r.requests@.len() ==> {
                    &&& (#[trigger] r.requests@[k]).id == final(storage).pending_ids()[old(
                        storage,
                    ).pending_ids().len() + k]
                    &&& r.requests@[k].path@ == old(storage).resolver().path_of(
                        texture_asset(r.requests@[k].id),
                    )
                },
    {
        let ghost r0 = storage.resolver();
        let ghost m0 = storage.missing_ids();
        let ghost b0 = storage.book();
        let ghost all = layer_seqs(self.render_request@);
        let ghost fin = after_lookups(b0, m0, frame_lookup_ids(all));
        let ghost total = frame_run_counts(b0, m0, all);
        let mut global = RenderLog::new();
        let mut requests: Vec<TextureRequest> = Vec::new();
        let mut created: Vec<TextureId> = Vec::new();
        let n = self.render_request.len();
        let mut i: usize = 0;
        proof {
            assert(all.skip(0) =~= all);
            lemma_frame_bits_nonneg(all);
            assert(storage.loaded_ids().skip(b0.loaded.len() as int) =~= created@);
            assert(storage.loaded_ids().take(b0.loaded.len() as int) =~= b0.loaded);
            assert(storage.pending_ids().take(b0.pending.len() as int) =~= b0.pending);
            assert(global@.plus(frame_run_counts(storage.book(), m0, all)) =~= total);
        }
        while i < n
            invariant
                n == all.len(),
                all == layer_seqs(self.render_request@),
                i <= n,
                storage.wf(),
                storage.resolver() == r0,
                storage.missing_ids() == m0,
                frame_bits(all) <= i32::MAX,
                lookups_allowed(r0, storage.book(), m0, frame_lookup_ids(all.skip(i as int))),
                after_lookups(storage.book(), m0, frame_lookup_ids(all.skip(i as int))) == fin,
                global@.plus(frame_run_counts(storage.book(), m0, all.skip(i as int))) == total,
                counts_within(global@, frame_bits(all) - frame_bits(all.skip(i as int))),
                0 <= frame_bits(all.skip(i as int)) <= frame_bits(all),
                storage.loaded_ids().len() >= b0.loaded.len(),
                storage.loaded_ids().take(b0.loaded.len() as int) == b0.loaded,
                created@ == storage.loaded_ids().skip(b0.loaded.len() as int),
                storage.pending_ids().len() >= b0.pending.len(),
                storage.pending_ids().take(b0.pending.len() as int) == b0.pending,
                requests@.len() == storage.pending_ids().len() - b0.pending.len(),
                forall|k: int|
                    0 <= k < requests@.len() ==> {
                        &&& (#[trigger] requests@[k]).id == storage.pending_ids()[b0.pending.len()
                            + k]
                        &&& requests@[k].path@ == r0.path_of(texture_asset(requests@[k].id))
                    },
            decreases n - i,
        {
            let ghost before = storage.book();
            let ghost rest = all.skip(i as int);
            let ghost layer = rest[0];
            proof {
                assert(rest[0] == all[i as int]);
                assert(rest.skip(1) =~= all.skip(i + 1));
                assert(layer == self.render_request@[i as int]@);
                lemma_lookups_concat(r0, before, m0, layer_lookup_ids(layer), frame_lookup_ids(rest.skip(1)));
                lemma_frame_bits_nonneg(rest.skip(1));
            }
            let mut run = render_layer(storage, &self.render_request[i]);
            proof {
                lemma_counts_bounded(layer, fell_back_flags(before, m0, layer), layer.len() as int);
                lemma_used_facts(layer, layer.len() as int);
                lemma_after_lookups_extends(before, m0, layer_lookup_ids(layer));
            }
            global.add_assign(run.log);
            let ghost req_before = requests@;
            let ghost new_reqs = run.requests@;
            requests.append(&mut run.requests);
            created.append(&mut run.created);
            proof {
                assert(global@.plus(frame_run_counts(storage.book(), m0, all.skip(i + 1))) =~= total);
                assert(created@ =~= storage.loaded_ids().skip(b0.loaded.len() as int)) by {
                    assert(before.loaded.take(b0.loaded.len() as int) == b0.loaded);
                    assert(storage.loaded_ids().take(before.loaded.len() as int) == before.loaded);
                }
                assert(storage.loaded_ids().take(b0.loaded.len() as int) =~= b0.loaded) by {
                    assert(storage.loaded_ids().take(before.loaded.len() as int) == before.loaded);
                }
                assert(storage.pending_ids().take(b0.pending.len() as int) =~= b0.pending) by {
                    assert(storage.pending_ids().take(before.pending.len() as int)
                        == before.pending);
                }
                assert forall|k: int| 0 <= k < requests@.len() implies {
                    &&& (#[trigger] requests@[k]).id == storage.pending_ids()[b0.pending.len() + k]
                    &&& requests@[k].path@ == r0.path_of(texture_asset(requests@[k].id))
                } by {
                    if k < req_before.len() {
                        assert(requests@[k] == req_before[k]);
                        assert(storage.pending_ids().take(before.pending.len() as int)
                            == before.pending);
                        assert(storage.pending_ids()[b0.pending.len() + k]
                            == before.pending[b0.pending.len() + k]);
                    } else {
                        assert(requests@[k] == new_reqs[k - req_before.len()]);
                    }
                }
            }
            i = i + 1;
        }
        proof {
            assert(all.skip(n as int) =~= Seq::<Seq<RenderBitKind>>::empty());
            assert(global@ =~= total);
        }
        self.render_request.clear();
        FrameRun { log: global, requests, created }
    }
}

/// Drawing a frame against the texture storage keeps the element counter
/// equal to the textures, meshes and texts drawn, and counts no more
/// textures as not found than were drawn.
pub proof fn law_frame_run_tally(st: BookState, missing: Seq<TextureId>, layers: Seq<Seq<RenderBitKind>>)
    ensures
        frame_run_counts(st, missing, layers).elements_consistent(),
        0 <= frame_run_counts(st, missing, layers).textures_not_found <= frame_run_counts(
            st,
            missing,
            layers,
        ).textures,
    decreases layers.len(),
{
    if layers.len() > 0 {
        let l = layers[0];
        law_frame_run_tally(after_lookups(st, missing, layer_lookup_ids(l)), missing, layers.skip(1));
        lemma_counts_bounded(l, fell_back_flags(st, missing, l), l.len() as int);
    }
}

/// Each layer of a frame tally adds its own tally, whatever the layers
/// before it (an empty layer adds nothing and stops nothing).
pub proof fn law_frame_tally_adds_each_layer(layers: Seq<LayerBits>, n: int)
    requires
        0 <= n < layers.len(),
    ensures
        frame_counts(layers, n + 1) == frame_counts(layers, n).plus(
            layer_counts(layers[n].bits@, layers[n].fell_back@),
        ),
        layers[n].bits@.len() == 0 ==> frame_counts(layers, n + 1) == frame_counts(layers, n),
{
    if layers[n].bits@.len() == 0 {
        let b = layers[n].bits@;
        assert(used_textures(b, 0) == Seq::<TextureId>::empty());
        assert(layer_counts(b, layers[n].fell_back@) == LogCounts::zero());
        assert(frame_counts(layers, n).plus(LogCounts::zero()) == frame_counts(layers, n));
    }
}

/// Drawing two runs of layers one after the other counts the sum of their
/// counts, the second run starting from the state the first left; its
/// lookups are those of the first run followed by those of the second.
pub proof fn law_frame_run_concat(
    st: BookState,
    missing: Seq<TextureId>,
    a: Seq<Seq<RenderBitKind>>,
    b: Seq<Seq<RenderBitKind>>,
)
    ensures
        frame_lookup_ids(a + b) == frame_lookup_ids(a) + frame_lookup_ids(b),
        frame_run_counts(st, missing, a + b) == frame_run_counts(st, missing, a).plus(
            frame_run_counts(after_lookups(st, missing, frame_lookup_ids(a)), missing, b),
        ),
    decreases a.len(),
{
    if a.len() == 0 {
        assert(a + b =~= b);
        assert(frame_lookup_ids(a) + frame_lookup_ids(b) =~= frame_lookup_ids(b));
        assert(LogCounts::zero().plus(frame_run_counts(st, missing, b)) == frame_run_counts(
            st,
            missing,
            b,
        ));
    } else {
        let l = a[0];
        let st1 = after_lookups(st, missing, layer_lookup_ids(l));
        assert((a + b)[0] == l);
        assert((a + b).skip(1) =~= a.skip(1) + b);
        law_frame_run_concat(st1, missing, a.skip(1), b);
        assert(frame_lookup_ids(a + b) =~= frame_lookup_ids(a) + frame_lookup_ids(b));
        lemma_after_lookups_concat(st, missing, layer_lookup_ids(l), frame_lookup_ids(a.skip(1)));
    }
}

/// A frame of one layer counts that layer, with the fallbacks of its
/// lookups; an empty layer counts nothing, looks nothing up and leaves the
/// state as it was.
pub proof fn law_frame_run_single_layer(
    st: BookState,
    missing: Seq<TextureId>,
    l: Seq<RenderBitKind>,
)
    ensures
        frame_run_counts(st, missing, seq![l]) == layer_counts(l, fell_back_flags(st, missing, l)),
        frame_lookup_ids(seq![l]) == layer_lookup_ids(l),
        l.len() == 0 ==> frame_run_counts(st, missing, seq![l]) == LogCounts::zero(),
        l.len() == 0 ==> frame_lookup_ids(seq![l]) == Seq::<TextureId>::empty(),
{
    let one = seq![l];
    assert(one[0] == l);
    assert(one.skip(1) =~= Seq::<Seq<RenderBitKind>>::empty());
    assert(frame_lookup_ids(one.skip(1)) == Seq::<TextureId>::empty());
    assert(frame_run_counts(after_lookups(st, missing, layer_lookup_ids(l)), missing, one.skip(1))
        == LogCounts::zero());
    assert(frame_lookup_ids(one) =~= layer_lookup_ids(l));
    let c = layer_counts(l, fell_back_flags(st, missing, l));
    assert(c.plus(LogCounts::zero()) == c);
    if l.len() == 0 {
        assert(texture_ids(l) == Seq::<TextureId>::empty());
        assert(used_textures(l, 0) == Seq::<TextureId>::empty());
        assert(layer_lookup_ids(l) =~= Seq::<TextureId>::empty());
        assert(c == LogCounts::zero());
    }
}

/// The storage state just before the `i`-th request of a layer is drawn:
/// the state after looking up the textures of the requests before it.
pub open spec fn state_before(st: BookState, missing: Seq<TextureId>, bits: Seq<RenderBitKind>, i: int) -> BookState {
    after_lookups(st, missing, texture_ids(bits.take(i)))
}

/// The `i`-th request of a layer is a texture whose lookup, made in turn,
/// answers a fallback.
pub open spec fn request_falls_back(
    st: BookState,
    missing: Seq<TextureId>,
    bits: Seq<RenderBitKind>,
    i: int,
) -> bool {
    match bits[i] {
        RenderBitKind::Texture(t) => {
            let s = state_before(st, missing, bits, i);
            lookup_outcome(s.loaded, s.pending, missing, t).result is Err
        },
        _ => false,
    }
}

/// Number of requests among the first `n` whose lookup answers a fallback.
pub open spec fn count_fallbacks(
    st: BookState,
    missing: Seq<TextureId>,
    bits: Seq<RenderBitKind>,
    n: int,
) -> int
    decreases n,
{
    if n <= 0 {
        0
    } else {
        count_fallbacks(st, missing, bits, n - 1) + if request_falls_back(st, missing, bits, n - 1) {
            1int
        } else {
            0int
        }
    }
}

/// Number of texture requests among the first `n` that are flagged.
spec fn count_flagged(bits: Seq<RenderBitKind>, fb: Seq<bool>, n: int) -> int
    decreases n,
{
    if n <= 0 {
        0
    } else {
        count_flagged(bits, fb, n - 1) + if bits[n - 1] is Texture && fb[n - 1] {
            1int
        } else {
            0int
        }
    }
}

proof fn lemma_not_found_counts_flagged(bits: Seq<RenderBitKind>, fb: Seq<bool>, n: int)
    requires
        0 <= n <= bits.len(),
    ensures
        bit_counts(bits, fb, n).textures_not_found == count_flagged(bits, fb, n),
    decreases n,
{
    if n > 0 {
        lemma_not_found_counts_flagged(bits, fb, n - 1);
    }
}

proof fn lemma_flags_are_fallbacks(st: BookState, missing: Seq<TextureId>, bits: Seq<RenderBitKind>)
    ensures
        fell_back_flags(st, missing, bits).len() == bits.len(),
        forall|k: int|
            0 <= k < bits.len() ==> #[trigger] fell_back_flags(st, missing, bits)[k]
                == request_falls_back(st, missing, bits, k),
    decreases bits.len(),
{
    if bits.len() > 0 {
        let rest = bits.skip(1);
        let st1 = match bits[0] {
            RenderBitKind::Texture(t) => lookup_step(st, missing, t),
            _ => st,
        };
        lemma_flags_are_fallbacks(st1, missing, rest);
        let f = fell_back_flags(st, missing, bits);
        let g = fell_back_flags(st1, missing, rest);
        assert forall|k: int| 0 <= k < bits.len() implies #[trigger] fell_back_flags(
            st,
            missing,
            bits,
        )[k] == request_falls_back(st, missing, bits, k) by {
            if k == 0 {
                assert(bits.take(0) =~= Seq::<RenderBitKind>::empty());
                assert(texture_ids(bits.take(0)) == Seq::<TextureId>::empty());
                assert(state_before(st, missing, bits, 0) == st);
            } else {
                let tk = bits.take(k);
                assert(tk[0] == bits[0]);
                assert(tk.skip(1) =~= rest.take(k - 1));
                assert(rest[k - 1] == bits[k]);
                let r = texture_ids(rest.take(k - 1));
                match bits[0] {
                    RenderBitKind::Texture(t) => {
                        assert(texture_ids(tk) == seq![t] + r);
                        let ids = seq![t] + r;
                        assert(ids[0] == t);
                        assert(ids.skip(1) =~= r);
                        assert(after_lookups(st, missing, ids) == after_lookups(st1, missing, r));
                        assert(f[k] == g[k - 1]);
                    },
                    _ => {
                        assert(texture_ids(tk) == r);
                        assert(f[k] == g[k - 1]);
                    },
                }
                assert(state_before(st, missing, bits, k) == state_before(st1, missing, rest, k - 1));
            }
        }
    }
}

proof fn lemma_flagged_counts_fallbacks(
    st: BookState,
    missing: Seq<TextureId>,
    bits: Seq<RenderBitKind>,
    n: int,
)
    requires
        0 <= n <= bits.len(),
        fell_back_flags(st, missing, bits).len() == bits.len(),
        forall|k: int|
            0 <= k < bits.len() ==> #[trigger] fell_back_flags(st, missing, bits)[k]
                == request_falls_back(st, missing, bits, k),
    ensures
        count_flagged(bits, fell_back_flags(st, missing, bits), n) == count_fallbacks(
            st,
            missing,
            bits,
            n,
        ),
    decreases n,
{
    if n > 0 {
        lemma_flagged_counts_fallbacks(st, missing, bits, n - 1);
        let f = fell_back_flags(st, missing, bits);
        assert(f[n - 1] == request_falls_back(st, missing, bits, n - 1));
    }
}

/// Drawing a layer counts as not found exactly the texture requests whose
/// lookup, made in turn, answers a fallback (`Err`): a request whose
/// texture is loaded when it is looked up adds nothing. Every texture
/// request counts as a sprite.
pub proof fn law_layer_not_found_counts_fallbacks(
    st: BookState,
    missing: Seq<TextureId>,
    bits: Seq<RenderBitKind>,
)
    ensures
        layer_counts(bits, fell_back_flags(st, missing, bits)).textures_not_found
            == count_fallbacks(st, missing, bits, bits.len() as int),
        layer_counts(bits, fell_back_flags(st, missing, bits)).textures == count_textures(
            bits,
            bits.len() as int,
        ),
        forall|i: int|
            0 <= i < bits.len() && (bits[i] matches RenderBitKind::Texture(t) && state_before(
                st,
                missing,
                bits,
                i,
            ).loaded.contains(t)) ==> !#[trigger] request_falls_back(st, missing, bits, i),
{
    let fb = fell_back_flags(st, missing, bits);
    lemma_flags_are_fallbacks(st, missing, bits);
    lemma_not_found_counts_flagged(bits, fb, bits.len() as int);
    lemma_flagged_counts_fallbacks(st, missing, bits, bits.len() as int);
    lemma_counts_bounded(bits, fb, bits.len() as int);
}

proof fn lemma_frame_bits_nonneg(layers: Seq<Seq<RenderBitKind>>)
    ensures
        frame_bits(layers) >= 0,
    decreases layers.len(),
{
    if layers.len() > 0 {
        lemma_frame_bits_nonneg(layers.skip(1));
    }
}

/// Lookups in turn only add to the loaded and pending lists, at their ends.
pub proof fn lemma_after_lookups_extends(st: BookState, missing: Seq<TextureId>, ids: Seq<TextureId>)
    ensures
        after_lookups(st, missing, ids).loaded.len() >= st.loaded.len(),
        after_lookups(st, missing, ids).loaded.take(st.loaded.len() as int) == st.loaded,
        after_lookups(st, missing, ids).pending.len() >= st.pending.len(),
        after_lookups(st, missing, ids).pending.take(st.pending.len() as int) == st.pending,
    decreases ids.len(),
{
    if ids.len() > 0 {
        let s1 = lookup_step(st, missing, ids[0]);
        lemma_lookup_extends(st, missing, ids[0]);
        lemma_after_lookups_extends(s1, missing, ids.skip(1));
        let f = after_lookups(s1, missing, ids.skip(1));
        assert(f.loaded.take(st.loaded.len() as int) =~= st.loaded) by {
            assert forall|j: int| 0 <= j < st.loaded.len() implies f.loaded[j] == st.loaded[j] by {
                assert(f.loaded.take(s1.loaded.len() as int)[j] == s1.loaded[j]);
                assert(s1.loaded.take(st.loaded.len() as int)[j] == st.loaded[j]);
            }
        }
        assert(f.pending.take(st.pending.len() as int) =~= st.pending) by {
            assert forall|j: int| 0 <= j < st.pending.len() implies f.pending[j] == st.pending[j] by {
                assert(f.pending.take(s1.pending.len() as int)[j] == s1.pending[j]);
                assert(s1.pending.take(st.pending.len() as int)[j] == st.pending[j]);
            }
        }
    }
}

proof fn lemma_used_facts(bits: Seq<RenderBitKind>, n: int)
    requires
        0 <= n <= bits.len(),
    ensures
        used_textures(bits, n).no_duplicates(),
        used_textures(bits, n).len() <= count_textures(bits, n),
    decreases n,
{
    if n > 0 {
        lemma_used_facts(bits, n - 1);
        let u = used_textures(bits, n - 1);
        if let RenderBitKind::Texture(t) = bits[n - 1] {
            if !u.contains(t) {
                let w = u.push(t);
                assert forall|a: int, b: int| 0 <= a < b < w.len() implies #[trigger] w[a]
                    != #[trigger] w[b] by {
                    if b == u.len() {
                        assert(w[a] == u[a]);
                    }
                }
            }
        }
    }
}

} // verus!
