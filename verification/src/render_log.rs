use vstd::prelude::*;
use vstd::std_specs::ops::AddSpec;
use vstd::std_specs::ops::SubSpec;

verus! {

/// Mathematical model of a [`RenderLog`]: one unbounded counter per field.
pub struct LogCounts {
    pub elements: int,
    pub textures: int,
    pub meshes: int,
    pub texts: int,
    pub draw_calls: int,
    pub textures_not_found: int,
}

impl LogCounts {
    pub open spec fn zero() -> LogCounts {
        LogCounts {
            elements: 0,
            textures: 0,
            meshes: 0,
            texts: 0,
            draw_calls: 0,
            textures_not_found: 0,
        }
    }

    /// Field-wise sum.
    pub open spec fn plus(self, o: LogCounts) -> LogCounts {
        LogCounts {
            elements: self.elements + o.elements,
            textures: self.textures + o.textures,
            meshes: self.meshes + o.meshes,
            texts: self.texts + o.texts,
            draw_calls: self.draw_calls + o.draw_calls,
            textures_not_found: self.textures_not_found + o.textures_not_found,
        }
    }

    /// Field-wise difference.
    pub open spec fn minus(self, o: LogCounts) -> LogCounts {
        LogCounts {
            elements: self.elements - o.elements,
            textures: self.textures - o.textures,
            meshes: self.meshes - o.meshes,
            texts: self.texts - o.texts,
            draw_calls: self.draw_calls - o.draw_calls,
            textures_not_found: self.textures_not_found - o.textures_not_found,
        }
    }

    /// Every counter is representable as an `i32`.
    pub open spec fn fits_i32(self) -> bool {
        &&& i32::MIN <= self.elements <= i32::MAX
        &&& i32::MIN <= self.textures <= i32::MAX
        &&& i32::MIN <= self.meshes <= i32::MAX
        &&& i32::MIN <= self.texts <= i32::MAX
        &&& i32::MIN <= self.draw_calls <= i32::MAX
        &&& i32::MIN <= self.textures_not_found <= i32::MAX
    }

    pub open spec fn after_draw_call(self) -> LogCounts {
        LogCounts { draw_calls: self.draw_calls + 1, ..self }
    }

    pub open spec fn after_texture(self) -> LogCounts {
        LogCounts { textures: self.textures + 1, elements: self.elements + 1, ..self }
    }

    pub open spec fn after_mesh(self) -> LogCounts {
        LogCounts { meshes: self.meshes + 1, elements: self.elements + 1, ..self }
    }

    pub open spec fn after_text(self) -> LogCounts {
        LogCounts { texts: self.texts + 1, elements: self.elements + 1, ..self }
    }

    pub open spec fn after_texture_not_found(self) -> LogCounts {
        LogCounts { textures_not_found: self.textures_not_found + 1, ..self }
    }

    /// The element counter is the sum of the textures, meshes and texts counters.
    pub open spec fn elements_consistent(self) -> bool {
        self.elements == self.textures + self.meshes + self.texts
    }
}

/// Statistics of one rendered frame: how many elements of each kind were
/// drawn, how many draw calls were issued and how many textures fell back
/// to a replacement because they were not loaded.
#[derive(Clone, Copy, Debug, PartialEq, Eq, Structural)]
pub struct RenderLog {
    elements: i32,
    textures: i32,
    meshes: i32,
    texts: i32,
    draw_calls: i32,
    textures_not_found: i32,
}

impl View for RenderLog {
    type V = LogCounts;

    closed spec fn view(&self) -> LogCounts {
        LogCounts {
            elements: self.elements as int,
            textures: self.textures as int,
            meshes: self.meshes as int,
            texts: self.texts as int,
            draw_calls: self.draw_calls as int,
            textures_not_found: self.textures_not_found as int,
        }
    }
}

impl RenderLog {
    /// The log whose counters are the given ones (each truncated to `i32`).
    pub closed spec fn from_counts(c: LogCounts) -> RenderLog {
        RenderLog {
            elements: c.elements as i32,
            textures: c.textures as i32,
            meshes: c.meshes as i32,
            texts: c.texts as i32,
            draw_calls: c.draw_calls as i32,
            textures_not_found: c.textures_not_found as i32,
        }
    }

    /// Counters that fit in `i32` are kept exactly by [`RenderLog::from_counts`].
    pub broadcast proof fn lemma_from_counts_view(c: LogCounts)
        requires
            c.fits_i32(),
        ensures
            (#[trigger] RenderLog::from_counts(c))@ == c,
    {
    }

    /// Two logs with the same counters are the same log.
    pub proof fn lemma_view_injective(a: RenderLog, b: RenderLog)
        requires
            a@ == b@,
        ensures
            a == b,
    {
    }

    /// An empty log: every counter is zero.
    pub fn new() -> (log: RenderLog)
        ensures
            log@ == LogCounts::zero(),
    {
        RenderLog {
            elements: 0,
            textures: 0,
            meshes: 0,
            texts: 0,
            draw_calls: 0,
            textures_not_found: 0,
        }
    }

    /// Records one draw call.
    pub fn on_draw_call(&mut self)
        requires
            old(self)@.draw_calls < i32::MAX,
        ensures
            final(self)@ == old(self)@.after_draw_call(),
    {
        self.draw_calls = self.draw_calls + 1;
    }

    /// Records one drawn texture, which is also one element.
    pub fn on_texture(&mut self)
        requires
            old(self)@.textures < i32::MAX,
            old(self)@.elements < i32::MAX,
        ensures
            final(self)@ == old(self)@.after_texture(),
    {
        self.textures = self.textures + 1;
        self.elements = self.elements + 1;
    }

    /// Records one drawn mesh, which is also one element.
    pub fn on_mesh(&mut self)
        requires
            old(self)@.meshes < i32::MAX,
            old(self)@.elements < i32::MAX,
        ensures
            final(self)@ == old(self)@.after_mesh(),
    {
        self.meshes = self.meshes + 1;
        self.elements = self.elements + 1;
    }

    /// Records one drawn text, which is also one element.
    pub fn on_text(&mut self)
        requires
            old(self)@.texts < i32::MAX,
            old(self)@.elements < i32::MAX,
        ensures
            final(self)@ == old(self)@.after_text(),
    {
        self.texts = self.texts + 1;
        self.elements = self.elements + 1;
    }

    /// Records one texture that was replaced by a fallback.
    pub fn on_texture_not_found(&mut self)
        requires
            old(self)@.textures_not_found < i32::MAX,
        ensures
            final(self)@ == old(self)@.after_texture_not_found(),
    {
        self.textures_not_found = self.textures_not_found + 1;
    }

    pub fn elements(&self) -> (n: i32)
        ensures
            n == self@.elements,
    {
        self.elements
    }

    pub fn textures(&self) -> (n: i32)
        ensures
            n == self@.textures,
    {
        self.textures
    }

    pub fn meshes(&self) -> (n: i32)
        ensures
            n == self@.meshes,
    {
        self.meshes
    }

    pub fn texts(&self) -> (n: i32)
        ensures
            n == self@.texts,
    {
        self.texts
    }

    pub fn draw_calls(&self) -> (n: i32)
        ensures
            n == self@.draw_calls,
    {
        self.draw_calls
    }

    pub fn textures_not_found(&self) -> (n: i32)
        ensures
            n == self@.textures_not_found,
    {
        self.textures_not_found
    }
}

impl core::ops::Add<RenderLog> for RenderLog {
    type Output = Self;

    fn add(self, other: Self) -> (r: Self) {
        RenderLog {
            elements: self.elements + other.elements,
            textures: self.textures + other.textures,
            meshes: self.meshes + other.meshes,
            texts: self.texts + other.texts,
            draw_calls: self.draw_calls + other.draw_calls,
            textures_not_found: self.textures_not_found + other.textures_not_found,
        }
    }
}

impl vstd::std_specs::ops::AddSpecImpl<RenderLog> for RenderLog {
    open spec fn obeys_add_spec() -> bool {
        true
    }

    open spec fn add_req(self, rhs: RenderLog) -> bool {
        self@.plus(rhs@).fits_i32()
    }

    open spec fn add_spec(self, rhs: RenderLog) -> RenderLog {
        RenderLog::from_counts(self@.plus(rhs@))
    }
}

impl core::ops::Sub<RenderLog> for RenderLog {
    type Output = Self;

    fn sub(self, other: Self) -> (r: Self) {
        RenderLog {
            elements: self.elements - other.elements,
            textures: self.textures - other.textures,
            meshes: self.meshes - other.meshes,
            texts: self.texts - other.texts,
            draw_calls: self.draw_calls - other.draw_calls,
            textures_not_found: self.textures_not_found - other.textures_not_found,
        }
    }
}

impl vstd::std_specs::ops::SubSpecImpl<RenderLog> for RenderLog {
    open spec fn obeys_sub_spec() -> bool {
        true
    }

    open spec fn sub_req(self, rhs: RenderLog) -> bool {
        self@.minus(rhs@).fits_i32()
    }

    open spec fn sub_spec(self, rhs: RenderLog) -> RenderLog {
        RenderLog::from_counts(self@.minus(rhs@))
    }
}

impl RenderLog {
    /// In-place sum: `self` becomes `self + other`.
    pub fn add_assign(&mut self, other: RenderLog)
        requires
            old(self)@.plus(other@).fits_i32(),
        ensures
            final(self)@ == old(self)@.plus(other@),
    {
        *self = *self + other;
    }

    /// In-place difference: `self` becomes `self - other`.
    pub fn sub_assign(&mut self, other: RenderLog)
        requires
            old(self)@.minus(other@).fits_i32(),
        ensures
            final(self)@ == old(self)@.minus(other@),
    {
        *self = *self - other;
    }
}

/// Subtracting what was just added gives back the original log:
/// `(a + b) - b == a` whenever `a + b` does not overflow.
pub proof fn law_add_then_sub(a: RenderLog, b: RenderLog)
    requires
        a@.plus(b@).fits_i32(),
    ensures
        a.add_spec(b).sub_req(b),
        a.add_spec(b).sub_spec(b) == a,
{
    RenderLog::lemma_from_counts_view(a@.plus(b@));
    RenderLog::lemma_from_counts_view(a@.plus(b@).minus(b@));
    assert(a@.plus(b@).minus(b@) == a@);
    RenderLog::lemma_view_injective(a.add_spec(b).sub_spec(b), a);
}

/// Adding a log and then subtracting it again, in place, restores the original:
/// `(a - b) + b == a` whenever `a - b` does not overflow.
pub proof fn law_sub_then_add(a: RenderLog, b: RenderLog)
    requires
        a@.minus(b@).fits_i32(),
    ensures
        a.sub_spec(b).add_req(b),
        a.sub_spec(b).add_spec(b) == a,
{
    RenderLog::lemma_from_counts_view(a@.minus(b@));
    RenderLog::lemma_from_counts_view(a@.minus(b@).plus(b@));
    assert(a@.minus(b@).plus(b@) == a@);
    RenderLog::lemma_view_injective(a.sub_spec(b).add_spec(b), a);
}

/// Summing logs does not depend on the order of the operands.
pub proof fn law_add_commutative(a: RenderLog, b: RenderLog)
    ensures
        a.add_req(b) == b.add_req(a),
        a.add_spec(b) == b.add_spec(a),
{
    assert(a@.plus(b@) == b@.plus(a@));
}

/// Summing logs can be regrouped freely.
pub proof fn law_add_associative(a: RenderLog, b: RenderLog, c: RenderLog)
    requires
        a@.plus(b@).fits_i32(),
        b@.plus(c@).fits_i32(),
        a@.plus(b@).plus(c@).fits_i32(),
    ensures
        a.add_spec(b).add_req(c),
        a.add_req(b.add_spec(c)),
        a.add_spec(b).add_spec(c) == a.add_spec(b.add_spec(c)),
{
    RenderLog::lemma_from_counts_view(a@.plus(b@));
    RenderLog::lemma_from_counts_view(b@.plus(c@));
    assert(a@.plus(b@).plus(c@) == a@.plus(b@.plus(c@)));
}

/// The empty log is neutral for the sum: `log + RenderLog::new() == log`.
pub proof fn law_empty_log_is_neutral(a: RenderLog, empty: RenderLog)
    requires
        empty@ == LogCounts::zero(),
    ensures
        a.add_req(empty),
        a.add_spec(empty) == a,
        a.sub_req(empty),
        a.sub_spec(empty) == a,
{
    assert(a@.plus(empty@) == a@);
    assert(a@.minus(empty@) == a@);
    RenderLog::lemma_from_counts_view(a@);
    RenderLog::lemma_view_injective(a.add_spec(empty), a);
    RenderLog::lemma_view_injective(a.sub_spec(empty), a);
}

/// Every recorded event keeps the element counter equal to the number of
/// textures, meshes and texts; the empty log starts that way, and sums and
/// differences of such logs stay that way.
pub proof fn law_elements_count_drawn_things(c: LogCounts, d: LogCounts)
    requires
        c.elements_consistent(),
        d.elements_consistent(),
    ensures
        LogCounts::zero().elements_consistent(),
        c.after_draw_call().elements_consistent(),
        c.after_texture().elements_consistent(),
        c.after_mesh().elements_consistent(),
        c.after_text().elements_consistent(),
        c.after_texture_not_found().elements_consistent(),
        c.plus(d).elements_consistent(),
        c.minus(d).elements_consistent(),
{
}

/// One recorded event of a render log.
pub enum LogEvent {
    DrawCall,
    Texture,
    Mesh,
    Text,
    TextureNotFound,
}

/// The counters after recording `events` in order, starting from `c`.
pub open spec fn after_events(c: LogCounts, events: Seq<LogEvent>) -> LogCounts
    decreases events.len(),
{
    if events.len() == 0 {
        c
    } else {
        let d = after_events(c, events.drop_last());
        match events.last() {
            LogEvent::DrawCall => d.after_draw_call(),
            LogEvent::Texture => d.after_texture(),
            LogEvent::Mesh => d.after_mesh(),
            LogEvent::Text => d.after_text(),
            LogEvent::TextureNotFound => d.after_texture_not_found(),
        }
    }
}

/// A log built from the empty log by any sequence of events has as many
/// elements as textures, meshes and texts; so has the sum or difference of
/// two such logs.
pub proof fn law_event_sequences_count_elements(a: Seq<LogEvent>, b: Seq<LogEvent>)
    ensures
        after_events(LogCounts::zero(), a).elements_consistent(),
        after_events(LogCounts::zero(), a).plus(after_events(LogCounts::zero(), b)).elements_consistent(),
        after_events(LogCounts::zero(), a).minus(after_events(LogCounts::zero(), b)).elements_consistent(),
{
    lemma_events_keep_consistent(LogCounts::zero(), a);
    lemma_events_keep_consistent(LogCounts::zero(), b);
}

proof fn lemma_events_keep_consistent(c: LogCounts, events: Seq<LogEvent>)
    requires
        c.elements_consistent(),
    ensures
        after_events(c, events).elements_consistent(),
    decreases events.len(),
{
    if events.len() > 0 {
        lemma_events_keep_consistent(c, events.drop_last());
    }
}

} // verus!
