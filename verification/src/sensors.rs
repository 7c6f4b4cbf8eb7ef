//! Change-tracked sensor state: each registered sensor carries a
//! `triggered` flag together with an edge detector. The `changed` flag
//! becomes true the moment `set_triggered` flips the value and stays true
//! until it is explicitly consumed, so that every genuine transition is
//! pushed to the register store exactly once.
use vstd::prelude::*;

verus! {

/// The change-tracked state of one sensor.
#[derive(Clone, Copy, Debug, PartialEq, Eq, Structural)]
pub struct SensorState {
    /// Whether the sensor currently sees its configured object kind.
    pub triggered: bool,
    /// The value `triggered` had before the most recent `set_triggered`.
    pub last_triggered: bool,
    /// Edge detector: true from the moment of a transition until consumed.
    pub changed: bool,
}

impl Default for SensorState {
    /// A freshly registered sensor: untriggered, with no pending edge.
    fn default() -> (r: SensorState)
        ensures
            r == (SensorState { triggered: false, last_triggered: false, changed: false }),
    {
        SensorState { triggered: false, last_triggered: false, changed: false }
    }
}

/// The state a sensor record takes when `set_triggered` stores `v`:
/// the old value shifts into `last_triggered` and the edge detector
/// records whether the value actually flipped.
pub open spec fn set_triggered_state(s: SensorState, v: bool) -> SensorState {
    SensorState { triggered: v, last_triggered: s.triggered, changed: v != s.triggered }
}

/// Repeating `set_triggered` with the same value is idempotent on the
/// edge detector: after storing `v` twice in a row the record shows no
/// pending transition, whatever the starting state was.
pub proof fn lemma_set_triggered_repeat(g: Map<Seq<char>, SensorState>, t: Seq<char>, v: bool)
    requires
        g.contains_key(t),
    ensures
        ({
            let g1 = g.insert(t, set_triggered_state(g[t], v));
            let g2 = g1.insert(t, set_triggered_state(g1[t], v));
            !g2[t].changed
        }),
{
}

/// Alternating values keep the edge detector set: storing `v` and then
/// `!v` leaves a pending transition after each of the two calls.
pub proof fn lemma_set_triggered_alternate(g: Map<Seq<char>, SensorState>, t: Seq<char>, v: bool)
    requires
        g.contains_key(t),
        g[t].triggered != v,
    ensures
        ({
            let g1 = g.insert(t, set_triggered_state(g[t], v));
            let g2 = g1.insert(t, set_triggered_state(g1[t], !v));
            g1[t].changed && g2[t].changed
        }),
{
}

/// A genuine transition is consumed exactly once: after `set_triggered`
/// flips the value, the first consume observes the transition and a
/// second immediate consume, with no `set_triggered` in between,
/// observes nothing.
pub proof fn lemma_transition_consumed_once(g: Map<Seq<char>, SensorState>, t: Seq<char>, v: bool)
    requires
        g.contains_key(t),
        g[t].triggered != v,
    ensures
        ({
            let g1 = g.insert(t, set_triggered_state(g[t], v));
            let g2 = g1.insert(t, (SensorState { changed: false, ..g1[t] }));
            g1[t].changed && !g2[t].changed
        }),
{
}

struct SensorEntry {
    tag: String,
    state: SensorState,
}

/// All registered sensors, keyed by their unique tag.
pub struct GlobalSensorState {
    states: Vec<SensorEntry>,
}

impl View for GlobalSensorState {
    type V = Map<Seq<char>, SensorState>;

    closed spec fn view(&self) -> Map<Seq<char>, SensorState> {
        tag_map(self.states@)
    }
}

spec fn tag_map(s: Seq<SensorEntry>) -> Map<Seq<char>, SensorState>
    decreases s.len(),
{
    if s.len() == 0 {
        Map::empty()
    } else {
        tag_map(s.drop_last()).insert(s.last().tag@, s.last().state)
    }
}

spec fn distinct_tags(s: Seq<SensorEntry>) -> bool {
    forall|i: int, j: int| 0 <= i < j < s.len() ==> #[trigger] s[i].tag@ != #[trigger] s[j].tag@
}

proof fn lemma_tag_map_dom(s: Seq<SensorEntry>, t: Seq<char>)
    ensures
        tag_map(s).contains_key(t) <==> exists|i: int| 0 <= i < s.len() && s[i].tag@ == t,
    decreases s.len(),
{
    if s.len() > 0 {
        lemma_tag_map_dom(s.drop_last(), t);
        if s.last().tag@ == t {
            assert(s[s.len() - 1].tag@ == t);
        } else if tag_map(s).contains_key(t) {
            let i = choose|i: int| 0 <= i < s.drop_last().len() && s.drop_last()[i].tag@ == t;
            assert(s[i].tag@ == t);
        } else if exists|i: int| 0 <= i < s.len() && s[i].tag@ == t {
            let i = choose|i: int| 0 <= i < s.len() && s[i].tag@ == t;
            assert(s.drop_last()[i].tag@ == t);
        }
    }
}

proof fn lemma_tag_map_index(s: Seq<SensorEntry>, i: int)
    requires
        distinct_tags(s),
        0 <= i < s.len(),
    ensures
        tag_map(s).contains_key(s[i].tag@),
        tag_map(s)[s[i].tag@] == s[i].state,
    decreases s.len(),
{
    lemma_tag_map_dom(s, s[i].tag@);
    if i < s.len() - 1 {
        assert(s.drop_last()[i] == s[i]);
        lemma_tag_map_index(s.drop_last(), i);
    }
}

proof fn lemma_tag_map_update(s: Seq<SensorEntry>, i: int, e: SensorEntry)
    requires
        distinct_tags(s),
        0 <= i < s.len(),
        e.tag@ == s[i].tag@,
    ensures
        distinct_tags(s.update(i, e)),
        tag_map(s.update(i, e)) == tag_map(s).insert(s[i].tag@, e.state),
    decreases s.len(),
{
    let t = s.update(i, e);
    assert(distinct_tags(t));
    if i == s.len() - 1 {
        assert(t.drop_last() =~= s.drop_last());
        assert(tag_map(t) =~= tag_map(s).insert(s[i].tag@, e.state));
    } else {
        assert(t.drop_last() =~= s.drop_last().update(i, e));
        lemma_tag_map_update(s.drop_last(), i, e);
        assert(tag_map(t) =~= tag_map(s).insert(s[i].tag@, e.state));
    }
}

spec fn changed_tags(s: Seq<SensorEntry>) -> Seq<Seq<char>>
    decreases s.len(),
{
    if s.len() == 0 {
        Seq::empty()
    } else if s.last().state.changed {
        changed_tags(s.drop_last()).push(s.last().tag@)
    } else {
        changed_tags(s.drop_last())
    }
}

proof fn lemma_changed_tags_sound(s: Seq<SensorEntry>, k: int)
    requires
        0 <= k < changed_tags(s).len(),
    ensures
        exists|j: int| 0 <= j < s.len() && changed_tags(s)[k] == #[trigger] s[j].tag@
            && s[j].state.changed,
    decreases s.len(),
{
    if s.len() > 0 {
        let rest = changed_tags(s.drop_last());
        if s.last().state.changed && k == changed_tags(s).len() - 1 {
            assert(changed_tags(s)[k] == s[s.len() - 1].tag@ && s[s.len() - 1].state.changed);
        } else {
            lemma_changed_tags_sound(s.drop_last(), k);
            let j = choose|j: int|
                0 <= j < s.drop_last().len() && rest[k] == #[trigger] s.drop_last()[j].tag@
                    && s.drop_last()[j].state.changed;
            assert(changed_tags(s)[k] == s[j].tag@ && s[j].state.changed);
        }
    }
}

proof fn lemma_changed_tags_complete(s: Seq<SensorEntry>, j: int)
    requires
        0 <= j < s.len(),
        s[j].state.changed,
    ensures
        exists|k: int| 0 <= k < changed_tags(s).len() && #[trigger] changed_tags(s)[k]
            == s[j].tag@,
    decreases s.len(),
{
    if j == s.len() - 1 {
        assert(changed_tags(s)[changed_tags(s).len() - 1] == s[j].tag@);
    } else {
        assert(s.drop_last()[j] == s[j]);
        lemma_changed_tags_complete(s.drop_last(), j);
        let k = choose|k: int|
            0 <= k < changed_tags(s.drop_last()).len() && #[trigger] changed_tags(s.drop_last())[k]
                == s.drop_last()[j].tag@;
        assert(changed_tags(s)[k] == s[j].tag@);
    }
}

proof fn lemma_changed_tags_distinct(s: Seq<SensorEntry>)
    requires
        distinct_tags(s),
    ensures
        forall|k: int, l: int| 0 <= k < l < changed_tags(s).len() ==> #[trigger] changed_tags(s)[k]
            != #[trigger] changed_tags(s)[l],
    decreases s.len(),
{
    if s.len() > 0 {
        assert(distinct_tags(s.drop_last()));
        lemma_changed_tags_distinct(s.drop_last());
        let ct = changed_tags(s);
        let rest = changed_tags(s.drop_last());
        assert forall|k: int, l: int| 0 <= k < l < ct.len() implies #[trigger] ct[k]
            != #[trigger] ct[l] by {
            if s.last().state.changed && l == ct.len() - 1 {
                lemma_changed_tags_sound(s.drop_last(), k);
                let j = choose|j: int|
                    0 <= j < s.drop_last().len() && rest[k] == #[trigger] s.drop_last()[j].tag@
                        && s.drop_last()[j].state.changed;
                assert(s[j].tag@ != s[s.len() - 1].tag@);
            }
        }
    }
}

broadcast proof fn lemma_tag_map_update_auto(s: Seq<SensorEntry>, i: int, e: SensorEntry)
    requires
        distinct_tags(s),
        0 <= i < s.len(),
        e.tag@ == s[i].tag@,
    ensures
        distinct_tags(s.update(i, e)),
        #[trigger] tag_map(s.update(i, e)) == tag_map(s).insert(s[i].tag@, e.state),
{
    lemma_tag_map_update(s, i, e);
}

impl GlobalSensorState {
    /// Internal invariant: no tag occurs twice in the record list.
    pub closed spec fn wf(&self) -> bool {
        distinct_tags(self.states@)
    }

    /// A registry with no sensors.
    pub fn new() -> (r: GlobalSensorState)
        ensures
            r.wf(),
            r@ == Map::<Seq<char>, SensorState>::empty(),
    {
        GlobalSensorState { states: Vec::new() }
    }

    fn find_tag(&self, tag: &str) -> (r: Option<usize>)
        ensures
            match r {
                Some(i) => i < self.states@.len() && self.states@[i as int].tag@ == tag@,
                None => forall|i: int| 0 <= i < self.states@.len() ==> self.states@[i].tag@ != tag@,
            },
    {
        let wanted: String = tag.to_owned();
        let n: usize = self.states.len();
        let mut i: usize = 0;
        while i < n
            invariant
                n == self.states@.len(),
                i <= n,
                wanted@ == tag@,
                forall|j: int| 0 <= j < i ==> self.states@[j].tag@ != tag@,
            decreases n - i,
        {
            if self.states[i].tag == wanted {
                return Some(i);
            }
            i = i + 1;
        }
        None
    }

    /// Registers or replaces the record under `sensor_tag`.
    pub fn add_sensor(&mut self, sensor_tag: String, state: SensorState)
        requires
            old(self).wf(),
        ensures
            final(self).wf(),
            final(self)@ == old(self)@.insert(sensor_tag@, state),
    {
        proof {
            lemma_tag_map_dom(self.states@, sensor_tag@);
        }
        match self.find_tag(sensor_tag.as_str()) {
            Some(i) => {
                let ghost pre = self.states@;
                self.states[i] = SensorEntry { tag: sensor_tag, state };
                proof {
                    lemma_tag_map_update(pre, i as int, self.states@[i as int]);
                }
            },
            None => {
                let ghost pre = self.states@;
                self.states.push(SensorEntry { tag: sensor_tag, state });
                proof {
                    assert(self.states@.drop_last() =~= pre);
                }
            },
        }
    }

    /// A mutable borrow of the record under `sensor_tag`, if that tag was
    /// ever registered; whatever the caller writes through it lands in the
    /// registry under the same tag.
    pub fn get_state_mut(&mut self, sensor_tag: &str) -> (r: Option<&mut SensorState>)
        requires
            old(self).wf(),
        ensures
            final(self).wf(),
            r is Some <==> old(self)@.contains_key(sensor_tag@),
            r matches Some(st) ==> *st == old(self)@[sensor_tag@] && final(self)@ == old(
                self,
            )@.insert(sensor_tag@, *final(st)),
            r is None ==> *final(self) == *old(self),
    {
        proof {
            lemma_tag_map_dom(self.states@, sensor_tag@);
        }
        match self.find_tag(sensor_tag) {
            Some(i) => {
                proof {
                    lemma_tag_map_index(self.states@, i as int);
                }
                broadcast use lemma_tag_map_update_auto;

                Some(&mut self.states[i].state)
            },
            None => None,
        }
    }

    /// The record under `sensor_tag`, if that tag was ever registered.
    pub fn get_state(&self, sensor_tag: &str) -> (r: Option<SensorState>)
        requires
            self.wf(),
        ensures
            match r {
                Some(st) => self@.contains_key(sensor_tag@) && st == self@[sensor_tag@],
                None => !self@.contains_key(sensor_tag@),
            },
    {
        proof {
            lemma_tag_map_dom(self.states@, sensor_tag@);
        }
        match self.find_tag(sensor_tag) {
            Some(i) => {
                proof {
                    lemma_tag_map_index(self.states@, i as int);
                }
                Some(self.states[i].state)
            },
            None => None,
        }
    }

    /// Whether the sensor is currently triggered; an unregistered tag
    /// counts as untriggered.
    pub fn is_triggered(&self, sensor_tag: &str) -> (r: bool)
        requires
            self.wf(),
        ensures
            r == (self@.contains_key(sensor_tag@) && self@[sensor_tag@].triggered),
    {
        match self.get_state(sensor_tag) {
            Some(st) => st.triggered,
            None => false,
        }
    }

    /// Whether the sensor has an unconsumed transition; an unregistered
    /// tag counts as unchanged.
    pub fn has_changed(&self, sensor_tag: &str) -> (r: bool)
        requires
            self.wf(),
        ensures
            r == (self@.contains_key(sensor_tag@) && self@[sensor_tag@].changed),
    {
        match self.get_state(sensor_tag) {
            Some(st) => st.changed,
            None => false,
        }
    }

    /// Stores a new `triggered` value: the old value shifts into
    /// `last_triggered` and `changed` records whether the value flipped.
    /// A tag that was never registered is silently ignored: the binding
    /// is established once at setup, so a miss is a collaborator wiring
    /// bug, not a runtime fault.
    pub fn set_triggered(&mut self, sensor_tag: &str, triggered: bool)
        requires
            old(self).wf(),
        ensures
            final(self).wf(),
            old(self)@.contains_key(sensor_tag@) ==> final(self)@ == old(self)@.insert(
                sensor_tag@,
                set_triggered_state(old(self)@[sensor_tag@], triggered),
            ),
            !old(self)@.contains_key(sensor_tag@) ==> final(self)@ == old(self)@,
    {
        proof {
            lemma_tag_map_dom(self.states@, sensor_tag@);
        }
        if let Some(i) = self.find_tag(sensor_tag) {
            proof {
                lemma_tag_map_index(self.states@, i as int);
            }
            let ghost pre = self.states@;
            let old_state = self.states[i].state;
            let new_state = SensorState {
                triggered,
                last_triggered: old_state.triggered,
                changed: triggered != old_state.triggered,
            };
            self.states[i].state = new_state;
            proof {
                lemma_tag_map_update(pre, i as int, self.states@[i as int]);
            }
        }
    }

    /// Clears the edge detector after the transition has been processed;
    /// an unregistered tag is silently ignored.
    pub fn clear_changed(&mut self, sensor_tag: &str)
        requires
            old(self).wf(),
        ensures
            final(self).wf(),
            old(self)@.contains_key(sensor_tag@) ==> final(self)@ == old(self)@.insert(
                sensor_tag@,
                (SensorState { changed: false, ..old(self)@[sensor_tag@] }),
            ),
            !old(self)@.contains_key(sensor_tag@) ==> final(self)@ == old(self)@,
    {
        proof {
            lemma_tag_map_dom(self.states@, sensor_tag@);
        }
        if let Some(i) = self.find_tag(sensor_tag) {
            proof {
                lemma_tag_map_index(self.states@, i as int);
            }
            let ghost pre = self.states@;
            let old_state = self.states[i].state;
            self.states[i].state = SensorState { changed: false, ..old_state };
            proof {
                lemma_tag_map_update(pre, i as int, self.states@[i as int]);
            }
        }
    }

    /// Returns the edge detector and clears it in the same step, so that
    /// a genuine transition is observed exactly once. An unregistered tag
    /// reports `false`.
    pub fn consume_changed(&mut self, sensor_tag: &str) -> (r: bool)
        requires
            old(self).wf(),
        ensures
            final(self).wf(),
            r == (old(self)@.contains_key(sensor_tag@) && old(self)@[sensor_tag@].changed),
            old(self)@.contains_key(sensor_tag@) ==> final(self)@ == old(self)@.insert(
                sensor_tag@,
                (SensorState { changed: false, ..old(self)@[sensor_tag@] }),
            ),
            !old(self)@.contains_key(sensor_tag@) ==> final(self)@ == old(self)@,
    {
        let was_changed = self.has_changed(sensor_tag);
        self.clear_changed(sensor_tag);
        was_changed
    }

    /// The tags of all sensors with an unconsumed transition: each such
    /// tag exactly once, and nothing else.
    pub fn get_changed_sensors(&self) -> (r: Vec<String>)
        requires
            self.wf(),
        ensures
            forall|i: int| 0 <= i < r@.len() ==> self@.contains_key(#[trigger] r@[i]@)
                && self@[r@[i]@].changed,
            forall|t: Seq<char>| self@.contains_key(t) && self@[t].changed ==> exists|i: int|
                0 <= i < r@.len() && #[trigger] r@[i]@ == t,
            forall|i: int, j: int| 0 <= i < j < r@.len() ==> #[trigger] r@[i]@ != #[trigger] r@[j]@,
    {
        let ghost all = self.states@;
        let ghost tag_of = |x: String| x@;
        let n: usize = self.states.len();
        let mut out: Vec<String> = Vec::new();
        let mut i: usize = 0;
        while i < n
            invariant
                self.wf(),
                all == self.states@,
                n == all.len(),
                i <= n,
                out@.map_values(tag_of) == changed_tags(all.take(i as int)),
                tag_of == (|x: String| x@),
            decreases n - i,
        {
            let ghost pre = out@;
            if self.states[i].state.changed {
                out.push(self.states[i].tag.clone());
            }
            proof {
                assert(all.take(i + 1).drop_last() =~= all.take(i as int));
                assert(all.take(i + 1).last() == all[i as int]);
                if all[i as int].state.changed {
                    assert(out@.map_values(tag_of) =~= pre.map_values(tag_of).push(
                        all[i as int].tag@,
                    ));
                } else {
                    assert(out@.map_values(tag_of) =~= pre.map_values(tag_of));
                }
            }
            i = i + 1;
        }
        proof {
            assert(all.take(n as int) =~= all);
            let ct = changed_tags(all);
            assert forall|k: int| 0 <= k < out@.len() implies self@.contains_key(
                #[trigger] out@[k]@,
            ) && self@[out@[k]@].changed by {
                assert(out@[k]@ == out@.map_values(tag_of)[k]);
                lemma_changed_tags_sound(all, k);
                let j = choose|j: int|
                    0 <= j < all.len() && ct[k] == #[trigger] all[j].tag@ && all[j].state.changed;
                lemma_tag_map_index(all, j);
            }
            assert forall|t: Seq<char>| self@.contains_key(t) && self@[t].changed implies exists|
                k: int,
            | 0 <= k < out@.len() && #[trigger] out@[k]@ == t by {
                lemma_tag_map_dom(all, t);
                let j = choose|j: int| 0 <= j < all.len() && #[trigger] all[j].tag@ == t;
                lemma_tag_map_index(all, j);
                lemma_changed_tags_complete(all, j);
                let k = choose|k: int|
                    0 <= k < ct.len() && #[trigger] ct[k] == all[j].tag@;
                assert(out@[k]@ == out@.map_values(tag_of)[k]);
                assert(out@[k]@ == t);
            }
            lemma_changed_tags_distinct(all);
            assert forall|k: int, l: int| 0 <= k < l < out@.len() implies #[trigger] out@[k]@
                != #[trigger] out@[l]@ by {
                assert(out@[k]@ == out@.map_values(tag_of)[k]);
                assert(out@[l]@ == out@.map_values(tag_of)[l]);
            }
        }
        out
    }
}

} // verus!
