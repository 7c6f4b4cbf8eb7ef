//! Synchronization bridge between the live equipment/sensor state and the
//! register store. Once per simulation tick the push pass exports local
//! state that changed since the previous tick, and the pull pass imports
//! external register writes back into the local state. Push runs before
//! pull so the bridge never re-imports a value it just exported.
use vstd::prelude::*;

use crate::equipment::{Conveyor, EquipmentState, ObjectKind, Sensor, Valve};
use crate::protocol::ModbusState;
use crate::sensors::{set_triggered_state, GlobalSensorState, SensorState};
use crate::store::RegisterBank;

verus! {

/// The map `m` with every provisioned address of `addrs` overwritten with
/// `v`; unprovisioned addresses of `addrs` are silently skipped and the
/// domain is unchanged.
pub open spec fn pushed<V>(m: Map<u16, V>, addrs: Seq<u16>, v: V) -> Map<u16, V> {
    Map::new(
        |a: u16| m.contains_key(a),
        |a: u16|
            if addrs.contains(a) {
                v
            } else {
                m[a]
            },
    )
}

/// The value the pull pass adopts: scanning `addrs` front to back, the
/// first provisioned register whose value differs from `cur` wins and the
/// rest of the scan is skipped; if none differs the current value stays.
pub open spec fn pulled<V>(m: Map<u16, V>, addrs: Seq<u16>, cur: V) -> V
    decreases addrs.len(),
{
    if addrs.len() == 0 {
        cur
    } else if m.contains_key(addrs.first()) && m[addrs.first()] != cur {
        m[addrs.first()]
    } else {
        pulled(m, addrs.drop_first(), cur)
    }
}

fn push_all<V: Copy>(bank: &mut RegisterBank<V>, addrs: &Vec<u16>, v: V)
    requires
        old(bank).wf(),
    ensures
        final(bank).wf(),
        final(bank)@ == pushed(old(bank)@, addrs@, v),
{
    let n: usize = addrs.len();
    let mut i: usize = 0;
    while i < n
        invariant
            bank.wf(),
            i <= n,
            n == addrs@.len(),
            bank@.dom() == old(bank)@.dom(),
            forall|a: u16| bank@.contains_key(a) ==> #[trigger] bank@[a] == (
                if addrs@.take(i as int).contains(a) {
                    v
                } else {
                    old(bank)@[a]
                }
            ),
        decreases n - i,
    {
        let ghost prefix = addrs@.take(i as int);
        bank.set_if_provisioned(addrs[i], v);
        proof {
            assert(addrs@.take(i + 1) =~= prefix.push(addrs@[i as int]));
            assert forall|a: u16| bank@.contains_key(a) implies #[trigger] bank@[a] == (
                if addrs@.take(i + 1).contains(a) {
                    v
                } else {
                    old(bank)@[a]
                }
            ) by {
                if addrs@.take(i + 1).contains(a) {
                    let j = choose|j: int|
                        0 <= j < i + 1 && #[trigger] addrs@.take(i + 1)[j] == a;
                    if j < i {
                        assert(prefix[j] == a);
                        assert(prefix.contains(a));
                    }
                } else {
                    assert(!prefix.contains(a)) by {
                        if prefix.contains(a) {
                            let j = choose|j: int| 0 <= j < prefix.len() && prefix[j] == a;
                            assert(addrs@.take(i + 1)[j] == a);
                        }
                    }
                    assert(a != addrs@[i as int]) by {
                        if a == addrs@[i as int] {
                            assert(addrs@.take(i + 1)[i as int] == a);
                        }
                    }
                }
            }
        }
        i = i + 1;
    }
    proof {
        assert(addrs@.take(n as int) =~= addrs@);
        assert(bank@ =~= pushed(old(bank)@, addrs@, v));
    }
}

fn pull_first_diff_bool(bank: &RegisterBank<bool>, addrs: &Vec<u16>, cur: bool) -> (r: bool)
    requires
        bank.wf(),
    ensures
        r == pulled(bank@, addrs@, cur),
{
    let n: usize = addrs.len();
    let mut i: usize = 0;
    let mut result: bool = cur;
    let mut found: bool = false;
    proof {
        assert(addrs@.skip(0) =~= addrs@);
    }
    while i < n
        invariant
            bank.wf(),
            i <= n,
            n == addrs@.len(),
            found ==> pulled(bank@, addrs@, cur) == result,
            !found ==> result == cur && pulled(bank@, addrs@, cur) == pulled(
                bank@,
                addrs@.skip(i as int),
                cur,
            ),
        decreases n - i,
    {
        if !found {
            proof {
                assert(addrs@.skip(i as int).first() == addrs@[i as int]);
                assert(addrs@.skip(i as int).drop_first() =~= addrs@.skip(i + 1));
            }
            match bank.get(addrs[i]) {
                Some(v) => {
                    if v != cur {
                        result = v;
                        found = true;
                    }
                },
                None => {},
            }
        }
        i = i + 1;
    }
    proof {
        if !found {
            assert(addrs@.skip(n as int) =~= Seq::<u16>::empty());
        }
    }
    result
}

fn pull_first_diff_word(bank: &RegisterBank<u16>, addrs: &Vec<u16>, cur: u16) -> (r: u16)
    requires
        bank.wf(),
    ensures
        r == pulled(bank@, addrs@, cur),
{
    let n: usize = addrs.len();
    let mut i: usize = 0;
    let mut result: u16 = cur;
    let mut found: bool = false;
    proof {
        assert(addrs@.skip(0) =~= addrs@);
    }
    while i < n
        invariant
            bank.wf(),
            i <= n,
            n == addrs@.len(),
            found ==> pulled(bank@, addrs@, cur) == result,
            !found ==> result == cur && pulled(bank@, addrs@, cur) == pulled(
                bank@,
                addrs@.skip(i as int),
                cur,
            ),
        decreases n - i,
    {
        if !found {
            proof {
                assert(addrs@.skip(i as int).first() == addrs@[i as int]);
                assert(addrs@.skip(i as int).drop_first() =~= addrs@.skip(i + 1));
            }
            match bank.get(addrs[i]) {
                Some(v) => {
                    if v != cur {
                        result = v;
                        found = true;
                    }
                },
                None => {},
            }
        }
        i = i + 1;
    }
    proof {
        if !found {
            assert(addrs@.skip(n as int) =~= Seq::<u16>::empty());
        }
    }
    result
}

fn conveyor_coil_addrs(conveyors: &Vec<Conveyor>) -> (r: Vec<u16>)
    ensures
        r@ == conveyors@.map_values(|c: Conveyor| c.coil_address),
{
    let n: usize = conveyors.len();
    let mut out: Vec<u16> = Vec::new();
    let mut i: usize = 0;
    while i < n
        invariant
            i <= n,
            n == conveyors@.len(),
            out@ == conveyors@.take(i as int).map_values(|c: Conveyor| c.coil_address),
        decreases n - i,
    {
        out.push(conveyors[i].coil_address);
        proof {
            assert(out@ =~= conveyors@.take(i + 1).map_values(|c: Conveyor| c.coil_address));
        }
        i = i + 1;
    }
    proof {
        assert(conveyors@.take(n as int) =~= conveyors@);
    }
    out
}

fn conveyor_holding_addrs(conveyors: &Vec<Conveyor>) -> (r: Vec<u16>)
    ensures
        r@ == conveyors@.map_values(|c: Conveyor| c.holding_address),
{
    let n: usize = conveyors.len();
    let mut out: Vec<u16> = Vec::new();
    let mut i: usize = 0;
    while i < n
        invariant
            i <= n,
            n == conveyors@.len(),
            out@ == conveyors@.take(i as int).map_values(|c: Conveyor| c.holding_address),
        decreases n - i,
    {
        out.push(conveyors[i].holding_address);
        proof {
            assert(out@ =~= conveyors@.take(i + 1).map_values(|c: Conveyor| c.holding_address));
        }
        i = i + 1;
    }
    proof {
        assert(conveyors@.take(n as int) =~= conveyors@);
    }
    out
}

fn valve_coil_addrs(valves: &Vec<Valve>) -> (r: Vec<u16>)
    ensures
        r@ == valves@.map_values(|v: Valve| v.coil_address),
{
    let n: usize = valves.len();
    let mut out: Vec<u16> = Vec::new();
    let mut i: usize = 0;
    while i < n
        invariant
            i <= n,
            n == valves@.len(),
            out@ == valves@.take(i as int).map_values(|v: Valve| v.coil_address),
        decreases n - i,
    {
        out.push(valves[i].coil_address);
        proof {
            assert(out@ =~= valves@.take(i + 1).map_values(|v: Valve| v.coil_address));
        }
        i = i + 1;
    }
    proof {
        assert(valves@.take(n as int) =~= valves@);
    }
    out
}

fn valve_holding_addrs(valves: &Vec<Valve>) -> (r: Vec<u16>)
    ensures
        r@ == valves@.map_values(|v: Valve| v.holding_address),
{
    let n: usize = valves.len();
    let mut out: Vec<u16> = Vec::new();
    let mut i: usize = 0;
    while i < n
        invariant
            i <= n,
            n == valves@.len(),
            out@ == valves@.take(i as int).map_values(|v: Valve| v.holding_address),
        decreases n - i,
    {
        out.push(valves[i].holding_address);
        proof {
            assert(out@ =~= valves@.take(i + 1).map_values(|v: Valve| v.holding_address));
        }
        i = i + 1;
    }
    proof {
        assert(valves@.take(n as int) =~= valves@);
    }
    out
}

/// The discrete-input addresses the sensors own, in configuration order.
pub open spec fn sensor_addrs(sensors: Seq<Sensor>) -> Seq<u16> {
    sensors.map_values(|s: Sensor| s.modbus_address)
}

/// The tags of the sensors, in configuration order.
pub open spec fn sensor_tags(sensors: Seq<Sensor>) -> Seq<Seq<char>> {
    sensors.map_values(|s: Sensor| s.sensor_tag@)
}

/// No two sensors of the list own the same discrete-input address.
pub open spec fn distinct_sensor_addrs(sensors: Seq<Sensor>) -> bool {
    forall|i: int, j: int| 0 <= i < j < sensors.len()
        ==> #[trigger] sensors[i].modbus_address != #[trigger] sensors[j].modbus_address
}

/// No two sensors of the list carry the same tag.
pub open spec fn distinct_sensor_tags(sensors: Seq<Sensor>) -> bool {
    forall|i: int, j: int| 0 <= i < j < sensors.len()
        ==> #[trigger] sensors[i].sensor_tag@ != #[trigger] sensors[j].sensor_tag@
}

/// The discrete-input bank after sensor registration: every sensor
/// address provisioned with the initial untriggered value, everything
/// else untouched.
pub open spec fn registered_inputs(m: Map<u16, bool>, addrs: Seq<u16>) -> Map<u16, bool> {
    Map::new(
        |a: u16| m.contains_key(a) || addrs.contains(a),
        |a: u16|
            if addrs.contains(a) {
                false
            } else {
                m[a]
            },
    )
}

/// The sensor registry after registration: every tag of the list mapped
/// to the default record, everything else untouched.
pub open spec fn registered_sensors(
    g: Map<Seq<char>, SensorState>,
    tags: Seq<Seq<char>>,
) -> Map<Seq<char>, SensorState> {
    Map::new(
        |t: Seq<char>| g.contains_key(t) || tags.contains(t),
        |t: Seq<char>|
            if tags.contains(t) {
                SensorState { triggered: false, last_triggered: false, changed: false }
            } else {
                g[t]
            },
    )
}

/// Registers each configured sensor: its record enters the registry in
/// the untriggered default state, and its discrete-input address is
/// provisioned with the matching initial value.
pub fn register_sensors(
    sensors: &Vec<Sensor>,
    global_state: &mut GlobalSensorState,
    modbus_state: &mut ModbusState,
)
    requires
        old(global_state).wf(),
        old(modbus_state).wf(),
        forall|i: int, j: int| 0 <= i < j < sensors@.len()
            ==> #[trigger] sensors@[i].modbus_address != #[trigger] sensors@[j].modbus_address,
        forall|i: int| 0 <= i < sensors@.len() ==> !old(
            modbus_state,
        ).discrete_inputs@.contains_key(#[trigger] sensors@[i].modbus_address),
    ensures
        final(global_state).wf(),
        final(modbus_state).wf(),
        final(modbus_state).coils@ == old(modbus_state).coils@,
        final(modbus_state).input_registers@ == old(modbus_state).input_registers@,
        final(modbus_state).holding_registers@ == old(modbus_state).holding_registers@,
        final(modbus_state).discrete_inputs@ == registered_inputs(
            old(modbus_state).discrete_inputs@,
            sensor_addrs(sensors@),
        ),
        final(global_state)@ == registered_sensors(old(global_state)@, sensor_tags(sensors@)),
{
    let n: usize = sensors.len();
    let mut i: usize = 0;
    while i < n
        invariant
            global_state.wf(),
            modbus_state.wf(),
            i <= n,
            n == sensors@.len(),
            forall|k: int, j: int| 0 <= k < j < sensors@.len()
                ==> #[trigger] sensors@[k].modbus_address != #[trigger] sensors@[j].modbus_address,
            forall|k: int| 0 <= k < sensors@.len() ==> !old(
                modbus_state,
            ).discrete_inputs@.contains_key(#[trigger] sensors@[k].modbus_address),
            modbus_state.coils@ == old(modbus_state).coils@,
            modbus_state.input_registers@ == old(modbus_state).input_registers@,
            modbus_state.holding_registers@ == old(modbus_state).holding_registers@,
            modbus_state.discrete_inputs@ == registered_inputs(
                old(modbus_state).discrete_inputs@,
                sensor_addrs(sensors@).take(i as int),
            ),
            global_state@ == registered_sensors(
                old(global_state)@,
                sensor_tags(sensors@).take(i as int),
            ),
        decreases n - i,
    {
        let ghost addr_prefix = sensor_addrs(sensors@).take(i as int);
        let ghost tag_prefix = sensor_tags(sensors@).take(i as int);
        let addr = sensors[i].modbus_address;
        proof {
            assert(!addr_prefix.contains(addr)) by {
                if addr_prefix.contains(addr) {
                    let j = choose|j: int|
                        0 <= j < addr_prefix.len() && #[trigger] addr_prefix[j] == addr;
                    assert(sensors@[j].modbus_address == addr);
                }
            }
        }
        modbus_state.discrete_inputs.provision(addr, false);
        global_state.add_sensor(
            sensors[i].sensor_tag.clone(),
            SensorState { triggered: false, last_triggered: false, changed: false },
        );
        proof {
            assert(sensor_addrs(sensors@).take(i + 1) =~= addr_prefix.push(addr));
            assert(sensor_tags(sensors@).take(i + 1) =~= tag_prefix.push(
                sensors@[i as int].sensor_tag@,
            ));
            assert(modbus_state.discrete_inputs@ =~= registered_inputs(
                old(modbus_state).discrete_inputs@,
                sensor_addrs(sensors@).take(i + 1),
            )) by {
                assert forall|a: u16|
                    #[trigger] sensor_addrs(sensors@).take(i + 1).contains(a) && a != addr
                        implies addr_prefix.contains(a) by {
                    let j = choose|j: int|
                        0 <= j < i + 1 && #[trigger] sensor_addrs(sensors@).take(i + 1)[j] == a;
                    assert(j < i);
                    assert(addr_prefix[j] == a);
                }
                assert(addr_prefix.push(addr).contains(addr)) by {
                    assert(addr_prefix.push(addr)[addr_prefix.len() as int] == addr);
                }
                assert forall|a: u16| #[trigger] addr_prefix.contains(a) implies sensor_addrs(
                    sensors@,
                ).take(i + 1).contains(a) by {
                    let j = choose|j: int|
                        0 <= j < addr_prefix.len() && #[trigger] addr_prefix[j] == a;
                    assert(sensor_addrs(sensors@).take(i + 1)[j] == a);
                }
            }
            assert(global_state@ =~= registered_sensors(
                old(global_state)@,
                sensor_tags(sensors@).take(i + 1),
            )) by {
                let tag = sensors@[i as int].sensor_tag@;
                assert forall|t: Seq<char>|
                    #[trigger] sensor_tags(sensors@).take(i + 1).contains(t) && t != tag
                        implies tag_prefix.contains(t) by {
                    let j = choose|j: int|
                        0 <= j < i + 1 && #[trigger] sensor_tags(sensors@).take(i + 1)[j] == t;
                    assert(j < i);
                    assert(tag_prefix[j] == t);
                }
                assert(tag_prefix.push(tag).contains(tag)) by {
                    assert(tag_prefix.push(tag)[tag_prefix.len() as int] == tag);
                }
                assert forall|t: Seq<char>| #[trigger] tag_prefix.contains(t) implies sensor_tags(
                    sensors@,
                ).take(i + 1).contains(t) by {
                    let j = choose|j: int|
                        0 <= j < tag_prefix.len() && #[trigger] tag_prefix[j] == t;
                    assert(sensor_tags(sensors@).take(i + 1)[j] == t);
                }
            }
        }
        i = i + 1;
    }
    proof {
        assert(sensor_addrs(sensors@).take(n as int) =~= sensor_addrs(sensors@));
        assert(sensor_tags(sensors@).take(n as int) =~= sensor_tags(sensors@));
    }
}

/// Whether sensor `s` pushes a value to discrete-input address `a` under
/// registry snapshot `g`: the sensor owns `a` and its record has an
/// unconsumed transition.
pub open spec fn pushes_to(s: Sensor, g: Map<Seq<char>, SensorState>, a: u16) -> bool {
    &&& s.modbus_address == a
    &&& g.contains_key(s.sensor_tag@)
    &&& g[s.sensor_tag@].changed
}

/// The discrete-input bank after the sensor push pass: every provisioned
/// address owned by a sensor with an unconsumed transition takes that
/// sensor's triggered flag, everything else is untouched.
pub open spec fn sensors_pushed(
    d: Map<u16, bool>,
    sensors: Seq<Sensor>,
    g: Map<Seq<char>, SensorState>,
) -> Map<u16, bool> {
    Map::new(
        |a: u16| d.contains_key(a),
        |a: u16|
            if exists|i: int| 0 <= i < sensors.len() && #[trigger] pushes_to(sensors[i], g, a) {
                g[sensors[choose|i: int|
                    0 <= i < sensors.len() && #[trigger] pushes_to(
                        sensors[i],
                        g,
                        a,
                    )].sensor_tag@].triggered
            } else {
                d[a]
            },
    )
}

/// The sensor registry after the push pass: the edge detector of every
/// changed record whose tag is bound to a sensor is consumed, everything
/// else is untouched.
pub open spec fn consumed(
    g: Map<Seq<char>, SensorState>,
    tags: Seq<Seq<char>>,
) -> Map<Seq<char>, SensorState> {
    Map::new(
        |t: Seq<char>| g.contains_key(t),
        |t: Seq<char>|
            if g[t].changed && tags.contains(t) {
                SensorState { changed: false, ..g[t] }
            } else {
                g[t]
            },
    )
}

proof fn lemma_sensors_pushed_value(
    d: Map<u16, bool>,
    sensors: Seq<Sensor>,
    g: Map<Seq<char>, SensorState>,
    a: u16,
    j: int,
)
    requires
        distinct_sensor_addrs(sensors),
        0 <= j < sensors.len(),
        pushes_to(sensors[j], g, a),
        d.contains_key(a),
    ensures
        sensors_pushed(d, sensors, g)[a] == g[sensors[j].sensor_tag@].triggered,
{
    let k = choose|i: int| 0 <= i < sensors.len() && #[trigger] pushes_to(sensors[i], g, a);
    assert(sensors[k].modbus_address == a && sensors[j].modbus_address == a);
    if k != j {
        assert(false);
    }
}

proof fn lemma_sensors_pushed_none(
    d: Map<u16, bool>,
    sensors: Seq<Sensor>,
    g: Map<Seq<char>, SensorState>,
    a: u16,
)
    requires
        d.contains_key(a),
        forall|i: int| 0 <= i < sensors.len() ==> !pushes_to(#[trigger] sensors[i], g, a),
    ensures
        sensors_pushed(d, sensors, g)[a] == d[a],
{
}

/// Sensor push pass: for each configured sensor whose record has an
/// unconsumed transition, writes the triggered flag to the sensor's
/// discrete-input address (skipping an unprovisioned address as a wiring
/// error) and consumes the transition, so that a second pass without a
/// new transition writes nothing.
pub fn sync_sensors_to_modbus(
    sensors: &Vec<Sensor>,
    global_state: &mut GlobalSensorState,
    modbus_state: &mut ModbusState,
)
    requires
        old(global_state).wf(),
        old(modbus_state).wf(),
        distinct_sensor_addrs(sensors@),
        distinct_sensor_tags(sensors@),
    ensures
        final(global_state).wf(),
        final(modbus_state).wf(),
        final(modbus_state).coils@ == old(modbus_state).coils@,
        final(modbus_state).input_registers@ == old(modbus_state).input_registers@,
        final(modbus_state).holding_registers@ == old(modbus_state).holding_registers@,
        final(modbus_state).discrete_inputs@ == sensors_pushed(
            old(modbus_state).discrete_inputs@,
            sensors@,
            old(global_state)@,
        ),
        final(global_state)@ == consumed(old(global_state)@, sensor_tags(sensors@)),
{
    let ghost g0 = old(global_state)@;
    let ghost d0 = old(modbus_state).discrete_inputs@;
    let n: usize = sensors.len();
    let mut i: usize = 0;
    while i < n
        invariant
            global_state.wf(),
            modbus_state.wf(),
            i <= n,
            n == sensors@.len(),
            distinct_sensor_addrs(sensors@),
            distinct_sensor_tags(sensors@),
            g0 == old(global_state)@,
            d0 == old(modbus_state).discrete_inputs@,
            modbus_state.coils@ == old(modbus_state).coils@,
            modbus_state.input_registers@ == old(modbus_state).input_registers@,
            modbus_state.holding_registers@ == old(modbus_state).holding_registers@,
            modbus_state.discrete_inputs@ == sensors_pushed(d0, sensors@.take(i as int), g0),
            global_state@ == consumed(g0, sensor_tags(sensors@).take(i as int)),
        decreases n - i,
    {
        let ghost s0 = sensors@.take(i as int);
        let ghost s1 = sensors@.take(i + 1);
        let ghost tags0 = sensor_tags(sensors@).take(i as int);
        let ghost tags1 = sensor_tags(sensors@).take(i + 1);
        let ghost tag_i = sensors@[i as int].sensor_tag@;
        let ghost addr_i = sensors@[i as int].modbus_address;
        let ghost pre_d = modbus_state.discrete_inputs@;
        let ghost pre_g = global_state@;
        proof {
            assert(s1 =~= s0.push(sensors@[i as int]));
            assert(tags1 =~= tags0.push(tag_i));
            assert(!tags0.contains(tag_i)) by {
                if tags0.contains(tag_i) {
                    let j = choose|j: int| 0 <= j < tags0.len() && #[trigger] tags0[j] == tag_i;
                    assert(sensors@[j].sensor_tag@ == tag_i);
                }
            }
        }
        let has = global_state.has_changed(sensors[i].sensor_tag.as_str());
        proof {
            assert(has == (g0.contains_key(tag_i) && g0[tag_i].changed));
        }
        if has {
            let trig = global_state.is_triggered(sensors[i].sensor_tag.as_str());
            proof {
                assert(trig == g0[tag_i].triggered);
            }
            modbus_state.discrete_inputs.set_if_provisioned(sensors[i].modbus_address, trig);
            global_state.clear_changed(sensors[i].sensor_tag.as_str());
        }
        proof {
            assert(modbus_state.discrete_inputs@ =~= sensors_pushed(d0, s1, g0)) by {
                assert forall|a: u16| d0.contains_key(a) implies modbus_state.discrete_inputs@[a]
                    == sensors_pushed(d0, s1, g0)[a] by {
                    if a == addr_i && has {
                        assert(pushes_to(s1[i as int], g0, a));
                        lemma_sensors_pushed_value(d0, s1, g0, a, i as int);
                        assert(modbus_state.discrete_inputs@[a] == g0[tag_i].triggered);
                    } else {
                        assert(modbus_state.discrete_inputs@[a] == pre_d[a]);
                        assert(!pushes_to(s1[i as int], g0, a));
                        if exists|k: int| 0 <= k < s0.len() && #[trigger] pushes_to(
                            s0[k],
                            g0,
                            a,
                        ) {
                            let k = choose|k: int|
                                0 <= k < s0.len() && #[trigger] pushes_to(s0[k], g0, a);
                            lemma_sensors_pushed_value(d0, s0, g0, a, k);
                            assert(pushes_to(s1[k], g0, a));
                            lemma_sensors_pushed_value(d0, s1, g0, a, k);
                        } else {
                            assert(forall|k: int| 0 <= k < s0.len() ==> !pushes_to(
                                #[trigger] s0[k],
                                g0,
                                a,
                            ));
                            lemma_sensors_pushed_none(d0, s0, g0, a);
                            assert forall|k: int| 0 <= k < s1.len() implies !pushes_to(
                                #[trigger] s1[k],
                                g0,
                                a,
                            ) by {
                                if k < i {
                                    assert(s1[k] == s0[k]);
                                }
                            }
                            lemma_sensors_pushed_none(d0, s1, g0, a);
                        }
                    }
                }
            }
            assert(global_state@ =~= consumed(g0, tags1)) by {
                assert(tags1.contains(tag_i)) by {
                    assert(tags1[tags0.len() as int] == tag_i);
                }
                assert forall|t: Seq<char>| g0.contains_key(t) implies global_state@[t] == consumed(
                    g0,
                    tags1,
                )[t] by {
                    if t == tag_i {
                        if has {
                            assert(global_state@[t] == (SensorState { changed: false, ..g0[t] }));
                        }
                    } else {
                        assert(global_state@[t] == pre_g[t]);
                        assert(tags1.contains(t) == tags0.contains(t)) by {
                            if tags1.contains(t) {
                                let j = choose|j: int|
                                    0 <= j < tags1.len() && #[trigger] tags1[j] == t;
                                assert(j < i);
                                assert(tags0[j] == t);
                            }
                            if tags0.contains(t) {
                                let j = choose|j: int|
                                    0 <= j < tags0.len() && #[trigger] tags0[j] == t;
                                assert(tags1[j] == t);
                            }
                        }
                    }
                }
            }
        }
        i = i + 1;
    }
    proof {
        assert(sensors@.take(n as int) =~= sensors@);
        assert(sensor_tags(sensors@).take(n as int) =~= sensor_tags(sensors@));
    }
}

/// A proximity event the simulation raises when an object enters or
/// leaves a sensor zone: which sensor, what kind of object, and whether
/// the contact started or stopped.
pub struct SensorEvent {
    /// Tag of the sensor whose zone the object touched.
    pub sensor_tag: String,
    /// The kind of the object that touched the zone.
    pub object: ObjectKind,
    /// True when the contact started, false when it stopped.
    pub started: bool,
}

/// The effect of one proximity event on the sensor registry and the two
/// equipment states. An event only acts when some configured sensor
/// carries the event's tag and is configured for the event's object kind;
/// it then records the new triggered value, and on a starting contact
/// applies the domain rule: a bottle at a sensor stops the conveyor and
/// opens the valve, a ball at a sensor closes the valve and restarts the
/// conveyor.
pub open spec fn feedback_step(
    g: Map<Seq<char>, SensorState>,
    cs: EquipmentState,
    vs: EquipmentState,
    sensors: Seq<Sensor>,
    e: SensorEvent,
) -> (Map<Seq<char>, SensorState>, EquipmentState, EquipmentState) {
    let matched = exists|i: int|
        0 <= i < sensors.len() && #[trigger] sensors[i].sensor_tag@ == e.sensor_tag@
            && sensors[i].sensor_item == e.object;
    if matched {
        let g1 = if g.contains_key(e.sensor_tag@) {
            g.insert(e.sensor_tag@, set_triggered_state(g[e.sensor_tag@], e.started))
        } else {
            g
        };
        if e.started {
            match e.object {
                ObjectKind::Bottle => (
                    g1,
                    EquipmentState { active: false, dirty: true, ..cs },
                    EquipmentState { active: true, dirty: true, ..vs },
                ),
                ObjectKind::Ball => (
                    g1,
                    EquipmentState { active: true, dirty: true, ..cs },
                    EquipmentState { active: false, dirty: true, ..vs },
                ),
            }
        } else {
            (g1, cs, vs)
        }
    } else {
        (g, cs, vs)
    }
}

/// The effect of a sequence of proximity events, applied in order.
pub open spec fn feedback_run(
    g: Map<Seq<char>, SensorState>,
    cs: EquipmentState,
    vs: EquipmentState,
    sensors: Seq<Sensor>,
    events: Seq<SensorEvent>,
) -> (Map<Seq<char>, SensorState>, EquipmentState, EquipmentState)
    decreases events.len(),
{
    if events.len() == 0 {
        (g, cs, vs)
    } else {
        let p = feedback_run(g, cs, vs, sensors, events.drop_last());
        feedback_step(p.0, p.1, p.2, sensors, events.last())
    }
}

fn find_sensor(sensors: &Vec<Sensor>, tag: &str) -> (r: Option<usize>)
    ensures
        match r {
            Some(i) => i < sensors@.len() && sensors@[i as int].sensor_tag@ == tag@,
            None => forall|i: int| 0 <= i < sensors@.len() ==> sensors@[i].sensor_tag@ != tag@,
        },
{
    let wanted: String = tag.to_owned();
    let n: usize = sensors.len();
    let mut i: usize = 0;
    while i < n
        invariant
            n == sensors@.len(),
            i <= n,
            wanted@ == tag@,
            forall|j: int| 0 <= j < i ==> sensors@[j].sensor_tag@ != tag@,
        decreases n - i,
    {
        if sensors[i].sensor_tag == wanted {
            return Some(i);
        }
        i = i + 1;
    }
    None
}

/// Applies a batch of proximity events raised during one tick: each event
/// naming a configured sensor of the matching object kind records the new
/// triggered value in the registry, and a starting contact toggles the
/// equipment by the domain rule (bottle: conveyor stops, valve opens;
/// ball: valve closes, conveyor restarts). Events naming no configured
/// sensor, or a sensor of another kind, are ignored.
pub fn handle_sensor_feedback_prefiltered(
    events: &Vec<SensorEvent>,
    sensors: &Vec<Sensor>,
    global_state: &mut GlobalSensorState,
    conveyor_state: &mut EquipmentState,
    valve_state: &mut EquipmentState,
)
    requires
        old(global_state).wf(),
        distinct_sensor_tags(sensors@),
    ensures
        final(global_state).wf(),
        (final(global_state)@, *final(conveyor_state), *final(valve_state)) == feedback_run(
            old(global_state)@,
            *old(conveyor_state),
            *old(valve_state),
            sensors@,
            events@,
        ),
{
    let ghost g0 = old(global_state)@;
    let ghost cs0 = *old(conveyor_state);
    let ghost vs0 = *old(valve_state);
    let n: usize = events.len();
    let mut i: usize = 0;
    while i < n
        invariant
            global_state.wf(),
            i <= n,
            n == events@.len(),
            distinct_sensor_tags(sensors@),
            g0 == old(global_state)@,
            cs0 == *old(conveyor_state),
            vs0 == *old(valve_state),
            (global_state@, *conveyor_state, *valve_state) == feedback_run(
                g0,
                cs0,
                vs0,
                sensors@,
                events@.take(i as int),
            ),
        decreases n - i,
    {
        let ghost pre = (global_state@, *conveyor_state, *valve_state);
        let ghost e = events@[i as int];
        proof {
            assert(events@.take(i + 1).drop_last() =~= events@.take(i as int));
            assert(events@.take(i + 1).last() == e);
        }
        match find_sensor(sensors, events[i].sensor_tag.as_str()) {
            Some(j) => {
                if sensors[j].sensor_item == events[i].object {
                    proof {
                        assert(sensors@[j as int].sensor_tag@ == e.sensor_tag@ && sensors@[
                            j as int].sensor_item == e.object);
                    }
                    global_state.set_triggered(events[i].sensor_tag.as_str(), events[i].started);
                    if events[i].started {
                        match events[i].object {
                            ObjectKind::Bottle => {
                                conveyor_state.set_active(false);
                                valve_state.set_active(true);
                            },
                            ObjectKind::Ball => {
                                conveyor_state.set_active(true);
                                valve_state.set_active(false);
                            },
                        }
                    }
                } else {
                    proof {
                        assert forall|k: int|
                            0 <= k < sensors@.len() implies !(#[trigger] sensors@[k].sensor_tag@
                            == e.sensor_tag@ && sensors@[k].sensor_item == e.object) by {
                            if sensors@[k].sensor_tag@ == e.sensor_tag@ && k != j {
                                assert(sensors@[k].sensor_tag@ != sensors@[j as int].sensor_tag@);
                            }
                        }
                    }
                }
            },
            None => {},
        }
        proof {
            assert((global_state@, *conveyor_state, *valve_state) == feedback_step(
                pre.0,
                pre.1,
                pre.2,
                sensors@,
                e,
            ));
        }
        i = i + 1;
    }
    proof {
        assert(events@.take(n as int) =~= events@);
    }
}

/// Push pass for conveyors: when the shared conveyor state changed since
/// the last tick, its run flag is exported to every conveyor's coil and
/// its speed to every conveyor's holding register, and the dirty flag is
/// cleared; unprovisioned addresses are skipped as wiring errors.
pub fn sync_conveyor_to_modbus(
    conveyors: &Vec<Conveyor>,
    conveyor_state: &mut EquipmentState,
    modbus_state: &mut ModbusState,
)
    requires
        old(modbus_state).wf(),
    ensures
        final(modbus_state).wf(),
        ({
            let ms0 = *old(modbus_state);
            let ms1 = *final(modbus_state);
            let es0 = *old(conveyor_state);
            let es1 = *final(conveyor_state);
            &&& ms1.discrete_inputs@ == ms0.discrete_inputs@
            &&& ms1.input_registers@ == ms0.input_registers@
            &&& (!es0.dirty ==> es1 == es0 && ms1.coils@ == ms0.coils@ && ms1.holding_registers@
                == ms0.holding_registers@)
            &&& (es0.dirty ==> es1 == (EquipmentState { dirty: false, ..es0 }) && ms1.coils@
                == pushed(
                ms0.coils@,
                conveyors@.map_values(|c: Conveyor| c.coil_address),
                es0.active,
            ) && ms1.holding_registers@ == pushed(
                ms0.holding_registers@,
                conveyors@.map_values(|c: Conveyor| c.holding_address),
                es0.rate,
            ))
        }),
{
    if conveyor_state.dirty {
        let coil_addrs = conveyor_coil_addrs(conveyors);
        push_all(&mut modbus_state.coils, &coil_addrs, conveyor_state.active);
        let holding_addrs = conveyor_holding_addrs(conveyors);
        push_all(&mut modbus_state.holding_registers, &holding_addrs, conveyor_state.rate);
        conveyor_state.dirty = false;
    }
}

/// Pull pass for conveyors: scans the conveyors' coils and adopts the
/// first provisioned value that differs from the local run flag, then
/// does the same for the speed over the holding registers; a pulled
/// difference marks the state dirty.
pub fn sync_modbus_to_conveyor(
    conveyors: &Vec<Conveyor>,
    conveyor_state: &mut EquipmentState,
    modbus_state: &ModbusState,
)
    requires
        modbus_state.wf(),
    ensures
        ({
            let es0 = *old(conveyor_state);
            let es1 = *final(conveyor_state);
            &&& es1.active == pulled(
                modbus_state.coils@,
                conveyors@.map_values(|c: Conveyor| c.coil_address),
                es0.active,
            )
            &&& es1.rate == pulled(
                modbus_state.holding_registers@,
                conveyors@.map_values(|c: Conveyor| c.holding_address),
                es0.rate,
            )
            &&& es1.dirty == (es0.dirty || es1.active != es0.active || es1.rate != es0.rate)
        }),
{
    let coil_addrs = conveyor_coil_addrs(conveyors);
    let new_active = pull_first_diff_bool(&modbus_state.coils, &coil_addrs, conveyor_state.active);
    if new_active != conveyor_state.active {
        conveyor_state.set_active(new_active);
    }
    let holding_addrs = conveyor_holding_addrs(conveyors);
    let new_rate = pull_first_diff_word(
        &modbus_state.holding_registers,
        &holding_addrs,
        conveyor_state.rate,
    );
    if new_rate != conveyor_state.rate {
        conveyor_state.set_rate(new_rate);
    }
}

/// Push pass for valves: when the shared valve state changed since the
/// last tick, its open flag is exported to every valve's coil and its
/// spawn rate to every valve's holding register, and the dirty flag is
/// cleared; unprovisioned addresses are skipped as wiring errors.
pub fn sync_valves_to_modbus(
    valves: &Vec<Valve>,
    valve_state: &mut EquipmentState,
    modbus_state: &mut ModbusState,
)
    requires
        old(modbus_state).wf(),
    ensures
        final(modbus_state).wf(),
        ({
            let ms0 = *old(modbus_state);
            let ms1 = *final(modbus_state);
            let es0 = *old(valve_state);
            let es1 = *final(valve_state);
            &&& ms1.discrete_inputs@ == ms0.discrete_inputs@
            &&& ms1.input_registers@ == ms0.input_registers@
            &&& (!es0.dirty ==> es1 == es0 && ms1.coils@ == ms0.coils@ && ms1.holding_registers@
                == ms0.holding_registers@)
            &&& (es0.dirty ==> es1 == (EquipmentState { dirty: false, ..es0 }) && ms1.coils@
                == pushed(
                ms0.coils@,
                valves@.map_values(|v: Valve| v.coil_address),
                es0.active,
            ) && ms1.holding_registers@ == pushed(
                ms0.holding_registers@,
                valves@.map_values(|v: Valve| v.holding_address),
                es0.rate,
            ))
        }),
{
    if valve_state.dirty {
        let coil_addrs = valve_coil_addrs(valves);
        push_all(&mut modbus_state.coils, &coil_addrs, valve_state.active);
        let holding_addrs = valve_holding_addrs(valves);
        push_all(&mut modbus_state.holding_registers, &holding_addrs, valve_state.rate);
        valve_state.dirty = false;
    }
}

/// Pull pass for valves: scans the valves' coils and adopts the first
/// provisioned value that differs from the local open flag, then does the
/// same for the spawn rate over the holding registers; a pulled
/// difference marks the state dirty.
pub fn sync_modbus_to_valves(
    valves: &Vec<Valve>,
    valve_state: &mut EquipmentState,
    modbus_state: &ModbusState,
)
    requires
        modbus_state.wf(),
    ensures
        ({
            let es0 = *old(valve_state);
            let es1 = *final(valve_state);
            &&& es1.active == pulled(
                modbus_state.coils@,
                valves@.map_values(|v: Valve| v.coil_address),
                es0.active,
            )
            &&& es1.rate == pulled(
                modbus_state.holding_registers@,
                valves@.map_values(|v: Valve| v.holding_address),
                es0.rate,
            )
            &&& es1.dirty == (es0.dirty || es1.active != es0.active || es1.rate != es0.rate)
        }),
{
    let coil_addrs = valve_coil_addrs(valves);
    let new_active = pull_first_diff_bool(&modbus_state.coils, &coil_addrs, valve_state.active);
    if new_active != valve_state.active {
        valve_state.set_active(new_active);
    }
    let holding_addrs = valve_holding_addrs(valves);
    let new_rate = pull_first_diff_word(
        &modbus_state.holding_registers,
        &holding_addrs,
        valve_state.rate,
    );
    if new_rate != valve_state.rate {
        valve_state.set_rate(new_rate);
    }
}

} // verus!
