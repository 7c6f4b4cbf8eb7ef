//! Sparse register banks: each bank maps explicitly provisioned 16-bit
//! addresses to values. An address that was never provisioned is absent,
//! not zero; range reads and writes fail atomically if any address in the
//! range is missing.
use vstd::prelude::*;

verus! {

/// Error returned by bank operations whose address range touches an
/// address that was never provisioned.
#[derive(Clone, Copy, Debug, PartialEq, Eq, Structural)]
pub enum AddressError {
    IllegalDataAddress,
}

struct BankEntry<V> {
    addr: u16,
    val: V,
}

/// A sparse mapping from 16-bit address to a value, with explicit
/// provisioning: reads and writes only touch addresses that were
/// provisioned beforehand.
pub struct RegisterBank<V> {
    entries: Vec<BankEntry<V>>,
}

/// True when the range `[addr, addr + cnt)` stays within the 16-bit
/// address space and every address in it is present in `m`.
pub open spec fn range_provisioned<V>(m: Map<u16, V>, addr: u16, cnt: int) -> bool {
    &&& addr + cnt <= u16::MAX + 1
    &&& forall|a: u16| addr <= a < addr + cnt ==> #[trigger] m.contains_key(a)
}

/// The map `m` overwritten on `[addr, addr + vals.len())` with `vals`;
/// addresses outside that range, and the domain, are unchanged.
pub open spec fn written<V>(m: Map<u16, V>, addr: u16, vals: Seq<V>) -> Map<u16, V> {
    Map::new(
        |a: u16| m.contains_key(a),
        |a: u16|
            if addr <= a < addr + vals.len() {
                vals[a - addr]
            } else {
                m[a]
            },
    )
}

/// Round trip: over a fully provisioned range, a write followed by a
/// read of the same range returns exactly the written values, in every
/// bank. The write stays legal after itself, and each address of the
/// range holds the value written to it.
pub proof fn lemma_write_read_round_trip<V>(m: Map<u16, V>, addr: u16, vals: Seq<V>)
    requires
        range_provisioned(m, addr, vals.len() as int),
    ensures
        range_provisioned(written(m, addr, vals), addr, vals.len() as int),
        forall|k: int| 0 <= k < vals.len() ==> written(m, addr, vals)[(addr + k) as u16]
            == #[trigger] vals[k],
{
    assert forall|k: int| 0 <= k < vals.len() implies written(m, addr, vals)[(addr + k) as u16]
        == #[trigger] vals[k] by {
        let a = (addr + k) as u16;
        assert(m.contains_key(a));
        assert(a - addr == k);
    }
}

impl<V> View for RegisterBank<V> {
    type V = Map<u16, V>;

    closed spec fn view(&self) -> Map<u16, V> {
        entries_map(self.entries@)
    }
}

spec fn entries_map<V>(s: Seq<BankEntry<V>>) -> Map<u16, V>
    decreases s.len(),
{
    if s.len() == 0 {
        Map::empty()
    } else {
        entries_map(s.drop_last()).insert(s.last().addr, s.last().val)
    }
}

spec fn distinct_addrs<V>(s: Seq<BankEntry<V>>) -> bool {
    forall|i: int, j: int| 0 <= i < j < s.len() ==> #[trigger] s[i].addr != #[trigger] s[j].addr
}

proof fn lemma_entries_map_dom<V>(s: Seq<BankEntry<V>>, a: u16)
    ensures
        entries_map(s).contains_key(a) <==> exists|i: int| 0 <= i < s.len() && s[i].addr == a,
    decreases s.len(),
{
    if s.len() > 0 {
        lemma_entries_map_dom(s.drop_last(), a);
        if s.last().addr == a {
            assert(s[s.len() - 1].addr == a);
        } else if entries_map(s).contains_key(a) {
            let i = choose|i: int| 0 <= i < s.drop_last().len() && s.drop_last()[i].addr == a;
            assert(s[i].addr == a);
        } else if exists|i: int| 0 <= i < s.len() && s[i].addr == a {
            let i = choose|i: int| 0 <= i < s.len() && s[i].addr == a;
            assert(s.drop_last()[i].addr == a);
        }
    }
}

proof fn lemma_entries_map_index<V>(s: Seq<BankEntry<V>>, i: int)
    requires
        distinct_addrs(s),
        0 <= i < s.len(),
    ensures
        entries_map(s).contains_key(s[i].addr),
        entries_map(s)[s[i].addr] == s[i].val,
    decreases s.len(),
{
    lemma_entries_map_dom(s, s[i].addr);
    if i < s.len() - 1 {
        assert(s.drop_last()[i] == s[i]);
        lemma_entries_map_index(s.drop_last(), i);
    }
}

proof fn lemma_entries_map_update<V>(s: Seq<BankEntry<V>>, i: int, v: V)
    requires
        distinct_addrs(s),
        0 <= i < s.len(),
    ensures
        distinct_addrs(s.update(i, BankEntry { addr: s[i].addr, val: v })),
        entries_map(s.update(i, BankEntry { addr: s[i].addr, val: v }))
            == entries_map(s).insert(s[i].addr, v),
    decreases s.len(),
{
    let e = BankEntry { addr: s[i].addr, val: v };
    let t = s.update(i, e);
    assert(distinct_addrs(t));
    if i == s.len() - 1 {
        assert(t.drop_last() =~= s.drop_last());
        assert(entries_map(t) =~= entries_map(s).insert(s[i].addr, v));
    } else {
        assert(t.drop_last() =~= s.drop_last().update(i, e));
        lemma_entries_map_update(s.drop_last(), i, v);
        assert(entries_map(t) =~= entries_map(s).insert(s[i].addr, v));
    }
}

impl<V: Copy> RegisterBank<V> {
    /// Internal invariant: no address occurs twice in the entry list.
    pub closed spec fn wf(&self) -> bool {
        distinct_addrs(self.entries@)
    }

    /// An empty bank: no address is provisioned.
    pub fn new() -> (r: RegisterBank<V>)
        ensures
            r.wf(),
            r@ == Map::<u16, V>::empty(),
    {
        RegisterBank { entries: Vec::new() }
    }

    fn find(&self, addr: u16) -> (r: Option<usize>)
        ensures
            match r {
                Some(i) => i < self.entries@.len() && self.entries@[i as int].addr == addr,
                None => forall|i: int| 0 <= i < self.entries@.len() ==> self.entries@[i].addr != addr,
            },
    {
        let n: usize = self.entries.len();
        let mut i: usize = 0;
        while i < n
            invariant
                n == self.entries@.len(),
                i <= n,
                forall|j: int| 0 <= j < i ==> self.entries@[j].addr != addr,
            decreases n - i,
        {
            if self.entries[i].addr == addr {
                return Some(i);
            }
            i = i + 1;
        }
        None
    }

    /// Whether `addr` has been provisioned in this bank.
    pub fn contains_addr(&self, addr: u16) -> (r: bool)
        ensures
            r == self@.contains_key(addr),
    {
        proof {
            lemma_entries_map_dom(self.entries@, addr);
        }
        self.find(addr).is_some()
    }

    /// The value at a provisioned address.
    pub fn get(&self, addr: u16) -> (r: Option<V>)
        requires
            self.wf(),
        ensures
            match r {
                Some(v) => self@.contains_key(addr) && v == self@[addr],
                None => !self@.contains_key(addr),
            },
    {
        proof {
            lemma_entries_map_dom(self.entries@, addr);
        }
        match self.find(addr) {
            Some(i) => {
                proof {
                    lemma_entries_map_index(self.entries@, i as int);
                }
                Some(self.entries[i].val)
            },
            None => None,
        }
    }

    /// Registers a fresh address. Provisioning is a one-time setup act:
    /// the address must not already be present.
    pub fn provision(&mut self, addr: u16, value: V)
        requires
            old(self).wf(),
            !old(self)@.contains_key(addr),
        ensures
            final(self).wf(),
            final(self)@ == old(self)@.insert(addr, value),
    {
        proof {
            lemma_entries_map_dom(self.entries@, addr);
            assert(forall|i: int|
                0 <= i < self.entries@.len() ==> self.entries@[i].addr != addr) by {
                if exists|i: int| 0 <= i < self.entries@.len() && self.entries@[i].addr == addr {
                    let i = choose|i: int|
                        0 <= i < self.entries@.len() && self.entries@[i].addr == addr;
                    lemma_entries_map_index(self.entries@, i);
                }
            }
        }
        let ghost pre = self.entries@;
        self.entries.push(BankEntry { addr, val: value });
        proof {
            assert(self.entries@.drop_last() =~= pre);
        }
    }

    /// Overwrites the value at an already provisioned address.
    fn set_value(&mut self, addr: u16, value: V)
        requires
            old(self).wf(),
            old(self)@.contains_key(addr),
        ensures
            final(self).wf(),
            final(self)@ == old(self)@.insert(addr, value),
    {
        proof {
            lemma_entries_map_dom(self.entries@, addr);
        }
        if let Some(i) = self.find(addr) {
            let ghost pre = self.entries@;
            self.entries[i] = BankEntry { addr, val: value };
            proof {
                lemma_entries_map_update(pre, i as int, value);
            }
        }
    }

    /// Reads `cnt` consecutive values starting at `addr`. Succeeds exactly
    /// when every address of the range is provisioned; otherwise the whole
    /// read is refused.
    pub fn read(&self, addr: u16, cnt: u16) -> (r: Result<Vec<V>, AddressError>)
        requires
            self.wf(),
        ensures
            r is Ok <==> range_provisioned(self@, addr, cnt as int),
            r matches Ok(v) ==> v@.len() == cnt && forall|k: int|
                0 <= k < cnt ==> #[trigger] v@[k] == self@[(addr + k) as u16],
            r is Err ==> r == Err::<Vec<V>, AddressError>(AddressError::IllegalDataAddress),
    {
        let mut out: Vec<V> = Vec::new();
        let mut k: u16 = 0;
        while k < cnt
            invariant
                self.wf(),
                k <= cnt,
                out@.len() == k,
                addr + k <= u16::MAX + 1,
                forall|a: u16| addr <= a < addr + k ==> #[trigger] self@.contains_key(a),
                forall|j: int| 0 <= j < k ==> #[trigger] out@[j] == self@[(addr + j) as u16],
            decreases cnt - k,
        {
            let a: u32 = addr as u32 + k as u32;
            if a > u16::MAX as u32 {
                return Err(AddressError::IllegalDataAddress);
            }
            let a16: u16 = a as u16;
            match self.get(a16) {
                Some(v) => out.push(v),
                None => {
                    return Err(AddressError::IllegalDataAddress);
                },
            }
            k = k + 1;
        }
        Ok(out)
    }

    /// Writes `values` to consecutive addresses starting at `addr`,
    /// all-or-nothing: if any address of the range is unprovisioned the
    /// bank is left unchanged and the whole write is refused.
    pub fn write(&mut self, addr: u16, values: &Vec<V>) -> (r: Result<(), AddressError>)
        requires
            old(self).wf(),
        ensures
            final(self).wf(),
            r is Ok <==> range_provisioned(old(self)@, addr, values@.len() as int),
            r is Ok ==> final(self)@ == written(old(self)@, addr, values@),
            r is Err ==> final(self)@ == old(self)@
                && r == Err::<(), AddressError>(AddressError::IllegalDataAddress),
    {
        let n: usize = values.len();
        let mut k: usize = 0;
        while k < n
            invariant
                self.wf(),
                self@ == old(self)@,
                k <= n,
                n == values@.len(),
                addr + k <= u16::MAX + 1,
                forall|a: u16| addr <= a < addr + k ==> #[trigger] self@.contains_key(a),
            decreases n - k,
        {
            let a: u32 = addr as u32 + k as u32;
            if a > u16::MAX as u32 {
                return Err(AddressError::IllegalDataAddress);
            }
            let a16: u16 = a as u16;
            if !self.contains_addr(a16) {
                return Err(AddressError::IllegalDataAddress);
            }
            k = k + 1;
        }
        k = 0;
        while k < n
            invariant
                self.wf(),
                k <= n,
                n == values@.len(),
                range_provisioned(old(self)@, addr, n as int),
                self@.dom() == old(self)@.dom(),
                forall|a: u16| self@.contains_key(a) ==> #[trigger] self@[a] == (
                    if addr <= a < addr + k {
                        values@[a - addr]
                    } else {
                        old(self)@[a]
                    }
                ),
            decreases n - k,
        {
            let a: u32 = addr as u32 + k as u32;
            let a16: u16 = a as u16;
            self.set_value(a16, values[k]);
            k = k + 1;
        }
        proof {
            assert(self@ =~= written(old(self)@, addr, values@));
        }
        Ok(())
    }

    /// Writes one value to a provisioned address; an unprovisioned address
    /// refuses the write and leaves the bank unchanged.
    pub fn write_single(&mut self, addr: u16, value: V) -> (r: Result<(), AddressError>)
        requires
            old(self).wf(),
        ensures
            final(self).wf(),
            r is Ok <==> old(self)@.contains_key(addr),
            r is Ok ==> final(self)@ == old(self)@.insert(addr, value),
            r is Err ==> final(self)@ == old(self)@
                && r == Err::<(), AddressError>(AddressError::IllegalDataAddress),
    {
        if self.contains_addr(addr) {
            self.set_value(addr, value);
            Ok(())
        } else {
            Err(AddressError::IllegalDataAddress)
        }
    }

    /// Writes one value if its address is provisioned; an unprovisioned
    /// address leaves the bank unchanged (a wiring error is silently
    /// ignored, per the synchronization discipline).
    pub fn set_if_provisioned(&mut self, addr: u16, value: V)
        requires
            old(self).wf(),
        ensures
            final(self).wf(),
            old(self)@.contains_key(addr) ==> final(self)@ == old(self)@.insert(addr, value),
            !old(self)@.contains_key(addr) ==> final(self)@ == old(self)@,
    {
        if self.contains_addr(addr) {
            self.set_value(addr, value);
        }
    }
}

} // verus!
