use vstd::prelude::*;

verus! {

/// Why generated code trapped.
#[derive(Debug, Clone, Copy, PartialEq, Eq, Structural)]
pub enum TrapKind {
    Unreachable,
    MemoryOutOfBounds,
    CallIndirectOutOfBounds,
    CallIndirectSignatureMismatch,
    IntegerDivideByZero,
    IntegerOverflow,
    FloatInvalidConversion,
}

/// A trap site: the offset of a trapping instruction in the code buffer, and its kind.
#[derive(Debug, Clone, Copy)]
pub struct TrapSite {
    pub offset: usize,
    pub kind: TrapKind,
}

/// The trap sites of a code buffer, in the order of their offsets.
#[derive(Debug, Clone)]
pub struct TrapSink {
    sites: Vec<TrapSite>,
}

impl TrapSink {
    /// The recorded sites, in the order they were recorded.
    pub closed spec fn sites(&self) -> Seq<TrapSite> {
        self.sites@
    }

    /// The sink as a map from code offset to trap kind.
    pub open spec fn view_map(&self) -> Map<int, TrapKind> {
        Map::new(
            |o: int| exists|i: int| 0 <= i < self.sites().len() && self.sites()[i].offset == o,
            |o: int|
                self.sites()[choose|i: int|
                    0 <= i < self.sites().len() && self.sites()[i].offset == o].kind,
        )
    }

    /// Offsets strictly increase, so that each offset has one kind.
    pub open spec fn wf(&self) -> bool {
        forall|i: int, j: int|
            0 <= i < j < self.sites().len() ==> self.sites()[i].offset < self.sites()[j].offset
    }

    /// The offset that the next site must lie beyond: one past the last recorded offset.
    pub open spec fn next_free(&self) -> int {
        if self.sites().len() == 0 {
            0
        } else {
            self.sites().last().offset + 1
        }
    }

    pub fn new() -> (r: Self)
        ensures
            r.wf(),
            r.sites().len() == 0,
            r.view_map() == Map::<int, TrapKind>::empty(),
    {
        let r = TrapSink { sites: Vec::new() };
        assert(r.view_map() =~= Map::<int, TrapKind>::empty());
        r
    }

    /// Records that the instruction at `offset` traps with `kind`. Code is emitted in order,
    /// so each new site lies beyond the last one.
    pub fn record(&mut self, offset: usize, kind: TrapKind)
        requires
            old(self).wf(),
            offset >= old(self).next_free(),
        ensures
            final(self).wf(),
            final(self).sites() == old(self).sites().push(TrapSite { offset, kind }),
            final(self).view_map() == old(self).view_map().insert(offset as int, kind),
    {
        let ghost prev = self.sites();
        self.sites.push(TrapSite { offset, kind });
        proof {
            let s = self.sites();
            assert forall|i: int, j: int| 0 <= i < j < s.len() implies s[i].offset < s[j].offset by {
                if j == s.len() - 1 && i < j {
                    if prev.len() > 0 {
                        assert(prev[i].offset <= prev.last().offset);
                    }
                }
            }
            assert forall|o: int| #[trigger] self.view_map().contains_key(o) implies self.view_map()[o]
                == old(self).view_map().insert(offset as int, kind)[o] by {
                let i = choose|i: int| 0 <= i < s.len() && s[i].offset == o;
                if o != offset {
                    assert(0 <= i < prev.len() && prev[i].offset == o);
                    let i2 = choose|i: int| 0 <= i < prev.len() && prev[i].offset == o;
                    assert(i == i2);
                } else {
                    assert(i == s.len() - 1);
                }
            }
            assert forall|o: int| #[trigger] old(self).view_map().insert(offset as int, kind).contains_key(o)
                implies self.view_map().contains_key(o) by {
                if o == offset {
                    assert(s[s.len() - 1].offset == o);
                } else {
                    let i = choose|i: int| 0 <= i < prev.len() && prev[i].offset == o;
                    assert(s[i].offset == o);
                }
            }
            assert(self.view_map() =~= old(self).view_map().insert(offset as int, kind));
        }
    }

    /// The kind of the trap recorded at `offset`, if one is.
    pub fn lookup(&self, offset: usize) -> (r: Option<TrapKind>)
        requires
            self.wf(),
        ensures
            r == (if self.view_map().contains_key(offset as int) {
                Some(self.view_map()[offset as int])
            } else {
                None
            }),
    {
        let mut i: usize = 0;
        while i < self.sites.len()
            invariant
                self.wf(),
                i <= self.sites().len(),
                forall|j: int| 0 <= j < i ==> self.sites()[j].offset != offset,
            decreases self.sites().len() - i,
        {
            if self.sites[i].offset == offset {
                let ghost k = choose|k: int|
                    0 <= k < self.sites().len() && self.sites()[k].offset == offset as int;
                assert(k == i as int);
                return Some(self.sites[i].kind);
            }
            i = i + 1;
        }
        None
    }
}

/// What the fault handler knows of one code buffer: its trap sites and where it lies.
#[derive(Debug, Clone)]
pub struct HandlerData {
    trap_data: TrapSink,
    exec_buffer_ptr: usize,
    exec_buffer_size: usize,
}

impl HandlerData {
    pub closed spec fn sink(&self) -> TrapSink {
        self.trap_data
    }

    pub closed spec fn base(&self) -> int {
        self.exec_buffer_ptr as int
    }

    pub closed spec fn size(&self) -> int {
        self.exec_buffer_size as int
    }

    pub open spec fn wf(&self) -> bool {
        &&& self.sink().wf()
        &&& self.base() + self.size() <= usize::MAX
    }

    /// The kind of trap that a fault at `ip` stands for: none outside the buffer; inside
    /// it, the site recorded at the offset of `ip`, if any.
    pub open spec fn spec_lookup(&self, ip: int) -> Option<TrapKind> {
        if self.base() <= ip < self.base() + self.size()
            && self.sink().view_map().contains_key(ip - self.base()) {
            Some(self.sink().view_map()[ip - self.base()])
        } else {
            None
        }
    }

    pub fn new(trap_data: TrapSink, exec_buffer_ptr: usize, exec_buffer_size: usize) -> (r: Self)
        requires
            trap_data.wf(),
            exec_buffer_ptr + exec_buffer_size <= usize::MAX,
        ensures
            r.wf(),
            r.sink() == trap_data,
            r.base() == exec_buffer_ptr,
            r.size() == exec_buffer_size,
    {
        HandlerData { trap_data, exec_buffer_ptr, exec_buffer_size }
    }

    /// Maps a faulting instruction address to the trap it stands for.
    pub fn lookup(&self, ip: usize) -> (r: Option<TrapKind>)
        requires
            self.wf(),
        ensures
            r == self.spec_lookup(ip as int),
    {
        let buffer_ptr = self.exec_buffer_ptr;
        if buffer_ptr <= ip && ip < buffer_ptr + self.exec_buffer_size {
            let offset = ip - buffer_ptr;
            self.trap_data.lookup(offset)
        } else {
            None
        }
    }
}

/// Every recorded trap site inside the buffer resolves to its own kind, and no address
/// outside the buffer resolves to any trap.
pub proof fn lemma_trap_localisation(h: HandlerData)
    requires
        h.wf(),
    ensures
        forall|i: int|
            0 <= i < h.sink().sites().len() && h.sink().sites()[i].offset < h.size()
                ==> #[trigger] h.spec_lookup(h.base() + h.sink().sites()[i].offset) == Some(
                h.sink().sites()[i].kind,
            ),
        forall|ip: int| (ip < h.base() || ip >= h.base() + h.size()) ==> #[trigger] h.spec_lookup(ip)
            is None,
{
    let s = h.sink().sites();
    assert forall|i: int|
        0 <= i < s.len() && s[i].offset < h.size() implies #[trigger] h.spec_lookup(
        h.base() + s[i].offset,
    ) == Some(s[i].kind) by {
        let o = s[i].offset as int;
        assert(h.sink().view_map().contains_key(o));
        let k = choose|k: int| 0 <= k < s.len() && s[k].offset == o;
        if k < i {
            assert(s[k].offset < s[i].offset);
        } else if k > i {
            assert(s[i].offset < s[k].offset);
        }
    }
}

} // verus!
