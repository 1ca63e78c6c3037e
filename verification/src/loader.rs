use vstd::prelude::*;
use vstd::slice::slice_to_vec;

use crate::addr::Addr;
use crate::addr::AddrRange;
use crate::codes::SegmentFlags;
use crate::codes::SegmentType;
use crate::file::File;
use crate::file::ProgramHeader;

verus! {

/// Why a load cannot proceed. Every failure here is fatal: no partial
/// execution is ever attempted.
#[derive(Clone, Copy, PartialEq, Eq, Structural, Debug)]
pub enum LoadError {
    /// A segment's virtual range runs past the end of the address space.
    RangeWrap { start: Addr, length: Addr },
    /// A segment asks to map zero bytes, which the host cannot reserve.
    EmptyRange { start: Addr },
    /// A segment carries more on-disk bytes than its virtual range holds.
    DataExceedsRange { start: Addr },
    /// A segment's range collides with one already reserved by this load.
    AddressConflict { range: AddrRange },
}

/// One step of the load, in the order the host must perform them. A
/// `Reserve` creates a fresh mapping at the exact requested address with the
/// protection given (always writable, so the copy that follows can proceed);
/// a `CopyData` writes the segment's on-disk bytes to the start of a reserved
/// range; a `Protect` replaces a range's protection with exactly the given
/// flag set.
#[derive(Debug)]
pub enum LoadAction {
    Reserve { range: AddrRange, prot: SegmentFlags },
    CopyData { start: Addr, data: Vec<u8> },
    Protect { range: AddrRange, prot: SegmentFlags },
}

/// The protection a range is reserved with before its segment's bytes are
/// copied in: writable and nothing else.
pub open spec fn writable_spec() -> SegmentFlags {
    SegmentFlags { read: false, write: true, execute: false }
}

/// The loader's model of the address ranges this load has already reserved.
/// Reservations are never released: a mapping must outlive the jump.
pub struct Reservations {
    pub ranges: Vec<AddrRange>,
}

impl Reservations {
    pub fn new() -> (r: Reservations)
        ensures
            r.ranges@ == Seq::<AddrRange>::empty(),
    {
        Reservations { ranges: Vec::new() }
    }

    /// Reserve a range. Reserving fails deterministically — never by
    /// overwriting — when the range is empty (the host cannot map zero
    /// bytes) or when it collides with a range this load already holds.
    pub fn reserve(&mut self, r: AddrRange) -> (res: Result<(), LoadError>)
        requires
            r.wf(),
        ensures
            res is Ok <==> (r.start.0 < r.end.0 && forall|i: int|
                0 <= i < old(self).ranges@.len() ==> !(#[trigger] old(self).ranges@[i]).overlaps(
                    r,
                )),
            res is Ok ==> final(self).ranges@ == old(self).ranges@.push(r),
            res is Err ==> final(self).ranges@ == old(self).ranges@,
            res matches Err(e) ==> e == (if r.start.0 == r.end.0 {
                LoadError::EmptyRange { start: r.start }
            } else {
                LoadError::AddressConflict { range: r }
            }),
    {
        if r.start.0 == r.end.0 {
            return Err(LoadError::EmptyRange { start: r.start });
        }
        let mut i: usize = 0;
        while i < self.ranges.len()
            invariant
                i <= self.ranges@.len(),
                self == old(self),
                r.start.0 < r.end.0,
                forall|m: int| 0 <= m < i ==> !(#[trigger] self.ranges@[m]).overlaps(r),
            decreases self.ranges@.len() - i,
        {
            let held = self.ranges[i];
            if held.start.0 < r.end.0 && r.start.0 < held.end.0 {
                proof {
                    assert(old(self).ranges@[i as int].overlaps(r));
                }
                return Err(LoadError::AddressConflict { range: r });
            }
            i = i + 1;
        }
        self.ranges.push(r);
        Ok(())
    }
}

/// The Load rows of a program header table, in table order; every other
/// segment type contributes nothing to the load.
pub open spec fn loads_of(s: Seq<ProgramHeader>) -> Seq<ProgramHeader>
    decreases s.len(),
{
    if s.len() == 0 {
        Seq::empty()
    } else {
        loads_of(s.drop_last()) + (if s.last().segment_type == SegmentType::Load {
            seq![s.last()]
        } else {
            Seq::<ProgramHeader>::empty()
        })
    }
}

/// A Load segment the host can map: a nonempty virtual range that does not
/// wrap the address space and holds at least the on-disk bytes.
pub open spec fn seg_ok(ph: ProgramHeader) -> bool {
    &&& ph.vaddr.0 + ph.mem_size.0 <= u64::MAX
    &&& ph.mem_size.0 > 0
    &&& ph.data@.len() <= ph.mem_size.0
}

/// The virtual range a segment occupies once mapped.
pub open spec fn seg_range(ph: ProgramHeader) -> AddrRange {
    AddrRange { start: ph.vaddr, end: Addr((ph.vaddr.0 + ph.mem_size.0) as u64) }
}

/// No two Load segments claim overlapping virtual ranges.
pub open spec fn loads_disjoint(loads: Seq<ProgramHeader>) -> bool {
    forall|a: int, b: int|
        0 <= a < b < loads.len() ==> !(#[trigger] seg_range(loads[a])).overlaps(
            #[trigger] seg_range(loads[b]),
        )
}

/// The plan maps each Load segment, in table order, by exactly three steps:
/// reserve its range writable, copy its bytes to the range's start, then
/// narrow the protection to exactly its declared flags. Nothing else is in
/// the plan, so segments of any other type produce no mapping at all.
pub open spec fn plan_matches(loads: Seq<ProgramHeader>, plan: Seq<LoadAction>) -> bool {
    &&& plan.len() == 3 * loads.len()
    &&& forall|k: int|
        0 <= k < loads.len() ==> {
            &&& plan[3 * k] == (LoadAction::Reserve {
                range: seg_range(#[trigger] loads[k]),
                prot: writable_spec(),
            })
            &&& (plan[3 * k + 1] matches LoadAction::CopyData { start, data }
                && start == loads[k].vaddr && data@ == loads[k].data@)
            &&& plan[3 * k + 2] == (LoadAction::Protect {
                range: seg_range(loads[k]),
                prot: loads[k].flags,
            })
        }
}

/// Every Load segment is mappable and no two claim overlapping ranges.
pub open spec fn plan_ok(file: File) -> bool {
    let loads = loads_of(file.program_headers@);
    &&& (forall|k: int| 0 <= k < loads.len() ==> seg_ok(#[trigger] loads[k]))
    &&& loads_disjoint(loads)
}

proof fn lemma_loads_take(s: Seq<ProgramHeader>, i: int)
    requires
        0 <= i <= s.len(),
    ensures
        loads_of(s.take(i)).len() <= loads_of(s).len(),
        forall|k: int|
            0 <= k < loads_of(s.take(i)).len() ==> #[trigger] loads_of(s.take(i))[k] == loads_of(
                s,
            )[k],
    decreases s.len() - i,
{
    if i == s.len() {
        assert(s.take(i) =~= s);
    } else {
        lemma_loads_take(s, i + 1);
        assert(s.take(i + 1).drop_last() =~= s.take(i));
        assert(s.take(i + 1).last() == s[i]);
        assert(loads_of(s.take(i + 1)) == loads_of(s.take(i)) + (if s[i].segment_type
            == SegmentType::Load {
            seq![s[i]]
        } else {
            Seq::<ProgramHeader>::empty()
        }));
        assert forall|k: int| 0 <= k < loads_of(s.take(i)).len() implies #[trigger] loads_of(
            s.take(i),
        )[k] == loads_of(s)[k] by {
            assert(loads_of(s.take(i))[k] == loads_of(s.take(i + 1))[k]);
        }
    }
}

/// A Load row of the table stands in `loads_of` right after the Load rows
/// that precede it.
proof fn lemma_load_at(s: Seq<ProgramHeader>, i: int)
    requires
        0 <= i < s.len(),
        s[i].segment_type == SegmentType::Load,
    ensures
        loads_of(s.take(i)).len() < loads_of(s).len(),
        loads_of(s)[loads_of(s.take(i)).len() as int] == s[i],
{
    lemma_loads_take(s, i + 1);
    assert(s.take(i + 1).drop_last() =~= s.take(i));
    assert(s.take(i + 1).last() == s[i]);
    let k = loads_of(s.take(i)).len() as int;
    assert(loads_of(s.take(i + 1)) =~= loads_of(s.take(i)).push(s[i]));
    assert(loads_of(s.take(i + 1))[k] == s[i]);
}

/// Plan the whole load of a parsed file: three steps for each Load segment,
/// in table order, and nothing for any other segment. Planning fails — and
/// yields no plan at all — exactly when some Load segment is unmappable or
/// two of them collide.
#[verifier::loop_isolation(false)]
#[verifier::rlimit(30)]
pub fn load_plan(file: &File) -> (r: Result<Vec<LoadAction>, LoadError>)
    ensures
        r is Ok <==> plan_ok(*file),
        r matches Ok(plan) ==> plan_matches(loads_of(file.program_headers@), plan@),
        r matches Err(e) ==> {
            let loads = loads_of(file.program_headers@);
            match e {
                LoadError::RangeWrap { start, length } => exists|k: int|
                    0 <= k < loads.len() && (#[trigger] loads[k]).vaddr == start
                        && loads[k].mem_size == length && start.0 + length.0 > u64::MAX,
                LoadError::EmptyRange { start } => exists|k: int|
                    0 <= k < loads.len() && (#[trigger] loads[k]).vaddr == start
                        && loads[k].mem_size.0 == 0,
                LoadError::DataExceedsRange { start } => exists|k: int|
                    0 <= k < loads.len() && (#[trigger] loads[k]).vaddr == start
                        && loads[k].data@.len() > loads[k].mem_size.0,
                LoadError::AddressConflict { range } => exists|a: int, b: int|
                    0 <= a < b < loads.len() && range == seg_range(#[trigger] loads[b]) && (
                    #[trigger] seg_range(loads[a])).overlaps(range),
            }
        },
{
    let hdrs = &file.program_headers;
    let ghost s = file.program_headers@;
    let n: usize = hdrs.len();
    let mut plan: Vec<LoadAction> = Vec::new();
    let mut resv = Reservations::new();
    let mut i: usize = 0;
    while i < n
        invariant
            i <= n,
            resv.ranges@.len() == loads_of(s.take(i as int)).len(),
            forall|k: int|
                0 <= k < loads_of(s.take(i as int)).len() ==> #[trigger] resv.ranges@[k]
                    == seg_range(loads_of(s.take(i as int))[k]),
            plan_matches(loads_of(s.take(i as int)), plan@),
            forall|k: int|
                0 <= k < loads_of(s.take(i as int)).len() ==> seg_ok(
                    #[trigger] loads_of(s.take(i as int))[k],
                ),
            loads_disjoint(loads_of(s.take(i as int))),
        decreases n - i,
    {
        let ghost pre = loads_of(s.take(i as int));
        proof {
            assert(s.take(i + 1).drop_last() =~= s.take(i as int));
            assert(s.take(i + 1).last() == s[i as int]);
        }
        let ph = &hdrs[i];
        if ph.segment_type == SegmentType::Load {
            proof {
                assert(loads_of(s.take(i + 1)) =~= pre.push(s[i as int]));
                lemma_load_at(s, i as int);
            }
            let ghost k = pre.len();
            if ph.mem_size.0 == 0 {
                proof {
                    assert(!seg_ok(loads_of(s)[k as int]));
                }
                return Err(LoadError::EmptyRange { start: ph.vaddr });
            }
            let end: Addr = match ph.vaddr.checked_add(ph.mem_size) {
                Some(e) => e,
                None => {
                    proof {
                        assert(!seg_ok(loads_of(s)[k as int]));
                    }
                    return Err(LoadError::RangeWrap { start: ph.vaddr, length: ph.mem_size });
                },
            };
            if ph.data.len() as u64 > ph.mem_size.0 {
                proof {
                    assert(!seg_ok(loads_of(s)[k as int]));
                }
                return Err(LoadError::DataExceedsRange { start: ph.vaddr });
            }
            let range = AddrRange { start: ph.vaddr, end };
            proof {
                assert(seg_range(s[i as int]) == range);
            }
            let ghost held = resv.ranges@;
            match resv.reserve(range) {
                Ok(()) => {},
                Err(e) => {
                    proof {
                        lemma_loads_take(s, i as int);
                        let a = choose|a: int|
                            0 <= a < held.len() && (#[trigger] held[a]).overlaps(range);
                        assert(held[a] == seg_range(pre[a]));
                        assert(loads_of(s)[a] == pre[a]);
                        assert(seg_range(loads_of(s)[a]).overlaps(seg_range(loads_of(s)[k as int])));
                        assert(!loads_disjoint(loads_of(s)));
                    }
                    return Err(e);
                },
            }
            proof {
                assert(resv.ranges@ == held.push(range));
                assert forall|a: int| 0 <= a < pre.len() implies !(seg_range(
                    #[trigger] pre[a],
                ).overlaps(range)) by {
                    assert(held[a] == seg_range(pre[a]));
                    assert(!held[a].overlaps(range));
                }
            }
            let data: Vec<u8> = slice_to_vec(ph.data.as_slice());
            plan.push(LoadAction::Reserve {
                range,
                prot: SegmentFlags { read: false, write: true, execute: false },
            });
            plan.push(LoadAction::CopyData { start: ph.vaddr, data });
            plan.push(LoadAction::Protect { range, prot: ph.flags });
            proof {
                let post = loads_of(s.take(i + 1));
                assert forall|a: int, b: int| 0 <= a < b < post.len() implies !(
                #[trigger] seg_range(post[a])).overlaps(#[trigger] seg_range(post[b])) by {
                    assert(post[a] == pre[a]);
                    if b < pre.len() {
                        assert(post[b] == pre[b]);
                    } else {
                        assert(post[b] == s[i as int]);
                        assert(!seg_range(pre[a]).overlaps(range));
                    }
                }
                assert forall|m: int| 0 <= m < post.len() implies #[trigger] resv.ranges@[m]
                    == seg_range(post[m]) by {
                    if m < pre.len() {
                        assert(post[m] == pre[m]);
                        assert(resv.ranges@[m] == held[m]);
                    }
                }
                assert forall|m: int| 0 <= m < post.len() implies seg_ok(#[trigger] post[m]) by {
                    if m < pre.len() {
                        assert(post[m] == pre[m]);
                    }
                }
                assert forall|m: int| 0 <= m < post.len() implies {
                    &&& plan@[3 * m] == (LoadAction::Reserve {
                        range: seg_range(#[trigger] post[m]),
                        prot: writable_spec(),
                    })
                    &&& (plan@[3 * m + 1] matches LoadAction::CopyData { start, data }
                        && start == post[m].vaddr && data@ == post[m].data@)
                    &&& plan@[3 * m + 2] == (LoadAction::Protect {
                        range: seg_range(post[m]),
                        prot: post[m].flags,
                    })
                } by {
                    if m < pre.len() {
                        assert(post[m] == pre[m]);
                    }
                }
            }
        } else {
            proof {
                assert(loads_of(s.take(i + 1)) =~= pre);
            }
        }
        i = i + 1;
    }
    proof {
        assert(s.take(n as int) =~= s);
    }
    Ok(plan)
}

/// The two-phase protection protocol, read off any plan with the planned
/// shape and disjoint segments: every copy step lands in a range that was
/// reserved writable by the immediately preceding step; no protection step
/// before the copy touches that range, so the range is still writable when
/// the copy runs; and the very next step narrows the range's protection to
/// exactly the segment's declared flag set — never anything broader.
pub proof fn lemma_two_phase_protection(loads: Seq<ProgramHeader>, plan: Seq<LoadAction>, i: int)
    requires
        plan_matches(loads, plan),
        loads_disjoint(loads),
        forall|k: int| 0 <= k < loads.len() ==> seg_ok(#[trigger] loads[k]),
        0 <= i < plan.len(),
        plan[i] is CopyData,
    ensures
        1 <= i && i + 1 < plan.len(),
        plan[i - 1] matches LoadAction::Reserve { prot, .. } && prot.write,
        exists|k: int|
            {
                &&& 0 <= k < loads.len()
                &&& plan[i - 1] == (LoadAction::Reserve {
                    range: seg_range(#[trigger] loads[k]),
                    prot: writable_spec(),
                })
                &&& (plan[i] matches LoadAction::CopyData { start, data } && start
                    == loads[k].vaddr && data@ == loads[k].data@ && data@.len()
                    <= seg_range(loads[k]).end.0 - seg_range(loads[k]).start.0)
                &&& plan[i + 1] == (LoadAction::Protect {
                    range: seg_range(loads[k]),
                    prot: loads[k].flags,
                })
                &&& forall|m: int|
                    0 <= m < i ==> ((#[trigger] plan[m]) matches LoadAction::Protect {
                        range: pr,
                        ..
                    } ==> !pr.overlaps(seg_range(loads[k])))
            },
{
    vstd::arithmetic::div_mod::lemma_fundamental_div_mod(i, 3);
    vstd::arithmetic::div_mod::lemma_mod_bound(i, 3);
    let k = i / 3;
    assert(0 <= k < loads.len());
    if i % 3 == 0 {
        assert(plan[3 * k] == (LoadAction::Reserve {
            range: seg_range(loads[k]),
            prot: writable_spec(),
        }));
        assert(false);
    }
    if i % 3 == 2 {
        assert(plan[3 * k + 2] == (LoadAction::Protect {
            range: seg_range(loads[k]),
            prot: loads[k].flags,
        }));
        assert(false);
    }
    assert(i == 3 * k + 1);
    assert(seg_ok(loads[k]));
    assert forall|m: int| 0 <= m < i implies ((#[trigger] plan[m]) matches LoadAction::Protect {
        range: pr,
        ..
    } ==> !pr.overlaps(seg_range(loads[k]))) by {
        if plan[m] is Protect {
            vstd::arithmetic::div_mod::lemma_fundamental_div_mod(m, 3);
            vstd::arithmetic::div_mod::lemma_mod_bound(m, 3);
            let q = m / 3;
            assert(0 <= q < loads.len());
            if m % 3 == 0 {
                assert(plan[3 * q] == (LoadAction::Reserve {
                    range: seg_range(loads[q]),
                    prot: writable_spec(),
                }));
                assert(false);
            }
            if m % 3 == 1 {
                assert(plan[3 * q + 1] matches LoadAction::CopyData { start, data } && start
                    == loads[q].vaddr && data@ == loads[q].data@);
                assert(false);
            }
            assert(m == 3 * q + 2);
            assert(plan[3 * q + 2] == (LoadAction::Protect {
                range: seg_range(loads[q]),
                prot: loads[q].flags,
            }));
            assert(q < k);
            assert(!seg_range(loads[q]).overlaps(seg_range(loads[k])));
        }
    }
}

} // verus!
