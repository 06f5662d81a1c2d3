//! The cache of tiles that partial records fill and later tiles name by index.

use vstd::prelude::*;
use crate::error::VncError;
use crate::mvs_tables::APPLE_NATURAL_ORDER;
use crate::mvs_tiles::{ModeFiveCoefficients, MVS_CACHE_ENTRY_BYTES};

verus! {

/// The number of slots; slot zero is never filled.
pub const MVS_CACHE_SLOT_COUNT: usize = 65_000;

/// The last slot that is filled before the first is filled again.
pub const MVS_CACHE_LAST_USABLE_INDEX: u16 = 64_999;

/// The cache: its slots, the slot that was last looked up, the slot that was last filled, and how
/// many times a slot was filled.
#[derive(Clone, Debug)]
pub struct MvsCacheState {
    pub entries: Vec<Option<[i8; 99]>>,
    pub previous_cache_index: u16,
    pub last_insert_index: u16,
    pub population_count: u32,
}

/// What a cache holds.
#[verifier::ext_equal]
pub struct CacheView {
    pub entries: Seq<Option<[i8; 99]>>,
    pub previous_cache_index: u16,
    pub last_insert_index: u16,
    pub population_count: u32,
}

impl View for MvsCacheState {
    type V = CacheView;

    open spec fn view(&self) -> CacheView {
        CacheView {
            entries: self.entries@,
            previous_cache_index: self.previous_cache_index,
            last_insert_index: self.last_insert_index,
            population_count: self.population_count,
        }
    }
}

/// The cache that was never filled.
pub open spec fn empty_cache() -> CacheView {
    CacheView {
        entries: Seq::new(MVS_CACHE_SLOT_COUNT as nat, |i: int| None),
        previous_cache_index: 0,
        last_insert_index: 0,
        population_count: 0,
    }
}

/// The entry that `index` names. It must name a slot, must not be above the number of fillings, and
/// the slot must have been filled.
pub open spec fn cached(cache: CacheView, index: u16) -> Result<[i8; 99], VncError> {
    if index == 0 || index >= MVS_CACHE_SLOT_COUNT {
        Err(VncError::Number { before: "MVS cache 索引越界: ", value: index as u64, after: "" })
    } else if cache.population_count < index {
        Err(
            VncError::Number {
                before: "MVS cache population counter 小于查询索引: ",
                value: index as u64,
                after: "",
            },
        )
    } else {
        match cache.entries[index as int] {
            Some(entry) => Ok(entry),
            None => Err(
                VncError::Number { before: "MVS cache 索引未初始化: ", value: index as u64, after: "" },
            ),
        }
    }
}

/// The slot that is filled after `last`.
pub open spec fn slot_after(last: u16) -> u16 {
    if last == MVS_CACHE_LAST_USABLE_INDEX {
        1
    } else {
        (last + 1) as u16
    }
}

/// The cache after `entry` was put into the next slot.
pub open spec fn populated(cache: CacheView, entry: [i8; 99]) -> Result<CacheView, VncError> {
    if cache.population_count == u32::MAX {
        Err(VncError::Text("MVS cache population counter 溢出"))
    } else if cache.last_insert_index > MVS_CACHE_LAST_USABLE_INDEX {
        Err(
            VncError::Number {
                before: "MVS cache last insertion index 非法: ",
                value: cache.last_insert_index as u64,
                after: "",
            },
        )
    } else {
        let slot = slot_after(cache.last_insert_index);
        Ok(
            CacheView {
                entries: cache.entries.update(slot as int, Some(entry)),
                previous_cache_index: cache.previous_cache_index,
                last_insert_index: slot,
                population_count: (cache.population_count + 1) as u32,
            },
        )
    }
}

/// The first `count` bytes from `start` on, each at its place in the block.
pub open spec fn unzigzagged(bytes: Seq<i8>, start: int, count: int) -> Seq<i16>
    decreases count,
{
    if count <= 0 {
        crate::mvs_rice::zero_block()
    } else {
        unzigzagged(bytes, start, count - 1).update(
            APPLE_NATURAL_ORDER[count - 1] as int,
            bytes[start + count - 1] as i16,
        )
    }
}

/// The coefficients of an entry: 64 luma, 15 Cb and 20 Cr.
pub open spec fn entry_coefficients(entry: Seq<i8>) -> ModeFiveCoefficients {
    crate::mvs_tiles::coefficients_of(
        unzigzagged(entry, 0, 64),
        unzigzagged(entry, 64, 15),
        unzigzagged(entry, 79, 20),
    )
}

/// Puts `count` bytes of a slice, from `start` on, each at its place in a block.
pub fn place_in_block(bytes: &[i8], start: usize, count: usize) -> (r: [i16; 64])
    requires
        start + count <= bytes@.len(),
        count <= 64,
    ensures
        r@ == unzigzagged(bytes@, start as int, count as int),
{
    let mut block: [i16; 64] = [0; 64];
    assert(block@ =~= crate::mvs_rice::zero_block());
    let total: usize = bytes.len();
    let mut scan: usize = 0;
    while scan < count
        invariant
            scan <= count <= 64,
            start + count <= total == bytes@.len(),
            block@ == unzigzagged(bytes@, start as int, scan as int),
        decreases count - scan,
    {
        proof {
            crate::mvs_tables::lemma_natural_order_bound(scan as int);
        }
        let place: usize = APPLE_NATURAL_ORDER[scan];
        block[place] = bytes[start + scan] as i16;
        scan = scan + 1;
    }
    block
}

/// The coefficients of an entry.
pub fn cache_entry_coefficients(entry: &[i8; 99]) -> (r: ModeFiveCoefficients)
    ensures
        r == entry_coefficients(entry@),
        r.y@ == unzigzagged(entry@, 0, 64),
        r.cb@ == unzigzagged(entry@, 64, 15),
        r.cr@ == unzigzagged(entry@, 79, 20),
{
    let r: ModeFiveCoefficients = ModeFiveCoefficients {
        y: place_in_block(entry.as_slice(), 0, 64),
        cb: place_in_block(entry.as_slice(), 64, 15),
        cr: place_in_block(entry.as_slice(), 79, 20),
    };
    proof {
        crate::mvs_tiles::lemma_coefficients_of(r);
    }
    r
}

/// The same elements in a vector of their own.
pub fn duplicate_all<T: Copy>(elements: &Vec<T>) -> (r: Vec<T>)
    ensures
        r@ == elements@,
{
    let mut out: Vec<T> = Vec::with_capacity(elements.len());
    let mut i: usize = 0;
    while i < elements.len()
        invariant
            i <= elements@.len(),
            out@ == elements@.take(i as int),
        decreases elements@.len() - i,
    {
        out.push(elements[i]);
        i = i + 1;
        assert(out@ =~= elements@.take(i as int));
    }
    assert(out@ =~= elements@);
    out
}

impl MvsCacheState {
    /// There is room for every slot.
    pub open spec fn wf(self) -> bool {
        self.entries@.len() == MVS_CACHE_SLOT_COUNT
    }

    /// A cache that was never filled.
    pub fn new() -> (r: Self)
        ensures
            r.wf(),
            r@ == empty_cache(),
    {
        let mut entries: Vec<Option<[i8; 99]>> = Vec::with_capacity(MVS_CACHE_SLOT_COUNT);
        let mut slot: usize = 0;
        while slot < MVS_CACHE_SLOT_COUNT
            invariant
                slot <= MVS_CACHE_SLOT_COUNT,
                entries@.len() == slot,
                forall|i: int| 0 <= i < slot ==> #[trigger] entries@[i] is None,
            decreases MVS_CACHE_SLOT_COUNT - slot,
        {
            entries.push(None);
            slot = slot + 1;
        }
        let r: MvsCacheState = MvsCacheState {
            entries,
            previous_cache_index: 0,
            last_insert_index: 0,
            population_count: 0,
        };
        assert(r@ =~= empty_cache());
        r
    }

    /// The same cache again.
    pub fn duplicate(&self) -> (r: Self)
        ensures
            r@ == self@,
    {
        let entries: Vec<Option<[i8; 99]>> = duplicate_all(&self.entries);
        MvsCacheState {
            entries,
            previous_cache_index: self.previous_cache_index,
            last_insert_index: self.last_insert_index,
            population_count: self.population_count,
        }
    }
}

/// The entry that `index` names.
pub fn lookup_cache_entry(cache: &MvsCacheState, index: u16) -> (r: Result<[i8; 99], VncError>)
    requires
        cache.wf(),
    ensures
        r == cached(cache@, index),
{
    if index == 0 || index as usize >= MVS_CACHE_SLOT_COUNT {
        return Err(VncError::Number { before: "MVS cache 索引越界: ", value: index as u64, after: "" });
    }
    if cache.population_count < index as u32 {
        return Err(
            VncError::Number {
                before: "MVS cache population counter 小于查询索引: ",
                value: index as u64,
                after: "",
            },
        );
    }
    match cache.entries[index as usize] {
        Some(entry) => Ok(entry),
        None => Err(
            VncError::Number { before: "MVS cache 索引未初始化: ", value: index as u64, after: "" },
        ),
    }
}

/// Puts `entry` into the next slot. A refusal leaves the cache alone.
pub fn stage_cache_population(cache: &mut MvsCacheState, entry: [i8; 99]) -> (r: Result<(), VncError>)
    requires
        old(cache).wf(),
    ensures
        final(cache).wf(),
        match populated(old(cache)@, entry) {
            Ok(next) => r is Ok && final(cache)@ == next,
            Err(e) => r == Err::<(), VncError>(e) && final(cache)@ == old(cache)@,
        },
{
    let next_count: u32 = match cache.population_count.checked_add(1) {
        Some(count) => count,
        None => {
            return Err(VncError::Text("MVS cache population counter 溢出"));
        },
    };
    let last: u16 = cache.last_insert_index;
    if last > MVS_CACHE_LAST_USABLE_INDEX {
        return Err(
            VncError::Number {
                before: "MVS cache last insertion index 非法: ",
                value: last as u64,
                after: "",
            },
        );
    }
    let slot: u16 = if last == MVS_CACHE_LAST_USABLE_INDEX {
        1
    } else {
        last + 1
    };
    cache.population_count = next_count;
    cache.last_insert_index = slot;
    cache.entries.set(slot as usize, Some(entry));
    Ok(())
}

/// What was just put into the cache is what the slot that was filled last gives back, as long as
/// slots are filled in turn.
pub proof fn law_populated_entry_is_found(cache: CacheView, entry: [i8; 99])
    requires
        cache.entries.len() == MVS_CACHE_SLOT_COUNT,
        cache.last_insert_index <= cache.population_count,
    ensures
        populated(cache, entry) matches Ok(next) ==> cached(next, next.last_insert_index) == Ok::<
            [i8; 99],
            VncError,
        >(entry) && next.last_insert_index <= next.population_count,
{
}

/// Filling a slot leaves every other slot and the slot that was last looked up alone.
pub proof fn law_population_keeps_other_slots(cache: CacheView, entry: [i8; 99], slot: int)
    requires
        cache.entries.len() == MVS_CACHE_SLOT_COUNT,
        0 <= slot < MVS_CACHE_SLOT_COUNT,
    ensures
        populated(cache, entry) matches Ok(next) ==> next.previous_cache_index
            == cache.previous_cache_index && (slot != next.last_insert_index ==> next.entries[slot]
            == cache.entries[slot]) && 1 <= next.last_insert_index <= MVS_CACHE_LAST_USABLE_INDEX,
{
}

/// Slots are filled in turn, from the first to the last of 64,999 and then from the first again, and
/// every filling counts; an entry is found where its slot was filled and is named by a number within
/// the slots and the fillings.
pub proof fn law_slots_are_filled_in_turn(cache: CacheView, entry: [i8; 99], index: u16)
    requires
        cache.entries.len() == MVS_CACHE_SLOT_COUNT,
    ensures
        populated(cache, entry) is Ok <==> cache.population_count < u32::MAX
            && cache.last_insert_index <= 64_999,
        populated(cache, entry) matches Ok(next) ==> next.last_insert_index
            == cache.last_insert_index % 64_999 + 1 && next.population_count
            == cache.population_count + 1,
        cached(cache, index) is Ok <==> 1 <= index <= 64_999 && index <= cache.population_count
            && cache.entries[index as int] is Some,
        cached(cache, index) matches Ok(found) ==> cache.entries[index as int] == Some(found),
        empty_cache().entries.len() == 65_000 && cached(empty_cache(), index) is Err,
{
}

} // verus!
