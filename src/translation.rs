use vstd::prelude::*;

verus! {

/// Size of the memory mapped by one level-1 block entry (1 GiB).
pub const BLOCK_SIZE: u64 = 0x4000_0000;

/// Entries in one table.
pub const ENTRIES_PER_TABLE: usize = 512;

/// Size of the memory covered by one level-0 entry (512 GiB).
pub const WINDOW_SIZE: u64 = 0x80_0000_0000;

/// First address of the upper half of the virtual address space, where the
/// kernel lives.
pub const UPPER_HALF_BASE: u64 = 0xffff_0000_0000_0000;

/// Physical addresses at or beyond this bound cannot be expressed in an entry.
pub const PHYS_REACH: u64 = 0x1_0000_0000_0000;

/// Why the translation structures cannot be built.
#[derive(Clone, Copy, Debug, PartialEq, Eq, Structural)]
pub enum MappingError {
    /// The kernel's physical or virtual start is not a multiple of `BLOCK_SIZE`.
    Misaligned,
    /// The kernel's virtual start lies below the upper half.
    VirtOutOfReach,
    /// The kernel's physical start lies beyond what an entry can express.
    PhysOutOfReach,
}

/// What the structures map: the level-0 slot of the kernel's window, and the
/// output address of each block of the identity window and of the kernel's
/// window (`None` for an invalid entry).
pub struct TablesView {
    pub kernel_window: nat,
    pub identity: Seq<Option<u64>>,
    pub kernel: Seq<Option<u64>>,
}

/// The address-mapping tables: the first 512 GiB of the lower half mapped one
/// to one, and the kernel's upper-half window mapped onto its physical image.
/// Once built they are only read.
pub struct TranslationStructures {
    kernel_window: usize,
    identity: Vec<Option<u64>>,
    kernel: Vec<Option<u64>>,
}

impl View for TranslationStructures {
    type V = TablesView;

    closed spec fn view(&self) -> TablesView {
        TablesView { kernel_window: self.kernel_window as nat, identity: self.identity@, kernel: self.kernel@ }
    }
}

/// Both addresses meet the builder's demands.
pub open spec fn mapping_inputs_valid(phys_start: u64, virt_start: u64) -> bool {
    phys_start % BLOCK_SIZE == 0 && virt_start % BLOCK_SIZE == 0 && virt_start >= UPPER_HALF_BASE
        && phys_start < PHYS_REACH
}

/// The error reported for inputs that are not valid: alignment is checked
/// first, then the virtual start, then the physical start.
pub open spec fn mapping_error(phys_start: u64, virt_start: u64) -> MappingError {
    if phys_start % BLOCK_SIZE != 0 || virt_start % BLOCK_SIZE != 0 {
        MappingError::Misaligned
    } else if virt_start < UPPER_HALF_BASE {
        MappingError::VirtOutOfReach
    } else {
        MappingError::PhysOutOfReach
    }
}

/// Level-0 slot of an upper-half virtual address.
pub open spec fn window_of(virt: int) -> int {
    (virt - UPPER_HALF_BASE) / (WINDOW_SIZE as int)
}

/// Level-1 slot of an upper-half virtual address inside its window.
pub open spec fn slot_of(virt: int) -> int {
    ((virt - UPPER_HALF_BASE) % (WINDOW_SIZE as int)) / (BLOCK_SIZE as int)
}

/// The tables that map the kernel image at `phys_start` to `virt_start`: each
/// kernel slot from the start's slot on maps to the matching physical block,
/// as long as that block is within reach.
pub open spec fn tables_for(phys_start: u64, virt_start: u64) -> TablesView {
    TablesView {
        kernel_window: window_of(virt_start as int) as nat,
        identity: Seq::new(ENTRIES_PER_TABLE as nat, |s: int| Some((s * BLOCK_SIZE) as u64)),
        kernel: Seq::new(
            ENTRIES_PER_TABLE as nat,
            |s: int|
                {
                    let pa = phys_start + (s - slot_of(virt_start as int)) * BLOCK_SIZE;
                    if s >= slot_of(virt_start as int) && pa < PHYS_REACH {
                        Some(pa as u64)
                    } else {
                        None
                    }
                },
        ),
    }
}

/// The physical address that `va` resolves to through the tables, if any.
pub open spec fn translate_spec(t: TablesView, va: int) -> Option<int> {
    if 0 <= va < WINDOW_SIZE {
        match t.identity[va / (BLOCK_SIZE as int)] {
            Some(pa) => Some(pa + va % (BLOCK_SIZE as int)),
            None => None,
        }
    } else if UPPER_HALF_BASE <= va < 0x1_0000_0000_0000_0000 && window_of(va) == t.kernel_window {
        match t.kernel[slot_of(va)] {
            Some(pa) => Some(pa + va % (BLOCK_SIZE as int)),
            None => None,
        }
    } else {
        None
    }
}

/// Tables of the expected size whose valid entries all lie within reach.
pub open spec fn tables_wf(t: TablesView) -> bool {
    t.identity.len() == ENTRIES_PER_TABLE && t.kernel.len() == ENTRIES_PER_TABLE && (forall|i: int|
        0 <= i < ENTRIES_PER_TABLE ==> (#[trigger] t.identity[i] matches Some(pa) ==> pa
            < PHYS_REACH)) && (forall|i: int|
        0 <= i < ENTRIES_PER_TABLE ==> (#[trigger] t.kernel[i] matches Some(pa) ==> pa
            < PHYS_REACH))
}

/// The lower window is mapped one to one.
pub proof fn lemma_identity_mapping(phys_start: u64, virt_start: u64, va: int)
    requires
        mapping_inputs_valid(phys_start, virt_start),
        0 <= va < WINDOW_SIZE,
    ensures
        translate_spec(tables_for(phys_start, virt_start), va) == Some(va),
{
    let s = va / (BLOCK_SIZE as int);
    assert(0 <= s < ENTRIES_PER_TABLE);
    assert(s * BLOCK_SIZE + va % (BLOCK_SIZE as int) == va);
}

/// Every address of the kernel's window from its virtual start on resolves to
/// the matching address of its physical image, while that address is within
/// reach.
pub proof fn lemma_kernel_mapping(phys_start: u64, virt_start: u64, va: int)
    requires
        mapping_inputs_valid(phys_start, virt_start),
        virt_start <= va < 0x1_0000_0000_0000_0000,
        window_of(va) == window_of(virt_start as int),
        phys_start + (va - virt_start) < PHYS_REACH,
    ensures
        translate_spec(tables_for(phys_start, virt_start), va) == Some(
            phys_start + (va - virt_start),
        ),
{
    let b = BLOCK_SIZE as int;
    let w = WINDOW_SIZE as int;
    let o = va - UPPER_HALF_BASE;
    let ov = virt_start - UPPER_HALF_BASE;
    assert(ov % b == 0);
    assert(o == w * (o / w) + o % w);
    assert(ov == w * (ov / w) + ov % w);
    assert(o / w == ov / w);
    assert(o % w - ov % w == o - ov);
    assert((ov % w) % b == 0) by {
        assert(w == 512 * b);
        vstd::arithmetic::div_mod::lemma_mod_mod(ov, b, 512);
    }
    let so = (o % w) / b;
    let sv = (ov % w) / b;
    assert((o % w) == b * so + (o % w) % b);
    assert((ov % w) == b * sv);
    assert(o % b == (o % w) % b) by {
        assert(w == b * 512);
        vstd::arithmetic::div_mod::lemma_mod_mod(o, b, 512);
    }
    assert(va % b == o % b) by {
        assert(UPPER_HALF_BASE as int == b * 0x3fffc0000);
        vstd::arithmetic::div_mod::lemma_mod_sub_multiples_vanish(va, b);
        vstd::arithmetic::div_mod::lemma_mod_multiples_vanish(-0x3fffc0000, va, b);
    }
    assert(so >= sv) by (nonlinear_arith)
        requires
            b * so + (o % w) % b - b * sv == o - ov,
            o - ov >= 0,
            0 <= (o % w) % b < b,
            b > 0,
    ;
    assert((so - sv) * b + va % b == va - virt_start) by (nonlinear_arith)
        requires
            b * so + (o % w) % b - b * sv == o - ov,
            va % b == (o % w) % b,
            o - ov == va - virt_start,
    ;
    assert(0 <= so < 512);
    assert(phys_start + (so - sv) * b < PHYS_REACH);
}

impl TranslationStructures {
    /// Level-0 slot of the kernel's window.
    pub fn kernel_window(&self) -> (r: usize)
        ensures
            r == self@.kernel_window,
    {
        self.kernel_window
    }

    /// Output address of block `i` of the identity window.
    pub fn identity_entry(&self, i: usize) -> (r: Option<u64>)
        requires
            i < self@.identity.len(),
        ensures
            r == self@.identity[i as int],
    {
        self.identity[i]
    }

    /// Output address of block `i` of the kernel's window.
    pub fn kernel_entry(&self, i: usize) -> (r: Option<u64>)
        requires
            i < self@.kernel.len(),
        ensures
            r == self@.kernel[i as int],
    {
        self.kernel[i]
    }

    /// Walks the tables for `va`.
    pub fn translate(&self, va: u64) -> (r: Option<u64>)
        requires
            tables_wf(self@),
        ensures
            r is None <==> translate_spec(self@, va as int) is None,
            r matches Some(pa) ==> translate_spec(self@, va as int) == Some(pa as int),
    {
        if va < WINDOW_SIZE {
            match self.identity[(va / BLOCK_SIZE) as usize] {
                Some(pa) => Some(pa + va % BLOCK_SIZE),
                None => None,
            }
        } else if va >= UPPER_HALF_BASE && ((va - UPPER_HALF_BASE) / WINDOW_SIZE) as usize
            == self.kernel_window {
            let slot = (((va - UPPER_HALF_BASE) % WINDOW_SIZE) / BLOCK_SIZE) as usize;
            match self.kernel[slot] {
                Some(pa) => Some(pa + va % BLOCK_SIZE),
                None => None,
            }
        } else {
            None
        }
    }

    /// Builds the tables for a kernel image whose physical start is
    /// `phys_start` and whose virtual start is `virt_start`.
    pub fn build(phys_start: u64, virt_start: u64) -> (r: Result<TranslationStructures, MappingError>)
        ensures
            r is Ok <==> mapping_inputs_valid(phys_start, virt_start),
            r matches Ok(t) ==> t@ == tables_for(phys_start, virt_start) && tables_wf(t@),
            r matches Err(e) ==> e == mapping_error(phys_start, virt_start),
    {
        if phys_start % BLOCK_SIZE != 0 || virt_start % BLOCK_SIZE != 0 {
            return Err(MappingError::Misaligned);
        }
        if virt_start < UPPER_HALF_BASE {
            return Err(MappingError::VirtOutOfReach);
        }
        if phys_start >= PHYS_REACH {
            return Err(MappingError::PhysOutOfReach);
        }
        let ghost want = tables_for(phys_start, virt_start);
        let offset = virt_start - UPPER_HALF_BASE;
        let kernel_window = (offset / WINDOW_SIZE) as usize;
        let first_slot = ((offset % WINDOW_SIZE) / BLOCK_SIZE) as usize;
        assert(first_slot == slot_of(virt_start as int));
        let mut identity: Vec<Option<u64>> = Vec::new();
        let mut kernel: Vec<Option<u64>> = Vec::new();
        let mut s: usize = 0;
        while s < ENTRIES_PER_TABLE
            invariant
                s <= ENTRIES_PER_TABLE,
                phys_start < PHYS_REACH,
                first_slot < ENTRIES_PER_TABLE,
                first_slot == slot_of(virt_start as int),
                want == tables_for(phys_start, virt_start),
                identity@.len() == s,
                kernel@.len() == s,
                forall|i: int| 0 <= i < s ==> identity@[i] == #[trigger] want.identity[i],
                forall|i: int| 0 <= i < s ==> kernel@[i] == #[trigger] want.kernel[i],
            decreases ENTRIES_PER_TABLE - s,
        {
            identity.push(Some(s as u64 * BLOCK_SIZE));
            if s >= first_slot {
                let pa = phys_start + (s - first_slot) as u64 * BLOCK_SIZE;
                if pa < PHYS_REACH {
                    kernel.push(Some(pa));
                } else {
                    kernel.push(None);
                }
            } else {
                kernel.push(None);
            }
            s += 1;
        }
        let t = TranslationStructures { kernel_window, identity, kernel };
        assert(t@.identity =~= want.identity);
        assert(t@.kernel =~= want.kernel);
        Ok(t)
    }
}

} // verus!
