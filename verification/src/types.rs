//! Bit-packed identifiers of cells and volumes.
//!
//! A cell identifier holds, from the least significant bit upwards:
//!
//! - bit 0: set when the refinement ratio is 7, clear when it is 3 or 4;
//! - bits 1 to 3: the base solid;
//! - bits 4 to 8: the refinement level;
//! - bits 9 to 13: the face of the solid;
//! - from bit 14: one index per step of the hierarchy, in order, each two
//!   bits wide for the ratios 3 and 4 and three bits wide for the ratio 7.
//!
//! The identifier is kept in the narrowest of 32, 64 and 128 bits that holds
//! all of these.
use vstd::prelude::*;
use vstd::arithmetic::power2::{
    lemma2_to64, lemma2_to64_rest, lemma_pow2_adds, lemma_pow2_strictly_increases,
    lemma_pow2_unfold, pow2,
};
use crate::error::DggsError;

verus! {

/// The bit at which the hierarchy starts.
pub const HIERARCHY_OFFSET: usize = 14;

/// The widest identifier.
pub const MAX_BITS: usize = 128;

/// The Platonic solid that a grid starts from.
#[derive(Clone, Copy, Debug, PartialEq, Eq, Structural)]
pub enum UnitPolyhedron {
    Tetrahedron,
    Cube,
    Octahedron,
    Dodecahedron,
    Icosahedron,
}

impl UnitPolyhedron {
    /// The number that stands for the solid in an identifier.
    pub open spec fn spec_id(self) -> u8 {
        match self {
            UnitPolyhedron::Tetrahedron => 0,
            UnitPolyhedron::Cube => 1,
            UnitPolyhedron::Octahedron => 2,
            UnitPolyhedron::Dodecahedron => 3,
            UnitPolyhedron::Icosahedron => 4,
        }
    }

    /// The number that stands for the solid in an identifier.
    pub fn id(&self) -> (n: u8)
        ensures
            n == self.spec_id(),
    {
        match self {
            UnitPolyhedron::Tetrahedron => 0,
            UnitPolyhedron::Cube => 1,
            UnitPolyhedron::Octahedron => 2,
            UnitPolyhedron::Dodecahedron => 3,
            UnitPolyhedron::Icosahedron => 4,
        }
    }

    /// The solid that a number stands for.
    pub open spec fn spec_from_id(n: u8) -> Result<UnitPolyhedron, DggsError> {
        if n == 0 {
            Ok(UnitPolyhedron::Tetrahedron)
        } else if n == 1 {
            Ok(UnitPolyhedron::Cube)
        } else if n == 2 {
            Ok(UnitPolyhedron::Octahedron)
        } else if n == 3 {
            Ok(UnitPolyhedron::Dodecahedron)
        } else if n == 4 {
            Ok(UnitPolyhedron::Icosahedron)
        } else {
            Err(DggsError::UnsupportedBaseSolid)
        }
    }

    /// The solid that a number stands for; numbers above 4 name none.
    pub fn from_id(n: u8) -> (r: Result<UnitPolyhedron, DggsError>)
        ensures
            r == Self::spec_from_id(n),
    {
        if n == 0 {
            Ok(UnitPolyhedron::Tetrahedron)
        } else if n == 1 {
            Ok(UnitPolyhedron::Cube)
        } else if n == 2 {
            Ok(UnitPolyhedron::Octahedron)
        } else if n == 3 {
            Ok(UnitPolyhedron::Dodecahedron)
        } else if n == 4 {
            Ok(UnitPolyhedron::Icosahedron)
        } else {
            Err(DggsError::UnsupportedBaseSolid)
        }
    }
}

/// The identifier of a cell, in the narrowest width that holds its lineage.
#[derive(Clone, Copy, Debug, PartialEq, Eq, Structural)]
pub enum CellId {
    U32(u32),
    U64(u64),
    U128(u128),
}

/// The identifier of a radial shell above or below a cell, in one of three
/// widths.
#[derive(Clone, Copy, Debug, PartialEq, Eq, Structural)]
pub enum ElevationId {
    U32(u32),
    U64(u64),
    U128(u128),
}

/// The identifier of a volume: a cell and the shell that it is expanded to.
#[derive(Clone, Copy, Debug, PartialEq, Eq, Structural)]
pub struct VolumeId {
    pub cell: CellId,
    pub elevation: ElevationId,
}

/// Bits that one step of the hierarchy takes under a refinement ratio, where
/// the ratio is supported.
pub open spec fn spec_step_bits(refinement_ratio: u8) -> Option<usize> {
    if refinement_ratio == 3 || refinement_ratio == 4 {
        Some(2usize)
    } else if refinement_ratio == 7 {
        Some(3usize)
    } else {
        None
    }
}

/// Bits that a lineage of `steps` hierarchy steps takes, each `step_bits` wide.
pub open spec fn spec_total_bits(step_bits: usize, steps: nat) -> nat {
    HIERARCHY_OFFSET as nat + steps * step_bits as nat
}

/// The flag, the solid, the level and the face, each at its place.
pub open spec fn spec_pack_header(seven: bool, solid: u8, level: u8, face: u8) -> u128 {
    (if seven { 1u128 } else { 0u128 })
        | ((solid as u128) << 1u128)
        | ((level as u128) << 4u128)
        | ((face as u128) << 9u128)
}

/// The place of step `i` of the hierarchy.
pub open spec fn spec_step_offset(step_bits: usize, i: nat) -> nat {
    HIERARCHY_OFFSET as nat + i * step_bits as nat
}

/// `bits` with the steps of `hierarchy` laid over it, step `i` at its place.
pub open spec fn spec_pack_steps(bits: u128, hierarchy: Seq<u8>, step_bits: usize) -> u128
    decreases hierarchy.len(),
{
    if hierarchy.len() == 0 {
        bits
    } else {
        spec_pack_steps(bits, hierarchy.drop_last(), step_bits)
            | ((hierarchy.last() as u128) << (spec_step_offset(step_bits, (hierarchy.len() - 1) as nat) as u128))
    }
}

/// The identifier that holds `bits`, where the lineage takes `total` bits.
pub open spec fn spec_select_width(bits: u128, total: nat) -> CellId {
    if total <= 32 {
        CellId::U32((bits & 0xffff_ffffu128) as u32)
    } else if total <= 64 {
        CellId::U64((bits & 0xffff_ffff_ffff_ffffu128) as u64)
    } else {
        CellId::U128(bits)
    }
}

/// The mask of one hierarchy step.
pub open spec fn spec_step_mask(step_bits: usize) -> u128 {
    if step_bits == 2 {
        3u128
    } else {
        7u128
    }
}

/// The ratio flag held in `bits`.
pub open spec fn spec_flag_of(bits: u128) -> bool {
    bits & 1u128 == 1u128
}

/// The base solid number held in `bits`.
pub open spec fn spec_solid_of(bits: u128) -> u128 {
    (bits >> 1u128) & 7u128
}

/// The refinement level held in `bits`.
pub open spec fn spec_level_of(bits: u128) -> u128 {
    (bits >> 4u128) & 31u128
}

/// The face held in `bits`.
pub open spec fn spec_face_of(bits: u128) -> u128 {
    (bits >> 9u128) & 31u128
}

/// Step `i` of the hierarchy held in `bits`, for steps that lie within 128 bits.
pub open spec fn spec_step_of(bits: u128, step_bits: usize, i: nat) -> u128 {
    (bits >> (spec_step_offset(step_bits, i) as u128)) & spec_step_mask(step_bits)
}

/// Every field of the lineage fits the bits that the identifier gives it.
pub open spec fn spec_fields_fit(
    step_bits: usize,
    refinement_level: u8,
    face_id: u8,
    hierarchy: Seq<u8>,
) -> bool {
    &&& refinement_level < 32
    &&& face_id < 32
    &&& forall|i: int| 0 <= i < hierarchy.len() ==> #[trigger] hierarchy[i] as u128 <= spec_step_mask(step_bits)
}

impl CellId {
    /// What `new` returns.
    pub open spec fn spec_new(
        refinement_ratio: u8,
        initial_discrete_global_grid: UnitPolyhedron,
        refinement_level: u8,
        face_id: u8,
        hierarchy: Seq<u8>,
    ) -> Result<CellId, DggsError> {
        match spec_step_bits(refinement_ratio) {
            None => Err(DggsError::UnsupportedRefinementRatio),
            Some(step_bits) => {
                let total = spec_total_bits(step_bits, hierarchy.len());
                if total > MAX_BITS {
                    Err(DggsError::EncodingOverflow)
                } else {
                    let header = spec_pack_header(
                        refinement_ratio == 7,
                        initial_discrete_global_grid.spec_id(),
                        refinement_level,
                        face_id,
                    );
                    Ok(spec_select_width(spec_pack_steps(header, hierarchy, step_bits), total))
                }
            },
        }
    }

    /// The bits of the identifier, as a number.
    pub open spec fn spec_bits(self) -> u128 {
        match self {
            CellId::U32(b) => b as u128,
            CellId::U64(b) => b as u128,
            CellId::U128(b) => b,
        }
    }

    /// The width of the identifier.
    pub open spec fn spec_bit_length(self) -> u32 {
        match self {
            CellId::U32(_) => 32,
            CellId::U64(_) => 64,
            CellId::U128(_) => 128,
        }
    }

    /// Packs the lineage of a cell.
    ///
    /// Fails with `UnsupportedRefinementRatio` when the ratio is none of 3, 4
    /// and 7, and with `EncodingOverflow` when the lineage takes more than 128
    /// bits. Otherwise every field is laid over the bits from its place on.
    pub fn new(
        refinement_ratio: u8,
        initial_discrete_global_grid: UnitPolyhedron,
        refinement_level: u8,
        face_id: u8,
        hierarchy: &[u8],
    ) -> (r: Result<CellId, DggsError>)
        ensures
            r == Self::spec_new(
                refinement_ratio,
                initial_discrete_global_grid,
                refinement_level,
                face_id,
                hierarchy@,
            ),
    {
        let step_bits: usize = if refinement_ratio == 3 || refinement_ratio == 4 {
            2
        } else if refinement_ratio == 7 {
            3
        } else {
            return Err(DggsError::UnsupportedRefinementRatio);
        };
        let steps: usize = hierarchy.len();
        let room: usize = (MAX_BITS - HIERARCHY_OFFSET) / step_bits;
        assert(room == if step_bits == 2 { 57usize } else { 38usize });
        if steps > room {
            assert(spec_total_bits(step_bits, steps as nat) > MAX_BITS) by (nonlinear_arith)
                requires
                    step_bits == 2 && steps > 57 || step_bits == 3 && steps > 38,
            ;
            return Err(DggsError::EncodingOverflow);
        }
        assert(spec_total_bits(step_bits, steps as nat) <= MAX_BITS) by (nonlinear_arith)
            requires
                step_bits == 2 && steps <= 57 || step_bits == 3 && steps <= 38,
        ;
        let total: usize = HIERARCHY_OFFSET + steps * step_bits;

        let flag: u128 = if refinement_ratio == 7 { 1 } else { 0 };
        let mut bits: u128 = flag
            | ((initial_discrete_global_grid.id() as u128) << 1u128)
            | ((refinement_level as u128) << 4u128)
            | ((face_id as u128) << 9u128);
        let ghost header = bits;

        let mut i: usize = 0;
        while i < steps
            invariant
                0 <= i <= steps,
                steps == hierarchy@.len(),
                step_bits == 2 || step_bits == 3,
                spec_total_bits(step_bits, steps as nat) <= MAX_BITS,
                bits == spec_pack_steps(header, hierarchy@.take(i as int), step_bits),
            decreases steps - i,
        {
            assert(HIERARCHY_OFFSET + i * step_bits + step_bits <= MAX_BITS) by (nonlinear_arith)
                requires
                    i < steps,
                    step_bits == 2 || step_bits == 3,
                    HIERARCHY_OFFSET + steps * step_bits <= MAX_BITS,
            ;
            let offset: usize = HIERARCHY_OFFSET + i * step_bits;
            proof {
                let next = hierarchy@.take(i + 1);
                assert(next.drop_last() =~= hierarchy@.take(i as int));
                assert(next.last() == hierarchy@[i as int]);
            }
            bits = bits | ((hierarchy[i] as u128) << (offset as u128));
            i = i + 1;
        }
        assert(hierarchy@.take(steps as int) =~= hierarchy@);

        if total <= 32 {
            let low: u128 = bits & 0xffff_ffffu128;
            assert(low <= 0xffff_ffffu128) by (bit_vector)
                requires
                    low == bits & 0xffff_ffffu128,
            ;
            Ok(CellId::U32(low as u32))
        } else if total <= 64 {
            let low: u128 = bits & 0xffff_ffff_ffff_ffffu128;
            assert(low <= 0xffff_ffff_ffff_ffffu128) by (bit_vector)
                requires
                    low == bits & 0xffff_ffff_ffff_ffffu128,
            ;
            Ok(CellId::U64(low as u64))
        } else {
            Ok(CellId::U128(bits))
        }
    }

    /// The bits of the identifier, as a number.
    pub fn bits(&self) -> (b: u128)
        ensures
            b == self.spec_bits(),
    {
        match self {
            CellId::U32(b) => *b as u128,
            CellId::U64(b) => *b as u128,
            CellId::U128(b) => *b,
        }
    }

    /// The width of the identifier: 32, 64 or 128.
    pub fn bit_length(&self) -> (n: u32)
        ensures
            n == self.spec_bit_length(),
    {
        match self {
            CellId::U32(_) => 32,
            CellId::U64(_) => 64,
            CellId::U128(_) => 128,
        }
    }

    /// Bits of one hierarchy step, as the ratio flag of the identifier gives them.
    pub open spec fn spec_own_step_bits(self) -> usize {
        if spec_flag_of(self.spec_bits()) {
            3
        } else {
            2
        }
    }

    /// Whether the identifier was made with the refinement ratio 7.
    pub fn is_ratio_seven(&self) -> (seven: bool)
        ensures
            seven == spec_flag_of(self.spec_bits()),
    {
        self.bits() & 1u128 == 1u128
    }

    /// The base solid that the identifier names; `UnsupportedBaseSolid` when
    /// its number names none.
    pub fn base_solid(&self) -> (r: Result<UnitPolyhedron, DggsError>)
        ensures
            r == UnitPolyhedron::spec_from_id(spec_solid_of(self.spec_bits()) as u8),
    {
        let bits: u128 = self.bits();
        let n: u128 = (bits >> 1u128) & 7u128;
        assert(n <= 7) by (bit_vector)
            requires
                n == (bits >> 1u128) & 7u128,
        ;
        UnitPolyhedron::from_id(n as u8)
    }

    /// The refinement level that the identifier holds.
    pub fn refinement_level(&self) -> (level: u8)
        ensures
            level == spec_level_of(self.spec_bits()),
    {
        let bits: u128 = self.bits();
        let n: u128 = (bits >> 4u128) & 31u128;
        assert(n <= 31) by (bit_vector)
            requires
                n == (bits >> 4u128) & 31u128,
        ;
        n as u8
    }

    /// The face that the identifier holds.
    pub fn face_id(&self) -> (face: u8)
        ensures
            face == spec_face_of(self.spec_bits()),
    {
        let bits: u128 = self.bits();
        let n: u128 = (bits >> 9u128) & 31u128;
        assert(n <= 31) by (bit_vector)
            requires
                n == (bits >> 9u128) & 31u128,
        ;
        n as u8
    }

    /// Step `i` of the hierarchy that the identifier holds, where that step
    /// lies within 128 bits.
    pub fn hierarchy_index(&self, i: usize) -> (r: Option<u8>)
        ensures
            r == if spec_step_offset(self.spec_own_step_bits(), i as nat)
                + self.spec_own_step_bits() <= MAX_BITS {
                Some(spec_step_of(self.spec_bits(), self.spec_own_step_bits(), i as nat) as u8)
            } else {
                None
            },
    {
        let bits: u128 = self.bits();
        let step_bits: usize = if self.is_ratio_seven() { 3 } else { 2 };
        let room: usize = (MAX_BITS - HIERARCHY_OFFSET - step_bits) / step_bits;
        assert(room == if step_bits == 2 { 56usize } else { 37usize });
        if i > room {
            assert(spec_step_offset(step_bits, i as nat) + step_bits > MAX_BITS) by (nonlinear_arith)
                requires
                    step_bits == 2 && i > 56 || step_bits == 3 && i > 37,
            ;
            return None;
        }
        assert(spec_step_offset(step_bits, i as nat) + step_bits <= MAX_BITS) by (nonlinear_arith)
            requires
                step_bits == 2 && i <= 56 || step_bits == 3 && i <= 37,
        ;
        let offset: usize = HIERARCHY_OFFSET + i * step_bits;
        let mask: u128 = if step_bits == 2 { 3 } else { 7 };
        let n: u128 = (bits >> (offset as u128)) & mask;
        assert(n <= 7) by (bit_vector)
            requires
                n == (bits >> (offset as u128)) & mask,
                mask == 3 || mask == 7,
        ;
        Some(n as u8)
    }
}


proof fn lemma_header_fields(flag: u128, solid: u128, level: u128, face: u128)
    by (bit_vector)
    requires
        flag <= 1,
        solid <= 7,
        level <= 31,
        face <= 31,
    ensures
        ({
            let h = flag | (solid << 1u128) | (level << 4u128) | (face << 9u128);
            &&& h & 1u128 == flag
            &&& (h >> 1u128) & 7u128 == solid
            &&& (h >> 4u128) & 31u128 == level
            &&& (h >> 9u128) & 31u128 == face
            &&& h >> 14u128 == 0
        }),
{
}

proof fn lemma_step_written(a: u128, x: u128, off: u128, width: u128, mask: u128)
    by (bit_vector)
    requires
        width == 2 && mask == 3 || width == 3 && mask == 7,
        14 <= off,
        off + width <= 128,
        a >> off == 0,
        x <= mask,
    ensures
        ((a | (x << off)) >> off) & mask == x,
        off + width < 128 ==> (a | (x << off)) >> ((off + width) as u128) == 0,
        (a | (x << off)) & 1u128 == a & 1u128,
        ((a | (x << off)) >> 1u128) & 7u128 == (a >> 1u128) & 7u128,
        ((a | (x << off)) >> 4u128) & 31u128 == (a >> 4u128) & 31u128,
        ((a | (x << off)) >> 9u128) & 31u128 == (a >> 9u128) & 31u128,
{
}

proof fn lemma_step_kept(a: u128, x: u128, off: u128, below: u128, width: u128, mask: u128)
    by (bit_vector)
    requires
        width == 2 && mask == 3 || width == 3 && mask == 7,
        below + width <= off,
        off < 128,
    ensures
        ((a | (x << off)) >> below) & mask == (a >> below) & mask,
{
}

proof fn lemma_low_bits(bits: u128, total: u128)
    by (bit_vector)
    requires
        14 <= total < 128,
        bits >> total == 0,
    ensures
        total <= 32 ==> bits & 0xffff_ffffu128 == bits && bits <= 0xffff_ffffu128,
        total <= 64 ==> bits & 0xffff_ffff_ffff_ffffu128 == bits && bits <= 0xffff_ffff_ffff_ffffu128,
{
}

/// The steps laid over a header leave the header as it is, can each be read
/// back, and set no bit above the last step.
proof fn lemma_steps_recoverable(header: u128, hierarchy: Seq<u8>, step_bits: usize)
    requires
        step_bits == 2 || step_bits == 3,
        header >> 14u128 == 0,
        spec_total_bits(step_bits, hierarchy.len()) <= MAX_BITS,
        forall|i: int| 0 <= i < hierarchy.len() ==> #[trigger] hierarchy[i] as u128 <= spec_step_mask(step_bits),
    ensures
        ({
            let bits = spec_pack_steps(header, hierarchy, step_bits);
            let total = spec_total_bits(step_bits, hierarchy.len());
            &&& total < 128 ==> bits >> (total as u128) == 0
            &&& spec_flag_of(bits) == spec_flag_of(header)
            &&& spec_solid_of(bits) == spec_solid_of(header)
            &&& spec_level_of(bits) == spec_level_of(header)
            &&& spec_face_of(bits) == spec_face_of(header)
            &&& forall|i: int| 0 <= i < hierarchy.len() ==> #[trigger] spec_step_of(bits, step_bits, i as nat) == hierarchy[i] as u128
        }),
    decreases hierarchy.len(),
{
    if hierarchy.len() > 0 {
        let front = hierarchy.drop_last();
        let last: int = hierarchy.len() - 1;
        assert(spec_total_bits(step_bits, front.len()) + step_bits == spec_total_bits(step_bits, hierarchy.len())) by (nonlinear_arith)
            requires
                front.len() + 1 == hierarchy.len(),
        ;
        assert forall|i: int| 0 <= i < front.len() implies #[trigger] front[i] as u128 <= spec_step_mask(step_bits) by {
            assert(front[i] == hierarchy[i]);
        }
        lemma_steps_recoverable(header, front, step_bits);
        let a = spec_pack_steps(header, front, step_bits);
        let x = hierarchy.last() as u128;
        let off = spec_step_offset(step_bits, last as nat) as u128;
        let mask = spec_step_mask(step_bits);
        let bits = spec_pack_steps(header, hierarchy, step_bits);
        assert(bits == a | (x << off));
        assert(hierarchy[last] as u128 <= mask);
        lemma_step_written(a, x, off, step_bits as u128, mask);
        assert forall|i: int| 0 <= i < hierarchy.len() implies #[trigger] spec_step_of(bits, step_bits, i as nat) == hierarchy[i] as u128 by {
            if i < last {
                let below = spec_step_offset(step_bits, i as nat) as u128;
                assert(below + step_bits <= off) by (nonlinear_arith)
                    requires
                        below == 14 + i * step_bits,
                        off == 14 + last * step_bits,
                        0 <= i < last,
                        step_bits == 2 || step_bits == 3,
                ;
                lemma_step_kept(a, x, off, below, step_bits as u128, mask);
                assert(spec_step_of(a, step_bits, i as nat) == front[i] as u128);
            }
        }
    }
}

/// An identifier made from a lineage whose fields fit their bits holds each
/// field unchanged: the flag tells the ratio 7 from 3 and 4, and the solid,
/// the level, the face and every step of the hierarchy can be read back. Its
/// bits are the packed lineage itself, whatever width was selected.
pub proof fn lemma_cell_id_keeps_lineage(
    refinement_ratio: u8,
    initial_discrete_global_grid: UnitPolyhedron,
    refinement_level: u8,
    face_id: u8,
    hierarchy: Seq<u8>,
)
    requires
        spec_step_bits(refinement_ratio) is Some,
        spec_total_bits(spec_step_bits(refinement_ratio)->0, hierarchy.len()) <= MAX_BITS,
        spec_fields_fit(spec_step_bits(refinement_ratio)->0, refinement_level, face_id, hierarchy),
    ensures
        ({
            let step_bits = spec_step_bits(refinement_ratio)->0;
            let made = CellId::spec_new(
                refinement_ratio,
                initial_discrete_global_grid,
                refinement_level,
                face_id,
                hierarchy,
            );
            &&& made is Ok
            &&& spec_flag_of(made->Ok_0.spec_bits()) == (refinement_ratio == 7)
            &&& spec_solid_of(made->Ok_0.spec_bits()) == initial_discrete_global_grid.spec_id()
            &&& spec_level_of(made->Ok_0.spec_bits()) == refinement_level
            &&& spec_face_of(made->Ok_0.spec_bits()) == face_id
            &&& forall|i: int| 0 <= i < hierarchy.len() ==> #[trigger] spec_step_of(made->Ok_0.spec_bits(), step_bits, i as nat) == hierarchy[i]
        }),
{
    let step_bits = spec_step_bits(refinement_ratio)->0;
    let flag: u128 = if refinement_ratio == 7 { 1 } else { 0 };
    let solid = initial_discrete_global_grid.spec_id();
    let header = spec_pack_header(refinement_ratio == 7, solid, refinement_level, face_id);
    lemma_header_fields(flag, solid as u128, refinement_level as u128, face_id as u128);
    lemma_steps_recoverable(header, hierarchy, step_bits);
    let bits = spec_pack_steps(header, hierarchy, step_bits);
    let total = spec_total_bits(step_bits, hierarchy.len());
    if total < 128 {
        lemma_low_bits(bits, total as u128);
    }
    let made = CellId::spec_new(
        refinement_ratio,
        initial_discrete_global_grid,
        refinement_level,
        face_id,
        hierarchy,
    );
    assert(made->Ok_0.spec_bits() == bits);
    assert forall|i: int| 0 <= i < hierarchy.len() implies #[trigger] spec_step_of(made->Ok_0.spec_bits(), step_bits, i as nat) == hierarchy[i] by {
        assert(spec_step_of(bits, step_bits, i as nat) == hierarchy[i] as u128);
    }
}


/// The number that the steps of a hierarchy add to an identifier: step `i`
/// times two to the power of its place.
pub open spec fn spec_steps_number(hierarchy: Seq<u8>, step_bits: usize) -> nat
    decreases hierarchy.len(),
{
    if hierarchy.len() == 0 {
        0
    } else {
        spec_steps_number(hierarchy.drop_last(), step_bits) + hierarchy.last() as nat * pow2(
            spec_step_offset(step_bits, (hierarchy.len() - 1) as nat),
        )
    }
}

/// The number that a lineage writes: each field times two to the power of
/// its place, all added up.
pub open spec fn spec_lineage_number(
    seven: bool,
    solid: u8,
    level: u8,
    face: u8,
    hierarchy: Seq<u8>,
    step_bits: usize,
) -> nat {
    (if seven { 1nat } else { 0nat }) + 2 * solid as nat + 16 * level as nat + 512 * face as nat
        + spec_steps_number(hierarchy, step_bits)
}

proof fn lemma_shift_is_product(x: u128, shift: u128)
    requires
        shift < 128,
        x * pow2(shift as nat) <= u128::MAX,
    ensures
        x << shift == x * pow2(shift as nat),
    decreases shift,
{
    if shift == 0 {
        assert(x << 0u128 == x) by (bit_vector);
        lemma_pow2_unfold(1);
        lemma2_to64();
    } else {
        let less = (shift - 1) as u128;
        lemma_pow2_unfold(shift as nat);
        assert(pow2(shift as nat) == 2 * pow2(less as nat));
        assert(x * pow2(shift as nat) == 2 * (x * pow2(less as nat))) by (nonlinear_arith)
            requires
                pow2(shift as nat) == 2 * pow2(less as nat),
        ;
        lemma_shift_is_product(x, less);
        let half = x << less;
        assert(half <= 0x7fff_ffff_ffff_ffff_ffff_ffff_ffff_ffffu128);
        assert(x << shift == 2 * half) by (bit_vector)
            requires
                0 < shift < 128,
                less == shift - 1,
                half == x << less,
                half <= 0x7fff_ffff_ffff_ffff_ffff_ffff_ffff_ffffu128,
        ;
    }
}

proof fn lemma_disjoint_or_is_sum(a: u128, x: u128, off: u128)
    by (bit_vector)
    requires
        a >> off == 0,
        x <= 3 && off <= 126 || x <= 7 && off <= 125,
    ensures
        a | (x << off) == a + (x << off),
        (x << off) >> off == x,
{
}

proof fn lemma_header_number(flag: u128, solid: u128, level: u128, face: u128)
    by (bit_vector)
    requires
        flag <= 1,
        solid <= 7,
        level <= 31,
        face <= 31,
    ensures
        flag | (solid << 1u128) | (level << 4u128) | (face << 9u128) == flag + 2 * solid + 16
            * level + 512 * face,
{
}

proof fn lemma_steps_number(header: u128, hierarchy: Seq<u8>, step_bits: usize)
    requires
        step_bits == 2 || step_bits == 3,
        header >> 14u128 == 0,
        spec_total_bits(step_bits, hierarchy.len()) <= MAX_BITS,
        forall|i: int| 0 <= i < hierarchy.len() ==> #[trigger] hierarchy[i] as u128 <= spec_step_mask(step_bits),
    ensures
        spec_pack_steps(header, hierarchy, step_bits) == header + spec_steps_number(
            hierarchy,
            step_bits,
        ),
    decreases hierarchy.len(),
{
    if hierarchy.len() > 0 {
        let front = hierarchy.drop_last();
        let last: int = hierarchy.len() - 1;
        assert(spec_total_bits(step_bits, front.len()) + step_bits == spec_total_bits(step_bits, hierarchy.len())) by (nonlinear_arith)
            requires
                front.len() + 1 == hierarchy.len(),
        ;
        assert forall|i: int| 0 <= i < front.len() implies #[trigger] front[i] as u128 <= spec_step_mask(step_bits) by {
            assert(front[i] == hierarchy[i]);
        }
        lemma_steps_number(header, front, step_bits);
        lemma_steps_recoverable(header, front, step_bits);
        let a = spec_pack_steps(header, front, step_bits);
        let x = hierarchy.last() as u128;
        let off = spec_step_offset(step_bits, last as nat) as u128;
        assert(off == spec_total_bits(step_bits, front.len()));
        assert(hierarchy[last] as u128 <= spec_step_mask(step_bits));
        assert(off + step_bits <= 128);
        lemma_disjoint_or_is_sum(a, x, off);
        let moved = x << off;
        assert(moved == x * pow2(off as nat)) by {
            lemma_place_fits(x, off);
            lemma_shift_is_product(x, off);
        }
    }
}

/// A step that ends at or below the top bit fits 128 bits.
proof fn lemma_place_fits(x: u128, off: u128)
    requires
        x <= 3 && off <= 126 || x <= 7 && off <= 125,
    ensures
        x * pow2(off as nat) <= u128::MAX,
{
    lemma_pow2_adds(63, 63);
    lemma2_to64_rest();
    assert(pow2(126) == 0x4000_0000_0000_0000_0000_0000_0000_0000) by (nonlinear_arith)
        requires
            pow2(126) == pow2(63) * pow2(63),
            pow2(63) == 0x8000_0000_0000_0000,
    ;
    lemma_pow2_unfold(126);
    if off < 125 {
        lemma_pow2_strictly_increases(off as nat, 125);
    }
    if off <= 125 {
        assert(x * pow2(off as nat) <= 7 * pow2(125)) by (nonlinear_arith)
            requires
                x <= 7,
                pow2(off as nat) <= pow2(125),
        ;
    } else {
        assert(x * pow2(126) <= 3 * pow2(126)) by (nonlinear_arith)
            requires
                x <= 3,
        ;
    }
}

/// An identifier made from a lineage whose fields fit their bits is the sum
/// of its fields, each times two to the power of its place: the flag at 0,
/// the solid at 1, the level at 4, the face at 9, and step `i` of the
/// hierarchy at 14 plus `i` times the width of a step.
pub proof fn lemma_cell_id_is_sum_of_fields(
    refinement_ratio: u8,
    initial_discrete_global_grid: UnitPolyhedron,
    refinement_level: u8,
    face_id: u8,
    hierarchy: Seq<u8>,
)
    requires
        spec_step_bits(refinement_ratio) is Some,
        spec_total_bits(spec_step_bits(refinement_ratio)->0, hierarchy.len()) <= MAX_BITS,
        spec_fields_fit(spec_step_bits(refinement_ratio)->0, refinement_level, face_id, hierarchy),
    ensures
        CellId::spec_new(
            refinement_ratio,
            initial_discrete_global_grid,
            refinement_level,
            face_id,
            hierarchy,
        ) is Ok,
        CellId::spec_new(
            refinement_ratio,
            initial_discrete_global_grid,
            refinement_level,
            face_id,
            hierarchy,
        )->Ok_0.spec_bits() == spec_lineage_number(
            refinement_ratio == 7,
            initial_discrete_global_grid.spec_id(),
            refinement_level,
            face_id,
            hierarchy,
            spec_step_bits(refinement_ratio)->0,
        ),
{
    let step_bits = spec_step_bits(refinement_ratio)->0;
    let flag: u128 = if refinement_ratio == 7 { 1 } else { 0 };
    let solid = initial_discrete_global_grid.spec_id();
    let header = spec_pack_header(refinement_ratio == 7, solid, refinement_level, face_id);
    lemma_header_fields(flag, solid as u128, refinement_level as u128, face_id as u128);
    lemma_header_number(flag, solid as u128, refinement_level as u128, face_id as u128);
    lemma_steps_recoverable(header, hierarchy, step_bits);
    lemma_steps_number(header, hierarchy, step_bits);
    let bits = spec_pack_steps(header, hierarchy, step_bits);
    let total = spec_total_bits(step_bits, hierarchy.len());
    if total < 128 {
        lemma_low_bits(bits, total as u128);
    }
}

} // verus!
