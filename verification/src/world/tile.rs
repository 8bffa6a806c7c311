use vstd::prelude::*;

use crate::world::TILE_YIELD;

verus! {

/// The fields packed into a tile's byte.
#[derive(Copy, Clone, Debug, PartialEq, Eq, Structural)]
pub struct TileParts {
    /// Bits 5 to 7: the biome (0 to 7).
    pub biome: u8,
    /// Bit 4: whether the tile is improved (0 or 1).
    pub improved: u8,
    /// Bits 1 to 3: the resource (0 to 7).
    pub resource: u8,
    /// Bit 0: whether the tile is occupied (0 or 1).
    pub occupied: u8,
}

/// Unpacks a tile byte into its fields.
pub open spec fn parts_of(info: u8) -> TileParts {
    TileParts {
        biome: (info >> 5u8) & 7u8,
        improved: (info >> 4u8) & 1u8,
        resource: (info >> 1u8) & 7u8,
        occupied: info & 1u8,
    }
}

/// The fields of the byte that `Tile::new(biome, resource)` packs: the
/// resource is shifted into bits 1 upwards, so its bits 3 to 6 spill into the
/// improvement and biome bits.
pub open spec fn new_tile_parts(biome: u16, resource: u16) -> TileParts {
    TileParts {
        biome: ((biome & 7u16) | ((resource >> 4u16) & 7u16)) as u8,
        improved: ((resource >> 3u16) & 1u16) as u8,
        resource: (resource & 7u16) as u8,
        occupied: 0,
    }
}

/// A map tile: biome, improvement, resource and occupation packed in a byte.
#[derive(Copy, Clone, Debug)]
pub struct Tile {
    information: u8,
}

/// How much an improvement multiplies the yield of a tile.
pub const IMPROVEMENT_FACTOR: u32 = 5;

/// What occupying a tile costs of its yield.
pub const OCCUPIED_FACTOR: u32 = 2;

impl View for Tile {
    type V = TileParts;

    closed spec fn view(&self) -> TileParts {
        parts_of(self.information)
    }
}

/// The fields of every tile are within their bit widths.
pub proof fn lemma_tile_parts_bounded(t: Tile)
    ensures
        t@.biome < 8,
        t@.improved < 2,
        t@.resource < 8,
        t@.occupied < 2,
{
    let info = t.information;
    assert((info >> 5u8) & 7u8 < 8 && (info >> 4u8) & 1u8 < 2 && (info >> 1u8) & 7u8 < 8 && info
        & 1u8 < 2) by (bit_vector);
}

/// A new tile built from a biome and a resource below 8 holds exactly that
/// biome and resource, unimproved and unoccupied.
pub proof fn lemma_new_tile_small(biome: u16, resource: u16)
    requires
        biome < 8,
        resource < 8,
    ensures
        new_tile_parts(biome, resource) == (TileParts {
            biome: biome as u8,
            improved: 0,
            resource: resource as u8,
            occupied: 0,
        }),
{
    assert((biome & 7u16) | ((resource >> 4u16) & 7u16) == biome && (resource >> 3u16) & 1u16 == 0u16
        && resource & 7u16 == resource) by (bit_vector)
        requires
            biome < 8,
            resource < 8,
    ;
}

impl Tile {
    /// Packs `biome` into bits 5 to 7 and `resource` from bit 1 upwards, as
    /// `(biome << 5 | resource << 1) as u8` does: higher bits of `resource`
    /// spill into the improvement and biome bits.
    pub fn new(biome: u16, resource: u16) -> (t: Tile)
        ensures
            t@ == new_tile_parts(biome, resource),
    {
        let tile: u16 = biome << 5u16 | resource << 1u16;
        let info = tile as u8;
        assert(((info >> 5u8) & 7u8) as u16 == (biome & 7u16) | ((resource >> 4u16) & 7u16)
            && ((info >> 4u8) & 1u8) as u16 == (resource >> 3u16) & 1u16 && ((info >> 1u8) & 7u8)
            as u16 == resource & 7u16 && info & 1u8 == 0u8) by (bit_vector)
            requires
                tile == biome << 5u16 | resource << 1u16,
                info == tile as u8,
        ;
        Tile { information: info }
    }

    pub fn get_biome(&self) -> (b: u8)
        ensures
            b == self@.biome,
    {
        self.information >> 5u8 & 7u8
    }

    pub fn get_improved(&self) -> (i: u8)
        ensures
            i == self@.improved,
    {
        self.information >> 4u8 & 1u8
    }

    pub fn get_resource(&self) -> (r: u8)
        ensures
            r == self@.resource,
    {
        self.information >> 1u8 & 7u8
    }

    pub fn get_occupied(&self) -> (o: u8)
        ensures
            o == self@.occupied,
    {
        self.information & 1u8
    }

    pub fn set_biome(&mut self, new_biome: u8)
        requires
            new_biome < 8,
        ensures
            final(self)@ == (TileParts { biome: new_biome, ..old(self)@ }),
    {
        let old_info = self.information;
        let info = (old_info & 31u8) | (new_biome << 5u8);
        assert((info >> 5u8) & 7u8 == new_biome && (info >> 4u8) & 1u8 == (old_info >> 4u8) & 1u8
            && (info >> 1u8) & 7u8 == (old_info >> 1u8) & 7u8 && info & 1u8 == old_info & 1u8)
            by (bit_vector)
            requires
                new_biome < 8,
                info == (old_info & 31u8) | (new_biome << 5u8),
        ;
        self.information = info;
    }

    pub fn improve(&mut self)
        ensures
            final(self)@ == (TileParts { improved: 1, ..old(self)@ }),
    {
        let old_info = self.information;
        let info = (old_info & 239u8) | ((1u8 & 1u8) << 4u8);
        assert((info >> 5u8) & 7u8 == (old_info >> 5u8) & 7u8 && (info >> 4u8) & 1u8 == 1u8 && (
        info >> 1u8) & 7u8 == (old_info >> 1u8) & 7u8 && info & 1u8 == old_info & 1u8)
            by (bit_vector)
            requires
                info == (old_info & 239u8) | ((1u8 & 1u8) << 4u8),
        ;
        self.information = info;
    }

    pub fn set_improved(&mut self, improved: u8)
        ensures
            final(self)@ == (TileParts { improved: improved % 2, ..old(self)@ }),
    {
        let old_info = self.information;
        let info = (old_info & 239u8) | ((improved & 1u8) << 4u8);
        assert((info >> 5u8) & 7u8 == (old_info >> 5u8) & 7u8 && (info >> 4u8) & 1u8 == improved
            % 2 && (info >> 1u8) & 7u8 == (old_info >> 1u8) & 7u8 && info & 1u8 == old_info & 1u8)
            by (bit_vector)
            requires
                info == (old_info & 239u8) | ((improved & 1u8) << 4u8),
        ;
        self.information = info;
    }

    pub fn set_resource(&mut self, resource: u8)
        requires
            resource < 8,
        ensures
            final(self)@ == (TileParts { resource: resource, ..old(self)@ }),
    {
        let old_info = self.information;
        let info = (old_info & 241u8) | (resource << 1u8);
        assert((info >> 5u8) & 7u8 == (old_info >> 5u8) & 7u8 && (info >> 4u8) & 1u8 == (old_info
            >> 4u8) & 1u8 && (info >> 1u8) & 7u8 == resource && info & 1u8 == old_info & 1u8)
            by (bit_vector)
            requires
                resource < 8,
                info == (old_info & 241u8) | (resource << 1u8),
        ;
        self.information = info;
    }

    pub fn set_occupied(&mut self, occupied: u8)
        ensures
            final(self)@ == (TileParts { occupied: occupied % 2, ..old(self)@ }),
    {
        let old_info = self.information;
        let info = (old_info & 254u8) | (occupied & 1u8);
        assert((info >> 5u8) & 7u8 == (old_info >> 5u8) & 7u8 && (info >> 4u8) & 1u8 == (old_info
            >> 4u8) & 1u8 && (info >> 1u8) & 7u8 == (old_info >> 1u8) & 7u8 && info & 1u8
            == occupied % 2) by (bit_vector)
            requires
                info == (old_info & 254u8) | (occupied & 1u8),
        ;
        self.information = info;
    }

    /// Returns (biome_id, amount of resource gained): the yield of an improved
    /// tile, less the cost of occupation.
    pub fn harvest(&self) -> (h: (u32, u32))
        requires
            TILE_YIELD * (self@.improved * IMPROVEMENT_FACTOR) >= self@.occupied * OCCUPIED_FACTOR,
        ensures
            h.0 == self@.biome,
            h.1 == TILE_YIELD * (self@.improved * IMPROVEMENT_FACTOR) - self@.occupied
                * OCCUPIED_FACTOR,
    {
        proof {
            lemma_tile_parts_bounded(*self);
        }
        let improve_modifier = self.get_improved() as u32 * IMPROVEMENT_FACTOR;
        let occupied_modifier = self.get_occupied() as u32 * OCCUPIED_FACTOR;
        let kind = self.get_biome() as u32;
        (kind, TILE_YIELD * improve_modifier - occupied_modifier)
    }
}

} // verus!

verus! {

/// The byte of a tile is its fields laid out from the top bit down: biome in
/// bits 5 to 7, improvement in bit 4, resource in bits 1 to 3, occupation in
/// bit 0. So the fields determine the byte, and two tiles with the same
/// fields are the same tile.
pub proof fn lemma_tile_layout(info: u8)
    ensures
        info as int == 32 * parts_of(info).biome + 16 * parts_of(info).improved + 2 * parts_of(
            info,
        ).resource + parts_of(info).occupied,
{
    assert(info == 32 * ((info >> 5u8) & 7u8) + 16 * ((info >> 4u8) & 1u8) + 2 * ((info >> 1u8)
        & 7u8) + (info & 1u8)) by (bit_vector);
}

} // verus!

verus! {

/// A new tile whose resource is below 16 holds the byte `32 * biome +
/// 2 * resource`, wrapped to a byte: the resource fills the bits from 1
/// upwards and the biome the bits from 5 upwards.
pub proof fn lemma_new_tile_byte(biome: u16, resource: u16)
    requires
        resource < 16,
    ensures
        32 * new_tile_parts(biome, resource).biome + 16 * new_tile_parts(biome, resource).improved
            + 2 * new_tile_parts(biome, resource).resource + new_tile_parts(biome, resource).occupied
            == (32 * biome + 2 * resource) % 256,
{
    assert(32 * (((biome & 7u16) | ((resource >> 4u16) & 7u16)) as u8) + 16 * (((resource >> 3u16)
        & 1u16) as u8) + 2 * ((resource & 7u16) as u8) == (32 * biome + 2 * resource) % 256)
        by (bit_vector)
        requires
            resource < 16,
    ;
}

} // verus!
