//! Material categories, their physics classes, and the threshold table that
//! maps a combined noise value and a depth to a material.

use vstd::prelude::*;

verus! {

/// The closed set of material categories a cell can hold.
#[derive(Clone, Copy, Debug, PartialEq, Eq, Structural)]
pub enum MineralType {
    Empty,
    Iron,
    Copper,
    Gold,
    Silver,
    Uranium,
    Diamond,
    Coal,
}

/// The physics class of a material, which governs whether the automaton may
/// move it.
#[derive(Clone, Copy, Debug, PartialEq, Eq, Structural)]
pub enum PhysicsType {
    /// Void: other material can move into this cell.
    Empty,
    /// Structural: never moves.
    Solid,
    /// Falls like sand toward much lower terrain.
    Granular,
    /// Flows like liquid toward moderately lower terrain.
    Flowing,
}

/// The physics class of each material category.
pub open spec fn spec_physics(m: MineralType) -> PhysicsType {
    match m {
        MineralType::Empty => PhysicsType::Empty,
        MineralType::Diamond | MineralType::Uranium => PhysicsType::Solid,
        MineralType::Coal | MineralType::Iron | MineralType::Copper => PhysicsType::Granular,
        MineralType::Gold | MineralType::Silver => PhysicsType::Flowing,
    }
}

/// The material chosen for a combined terrain value (in five-thousandths of
/// the unit value) at row `y` of a grid `h` rows tall.  The table is ordered:
/// each row is an exclusive upper bound on the combined value, and some rows
/// also require a minimum depth factor `y / h`; a row whose depth gate fails
/// is skipped and evaluation falls through to the next row.
pub open spec fn spec_material(combined: int, y: int, h: int) -> MineralType {
    if combined < -2000 {
        MineralType::Empty
    } else if combined < -1000 && 5 * y > 3 * h {
        MineralType::Uranium
    } else if combined < 0 {
        MineralType::Coal
    } else if combined < 1000 {
        MineralType::Iron
    } else if combined < 2000 {
        MineralType::Copper
    } else if combined < 3000 && 2 * y > h {
        MineralType::Silver
    } else if combined < 4000 && 10 * y > 7 * h {
        MineralType::Gold
    } else if combined < 5000 && 5 * y > 4 * h {
        MineralType::Diamond
    } else {
        MineralType::Empty
    }
}

impl MineralType {
    /// The physics class this material belongs to.
    pub fn physics_type(&self) -> (p: PhysicsType)
        ensures
            p == spec_physics(*self),
    {
        match self {
            MineralType::Empty => PhysicsType::Empty,
            MineralType::Diamond | MineralType::Uranium => PhysicsType::Solid,
            MineralType::Coal | MineralType::Iron | MineralType::Copper => PhysicsType::Granular,
            MineralType::Gold | MineralType::Silver => PhysicsType::Flowing,
        }
    }

    /// Classifies a combined terrain value (five-thousandths of the unit
    /// value) sampled at row `y` of a grid `h` rows tall.
    pub fn from_noise_value(combined: i64, y: usize, h: usize) -> (m: MineralType)
        requires
            1 <= h,
            y < h,
        ensures
            m == spec_material(combined as int, y as int, h as int),
    {
        let yw: u128 = y as u128;
        let hw: u128 = h as u128;
        if combined < -2000 {
            MineralType::Empty
        } else if combined < -1000 && 5 * yw > 3 * hw {
            MineralType::Uranium
        } else if combined < 0 {
            MineralType::Coal
        } else if combined < 1000 {
            MineralType::Iron
        } else if combined < 2000 {
            MineralType::Copper
        } else if combined < 3000 && 2 * yw > hw {
            MineralType::Silver
        } else if combined < 4000 && 10 * yw > 7 * hw {
            MineralType::Gold
        } else if combined < 5000 && 5 * yw > 4 * hw {
            MineralType::Diamond
        } else {
            MineralType::Empty
        }
    }
}

} // verus!
