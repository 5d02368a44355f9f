//! Consistency of the initial conditions: the positions and the velocities
//! are tables with one row of three components per body, and there is one
//! mass per body.

use vstd::prelude::*;

verus! {

/// Number of components of a position or a velocity.
pub const DIMENSIONS: usize = 3;

/// Rows and columns of a table of numbers.
#[derive(Clone, Copy, Debug, PartialEq, Eq)]
pub struct TableShape {
    pub rows: usize,
    pub cols: usize,
}

/// The part of the initial conditions that does not fit the body count.
#[derive(Clone, Copy, Debug, PartialEq, Eq)]
pub enum ShapeError {
    /// The positions are not `bodies` rows of three components.
    Positions { bodies: usize, found: TableShape },
    /// The velocities are not `bodies` rows of three components.
    Velocities { bodies: usize, found: TableShape },
    /// There are not `bodies` masses.
    Masses { bodies: usize, found: usize },
}

/// The dimensions of a set of initial conditions, as they were supplied.
#[derive(Clone, Copy, Debug, PartialEq, Eq)]
pub struct InitialShape {
    /// The declared number of bodies.
    pub bodies: usize,
    /// Shape of the table of positions.
    pub positions: TableShape,
    /// Shape of the table of velocities.
    pub velocities: TableShape,
    /// Number of masses.
    pub masses: usize,
}

impl TableShape {
    /// Whether the table holds one vector for each of `bodies` bodies.
    pub open spec fn fits(self, bodies: usize) -> bool {
        self.rows == bodies && self.cols == DIMENSIONS
    }
}

impl InitialShape {
    /// Whether positions, velocities and masses are index-aligned: each has
    /// exactly one entry for every body.
    pub open spec fn consistent(self) -> bool {
        &&& self.positions.fits(self.bodies)
        &&& self.velocities.fits(self.bodies)
        &&& self.masses == self.bodies
    }

    /// The first part that does not fit, looking at the positions, then the
    /// velocities, then the masses.
    pub open spec fn mismatch(self) -> Option<ShapeError> {
        if !self.positions.fits(self.bodies) {
            Some(ShapeError::Positions { bodies: self.bodies, found: self.positions })
        } else if !self.velocities.fits(self.bodies) {
            Some(ShapeError::Velocities { bodies: self.bodies, found: self.velocities })
        } else if self.masses != self.bodies {
            Some(ShapeError::Masses { bodies: self.bodies, found: self.masses })
        } else {
            None
        }
    }

    /// Accepts consistent initial conditions and reports the first part of
    /// inconsistent ones that does not fit.
    pub fn validate(&self) -> (r: Result<(), ShapeError>)
        ensures
            r is Ok <==> self.consistent(),
            match self.mismatch() {
                Some(e) => r == Err::<(), ShapeError>(e),
                None => r is Ok,
            },
    {
        if self.positions.rows != self.bodies || self.positions.cols != DIMENSIONS {
            Err(ShapeError::Positions { bodies: self.bodies, found: self.positions })
        } else if self.velocities.rows != self.bodies || self.velocities.cols != DIMENSIONS {
            Err(ShapeError::Velocities { bodies: self.bodies, found: self.velocities })
        } else if self.masses != self.bodies {
            Err(ShapeError::Masses { bodies: self.bodies, found: self.masses })
        } else {
            Ok(())
        }
    }
}

} // verus!
