use vstd::prelude::*;
use crate::direction::MoveDirection;
use crate::error::DasGridError;
use crate::grid::Grid;
use crate::model::GridModel;
use crate::rules::{check_rules, rules_may_be_asked, rules_may_return};

verus! {

/// What a move from `src` to `dst` under `rules` may do to a grid that was
/// `before`: the answer `res` and the grid `after`.
///
/// Both coordinates are checked first. Then the rules are asked about the
/// value that `dst` holds: the move happens if they all accept it, and
/// nothing changes if one refuses.
pub open spec fn mov_with_rules_outcome<T, R: Fn((i32, i32), &T) -> Result<(), DasGridError>>(
    before: GridModel<T>,
    src: (i32, i32),
    dst: (i32, i32),
    rules: Seq<R>,
    res: Result<(), DasGridError>,
    after: GridModel<T>,
) -> bool {
    if before.in_bounds(src) && before.in_bounds(dst) {
        match res {
            Ok(_) => {
                &&& rules_may_return(rules, dst, before.cell(dst), Ok(()))
                &&& after == before.mov(src, dst)
            },
            Err(e) => {
                &&& rules_may_return(rules, dst, before.cell(dst), Err(e))
                &&& after == before
            },
        }
    } else {
        res == Err::<(), DasGridError>(DasGridError::OutOfGrid) && after == before
    }
}

impl<T: Copy> Grid<T> {
    /// Moves the value at `src` to `dest` and leaves the default value at
    /// `src`. Nothing changes unless both coordinates are in the grid.
    pub fn mov(&mut self, src: (i32, i32), dest: (i32, i32)) -> (res: Result<(), DasGridError>)
        requires
            old(self).wf(),
        ensures
            final(self).wf(),
            final(self)@ == old(self)@.mov(src, dest),
            old(self)@.in_bounds(src) && old(self)@.in_bounds(dest) ==> res is Ok,
            !(old(self)@.in_bounds(src) && old(self)@.in_bounds(dest)) ==> res == Err::<
                (),
                DasGridError,
            >(DasGridError::OutOfGrid),
    {
        self.check_grid_bounds(src)?;
        self.check_grid_bounds(dest)?;
        let prev = *self.get(src)?;
        let default_value = self.default_value();
        self.set(src, &default_value)?;
        self.set(dest, &prev)?;
        Ok(())
    }

    /// Moves the value at `src` to `dst` if every rule accepts the value
    /// that `dst` holds now.
    pub fn mov_with_rules<R>(&mut self, src: (i32, i32), dst: (i32, i32), rules: Vec<R>) -> (res:
        Result<(), DasGridError>) where R: Fn((i32, i32), &T) -> Result<(), DasGridError>
        requires
            old(self).wf(),
            old(self)@.in_bounds(src) && old(self)@.in_bounds(dst) ==> rules_may_be_asked(
                rules@,
                dst,
                old(self)@.cell(dst),
            ),
        ensures
            final(self).wf(),
            mov_with_rules_outcome(old(self)@, src, dst, rules@, res, final(self)@),
    {
        self.check_grid_bounds(src)?;
        self.check_grid_bounds(dst)?;
        let prev = *self.get(src)?;
        let destv = *self.get(dst)?;
        check_rules(&rules, dst, &destv)?;
        let default_value = self.default_value();
        self.set(src, &default_value)?;
        self.set(dst, &prev)?;
        Ok(())
    }

    /// Moves the value at `src` by one cell in `dst_direction` and returns
    /// where it went. Nothing changes unless both cells are in the grid.
    pub fn mov_to(&mut self, src: (i32, i32), dst_direction: MoveDirection) -> (res: Result<
        (i32, i32),
        DasGridError,
    >)
        requires
            old(self).wf(),
        ensures
            final(self).wf(),
            ({
                let dest = GridModel::<T>::step(src, dst_direction);
                if old(self)@.in_bounds(src) && old(self)@.in_bounds(dest) {
                    res == Ok::<(i32, i32), DasGridError>(dest) && final(self)@ == old(self)@.mov(
                        src,
                        dest,
                    )
                } else {
                    res == Err::<(i32, i32), DasGridError>(DasGridError::OutOfGrid) && final(self)@
                        == old(self)@
                }
            }),
    {
        let (x, y) = src;
        self.check_grid_bounds(src)?;
        let (xx, yy) = dst_direction.offset();
        let dest = (x + xx, y + yy);
        self.check_grid_bounds(dest)?;
        let prev = *self.get(src)?;
        let default_value = self.default_value();
        self.set(src, &default_value)?;
        self.set(dest, &prev)?;
        Ok(dest)
    }

    /// Moves the value at `src` by one cell in `dst_direction` if every
    /// rule accepts the value that the destination holds now, and returns
    /// where it went.
    pub fn mov_to_with_rules<R>(
        &mut self,
        src: (i32, i32),
        dst_direction: MoveDirection,
        rules: Vec<R>,
    ) -> (res: Result<(i32, i32), DasGridError>) where
        R: Fn((i32, i32), &T) -> Result<(), DasGridError>,

        requires
            old(self).wf(),
            ({
                let dest = GridModel::<T>::step(src, dst_direction);
                old(self)@.in_bounds(src) && old(self)@.in_bounds(dest) ==> rules_may_be_asked(
                    rules@,
                    dest,
                    old(self)@.cell(dest),
                )
            }),
        ensures
            final(self).wf(),
            ({
                let dest = GridModel::<T>::step(src, dst_direction);
                let verdict = match res {
                    Ok(_) => Ok::<(), DasGridError>(()),
                    Err(e) => Err::<(), DasGridError>(e),
                };
                &&& mov_with_rules_outcome(old(self)@, src, dest, rules@, verdict, final(self)@)
                &&& res is Ok ==> res == Ok::<(i32, i32), DasGridError>(dest)
            }),
    {
        let (x, y) = src;
        self.check_grid_bounds(src)?;
        let (xx, yy) = dst_direction.offset();
        let dest = (x + xx, y + yy);
        self.check_grid_bounds(dest)?;
        let destv = *self.get(dest)?;
        check_rules(&rules, dest, &destv)?;
        let prev = *self.get(src)?;
        let default_value = self.default_value();
        self.set(src, &default_value)?;
        self.set(dest, &prev)?;
        Ok(dest)
    }
}

} // verus!
