use vstd::prelude::*;

verus! {

/// An axis-aligned rectangle on the integer grid: a corner and two extents.
#[derive(Debug)]
pub struct Rect {
    x: i64,
    y: i64,
    size_x: i64,
    size_y: i64,
}

impl Rect {
    /// The corner and the extents, as `(x, y, size_x, size_y)`.
    pub closed spec fn view(&self) -> (i64, i64, i64, i64) {
        (self.x, self.y, self.size_x, self.size_y)
    }

    /// What `colliderect` answers for `self` against `other`: the corner of
    /// `self` lies right of or below the corner of `other`, or left of or
    /// above the extents of `other` read as coordinates.
    pub open spec fn collides(&self, other: &Rect) -> bool {
        ||| self@.0 > other@.0
        ||| self@.0 < other@.2
        ||| self@.1 > other@.1
        ||| self@.1 < other@.3
    }

    /// Builds a rectangle. Every combination of values is accepted.
    pub fn new(x: i64, y: i64, size_x: i64, size_y: i64) -> (made: Result<Rect, String>)
        ensures
            made is Ok,
            made->Ok_0@ == (x, y, size_x, size_y),
    {
        Ok(Rect { x, y, size_x, size_y })
    }

    /// Tests `self` against `rect` by the rule of [`Rect::collides`].
    pub fn colliderect(&self, rect: Rect) -> (hit: bool)
        ensures
            hit == self.collides(&rect),
    {
        self.x > rect.x || self.x < rect.size_x || self.y > rect.y || self.y < rect.size_y
    }

    /// Returns the corner and the extents, as `(x, y, size_x, size_y)`.
    pub fn get_x_y_sizex_sizey(&self) -> (parts: (i64, i64, i64, i64))
        ensures
            parts == self@,
    {
        (self.x, self.y, self.size_x, self.size_y)
    }
}

} // verus!
