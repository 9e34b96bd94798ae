use vstd::prelude::*;

verus! {

/// A registry row: a surrogate id standing in for an opaque user hash.
/// Ids are assigned sequentially in first-seen order and never reused.
pub struct User {
    pub user_id: i32,
    pub hash: String,
}

/// One pixel-placement event, ready for insertion. `pixel_id` equals the
/// zero-based ordinal of the source record in the full input stream; `x2`
/// and `y2` are both present (rectangle) or both absent (point).
pub struct Pixel {
    pub pixel_id: i32,
    pub ts: chrono::NaiveDateTime,
    pub user_id: i32,
    pub color: i32,
    pub x1: i32,
    pub y1: i32,
    pub x2: Option<i32>,
    pub y2: Option<i32>,
}

/// The four raw fields of one CSV record, still undecoded. The `user_hash`
/// field is the opaque hash string the source labels `user_id`.
pub struct RawRecord {
    pub timestamp: String,
    pub user_hash: String,
    pub pixel_color: String,
    pub coordinate: String,
}

/// A decoded coordinate field: a point (`x2`, `y2` absent) or a rectangle
/// (both present).
pub struct Coords {
    pub x1: i32,
    pub y1: i32,
    pub x2: Option<i32>,
    pub y2: Option<i32>,
}

impl Coords {
    /// Both optional coordinates are present or both are absent.
    pub open spec fn paired(self) -> bool {
        self.x2 is Some <==> self.y2 is Some
    }
}

} // verus!
