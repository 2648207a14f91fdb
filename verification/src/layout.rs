//! The geometry of the search list: the areas that react to the pointer,
//! and the items that a scroll position brings into view.

use vstd::prelude::*;
use crate::types::EnvironmentType;

verus! {

/// A rectangle of the search list, in pixels.
#[derive(Clone, Copy, Debug, PartialEq, Eq, Structural)]
pub struct Area {
    pub x: i32,
    pub y: i32,
    pub width: i32,
    pub height: i32,
}

impl Area {
    /// Whether the point lies in the rectangle: on or after its left and
    /// top edges, and before its right and bottom edges.
    pub open spec fn holds(self, x: int, y: int) -> bool {
        self.x <= x < self.x + self.width && self.y <= y < self.y + self.height
    }

    /// The rectangle with this corner and size.
    pub fn new(x: i32, y: i32, width: i32, height: i32) -> (r: Area)
        ensures
            r == (Area { x, y, width, height }),
    {
        Area { x, y, width, height }
    }

    /// Whether the point lies in the rectangle.
    pub fn contains(&self, x: i32, y: i32) -> (r: bool)
        ensures
            r == self.holds(x as int, y as int),
    {
        let right: i64 = self.x as i64 + self.width as i64;
        let bottom: i64 = self.y as i64 + self.height as i64;
        x >= self.x && (x as i64) < right && y >= self.y && (y as i64) < bottom
    }
}

/// The place of the first area that holds the point, among areas that each
/// carry something: a link, or an item.
pub open spec fn first_hit<T>(areas: Seq<(Area, T)>, x: int, y: int) -> Option<int>
    decreases areas.len(),
{
    if areas.len() == 0 {
        None
    } else if areas[0].0.holds(x, y) {
        Some(0int)
    } else {
        match first_hit(areas.skip(1), x, y) {
            Some(k) => Some(k + 1),
            None => None,
        }
    }
}

/// A place in a list, as a number.
pub open spec fn place(r: Option<usize>) -> Option<int> {
    match r {
        Some(k) => Some(k as int),
        None => None,
    }
}

/// The first hit is a hit, and no area before it is one; without a first
/// hit no area is hit.
pub proof fn first_hit_is_the_first_area_hit<T>(areas: Seq<(Area, T)>, x: int, y: int)
    ensures
        match first_hit(areas, x, y) {
            Some(k) => 0 <= k < areas.len() && areas[k].0.holds(x, y) && forall|j: int|
                0 <= j < k ==> !(#[trigger] areas[j]).0.holds(x, y),
            None => forall|j: int| 0 <= j < areas.len() ==> !(#[trigger] areas[j]).0.holds(x, y),
        },
    decreases areas.len(),
{
    if areas.len() > 0 && !areas[0].0.holds(x, y) {
        first_hit_is_the_first_area_hit(areas.skip(1), x, y);
        match first_hit(areas.skip(1), x, y) {
            Some(k) => {
                assert(areas.skip(1)[k] == areas[k + 1]);
                assert forall|j: int| 0 <= j < k + 1 implies !(#[trigger] areas[j]).0.holds(x, y) by {
                    if j > 0 {
                        assert(areas.skip(1)[j - 1] == areas[j]);
                    }
                }
            },
            None => {
                assert forall|j: int| 0 <= j < areas.len() implies !(#[trigger] areas[j]).0.holds(
                    x,
                    y,
                ) by {
                    if j > 0 {
                        assert(areas.skip(1)[j - 1] == areas[j]);
                    }
                }
            },
        }
    }
}

/// Finds the first area that holds the point.
pub fn find_area<T>(areas: &Vec<(Area, T)>, x: i32, y: i32) -> (r: Option<usize>)
    ensures
        place(r) == first_hit(areas@, x as int, y as int),
        r is Some ==> r->0 < areas.len(),
{
    let mut i: usize = 0;
    assert(areas@.skip(0) =~= areas@);
    while i < areas.len()
        invariant
            i <= areas.len(),
            first_hit(areas@, x as int, y as int) == (match first_hit(
                areas@.skip(i as int),
                x as int,
                y as int,
            ) {
                Some(k) => Some(k + i),
                None => None,
            }),
        decreases areas.len() - i,
    {
        assert(areas@.skip(i as int)[0] == areas@[i as int]);
        assert(areas@.skip(i as int).skip(1) =~= areas@.skip(i + 1));
        if areas[i].0.contains(x, y) {
            return Some(i);
        }
        i += 1;
    }
    None
}

/// The items that are in view: those from `first` up to, not including,
/// `end`.
#[derive(Clone, Copy, Debug, PartialEq, Eq, Structural)]
pub struct VisibleItems {
    pub first: usize,
    pub end: usize,
}

/// How far down the list an item begins, in pixels: every item is 75
/// pixels high.
pub open spec fn item_top(idx: int) -> int {
    75 * idx
}

/// The items to draw for a scroll position `y_to_display` in a view that
/// is `height` pixels high, over a list of `n_items` items.
///
/// Every item is 75 pixels high, and item `idx` begins `75 * idx` pixels
/// down the list. The items that end before the scroll position are passed
/// over: `first` is the least place whose item ends at or after it. From
/// there on the items are drawn as long as there are items and they begin
/// above the lower edge of the view: `end` is the least place, from `first`
/// on, that is past the list or begins at or below that edge. Item `idx` is
/// drawn `75 * idx - y_to_display` pixels below the top of the view.
pub fn visible_items(y_to_display: i32, height: i32, n_items: usize) -> (r: VisibleItems)
    ensures
        item_top(r.first as int) + 75 >= y_to_display,
        r.first > 0 ==> item_top(r.first - 1) + 75 < y_to_display,
        r.first <= r.end,
        forall|idx: int|
            r.first <= idx < r.end ==> idx < n_items && #[trigger] item_top(idx) < y_to_display
                + height,
        r.end >= n_items || item_top(r.end as int) >= y_to_display + height,
{
    let first: usize = if y_to_display <= 75 {
        0
    } else {
        ((y_to_display - 1) / 75) as usize
    };
    let edge: i64 = y_to_display as i64 + height as i64;
    let end: usize = if first >= n_items || edge <= 75 * (first as i64) {
        first
    } else {
        let below = ((edge + 74) / 75) as usize;
        if below < n_items {
            below
        } else {
            n_items
        }
    };
    VisibleItems { first, end }
}

/// The short name of an environment, as its label is styled.
pub fn environment_label(env: EnvironmentType) -> (r: &'static str)
    ensures
        r@ == (match env {
            EnvironmentType::EnvUat => "uat"@,
            EnvironmentType::EnvProd => "prod"@,
            EnvironmentType::EnvStage => "stg"@,
            EnvironmentType::EnvDevelopment => "dev"@,
        }),
{
    match env {
        EnvironmentType::EnvUat => "uat",
        EnvironmentType::EnvProd => "prod",
        EnvironmentType::EnvStage => "stg",
        EnvironmentType::EnvDevelopment => "dev",
    }
}

} // verus!
