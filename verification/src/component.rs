//! The closed set of component kinds an entity can hold.

use crate::vector::{Position, Velocity};
use vstd::prelude::*;

verus! {

/// The outline tracked for an entity, centred on its position.
#[derive(Clone, Copy, Debug, PartialEq, Eq, Structural)]
pub enum Shape {
    Circle { radius: u32 },
    Box { half_width: u32, half_height: u32 },
}

/// The role of an entity.
#[derive(Clone, Copy, Debug, PartialEq, Eq, Structural)]
pub enum Tag {
    Player,
    Mob,
    Bullet,
}

/// The components of one entity: any subset of the four kinds.
#[derive(Clone, Copy, Debug, PartialEq, Eq, Structural)]
pub struct Bundle {
    pub position: Option<Position>,
    pub velocity: Option<Velocity>,
    pub shape: Option<Shape>,
    pub tag: Option<Tag>,
}

/// Which entities a query visits: those that hold every required component
/// and, where a tag is named, carry that tag.
#[derive(Clone, Copy, Debug, PartialEq, Eq, Structural)]
pub struct Query {
    pub position: bool,
    pub velocity: bool,
    pub shape: bool,
    pub tagged: Option<Tag>,
}

impl Bundle {
    /// The bundle with no component.
    pub fn empty() -> (b: Bundle)
        ensures
            b == (Bundle { position: None, velocity: None, shape: None, tag: None }),
    {
        Bundle { position: None, velocity: None, shape: None, tag: None }
    }
}

impl Query {
    pub open spec fn admits(self, b: Bundle) -> bool {
        &&& self.position ==> b.position is Some
        &&& self.velocity ==> b.velocity is Some
        &&& self.shape ==> b.shape is Some
        &&& self.tagged is Some ==> b.tag == self.tagged
    }

    /// Whether `b` holds everything the query asks for.
    pub fn matches(&self, b: &Bundle) -> (r: bool)
        ensures
            r == self.admits(*b),
    {
        (!self.position || b.position.is_some())
            && (!self.velocity || b.velocity.is_some())
            && (!self.shape || b.shape.is_some())
            && match self.tagged {
                None => true,
                Some(t) => match b.tag {
                    None => false,
                    Some(u) => t == u,
                },
            }
    }
}

} // verus!
