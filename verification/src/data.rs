//! The parsed level: a map of entities, each with properties and brushes.

pub mod brush;
pub mod brush_face;
pub mod plane_laws;
pub mod properties;

pub use crate::data::brush::Brush;
pub use crate::data::brush_face::{BrushFace, DegenerateGeometryError, Tangent, UvAxis};
pub use crate::data::properties::{property_value, same_text, Properties};
use crate::data::brush_face::FaceModel;
use vstd::prelude::*;

verus! {

/// What a parsed brush holds: its faces, and how many more were left out.
pub ghost struct BrushModel {
    pub faces: Seq<FaceModel>,
    pub dropped: int,
}

/// What an entity holds: its properties, one for each name, in the order
/// in which the names first occurred, and its brushes.
pub ghost struct EntityModel {
    pub properties: Seq<(Seq<u8>, Seq<u8>)>,
    pub brushes: Seq<BrushModel>,
}

/// The name of the property that tells what an entity is.
pub open spec fn classname_key() -> Seq<u8> {
    seq![99u8, 108u8, 97u8, 115u8, 115u8, 110u8, 97u8, 109u8, 101u8]
}

/// The class of the entity that carries the properties of the whole level.
pub open spec fn worldspawn_class() -> Seq<u8> {
    seq![119u8, 111u8, 114u8, 108u8, 100u8, 115u8, 112u8, 97u8, 119u8, 110u8]
}

impl EntityModel {
    /// Whether the entity carries the properties of the whole level.
    pub open spec fn is_worldspawn(self) -> bool {
        property_value(self.properties, classname_key()) == Some(worldspawn_class())
    }
}

/// What a brush holds, with the count of the faces left out.
pub open spec fn brush_model(brush: Brush) -> BrushModel {
    BrushModel { faces: brush@, dropped: brush.degenerate_faces as int }
}

/// What a list of brushes holds.
pub open spec fn brushes_view(brushes: Seq<Brush>) -> Seq<BrushModel> {
    Seq::new(brushes.len(), |i: int| brush_model(brushes[i]))
}

/// A thing in the level: properties, and the brushes that give it a shape.
#[derive(Debug)]
pub struct Entity {
    pub properties: Properties,
    pub brushes: Vec<Brush>,
}

impl View for Entity {
    type V = EntityModel;

    open spec fn view(&self) -> EntityModel {
        EntityModel { properties: self.properties@, brushes: brushes_view(self.brushes@) }
    }
}

/// What a list of entities holds.
pub open spec fn entities_view(entities: Seq<Entity>) -> Seq<EntityModel> {
    Seq::new(entities.len(), |i: int| entities[i]@)
}

/// The position of the first entity that carries the properties of the
/// whole level, if there is one.
pub open spec fn worldspawn_index(entities: Seq<EntityModel>) -> Option<int>
    decreases entities.len(),
{
    if entities.len() == 0 {
        None
    } else {
        match worldspawn_index(entities.drop_last()) {
            Some(i) => Some(i),
            None => if entities.last().is_worldspawn() {
                Some(entities.len() - 1)
            } else {
                None
            },
        }
    }
}

/// A level: its entities in the order they were given.
#[derive(Debug)]
pub struct QuakeMap {
    pub entities: Vec<Entity>,
}

impl View for QuakeMap {
    type V = Seq<EntityModel>;

    open spec fn view(&self) -> Seq<EntityModel> {
        entities_view(self.entities@)
    }
}

proof fn lemma_worldspawn_found(entities: Seq<EntityModel>, i: int)
    requires
        0 <= i < entities.len(),
        entities[i].is_worldspawn(),
        forall|s: int| 0 <= s < i ==> !(#[trigger] entities[s]).is_worldspawn(),
    ensures
        worldspawn_index(entities) == Some(i),
    decreases entities.len(),
{
    if i == entities.len() - 1 {
        lemma_worldspawn_missing(entities.drop_last());
    } else {
        lemma_worldspawn_found(entities.drop_last(), i);
    }
}

proof fn lemma_worldspawn_missing(entities: Seq<EntityModel>)
    requires
        forall|s: int| 0 <= s < entities.len() ==> !(#[trigger] entities[s]).is_worldspawn(),
    ensures
        worldspawn_index(entities) is None,
    decreases entities.len(),
{
    if entities.len() > 0 {
        lemma_worldspawn_missing(entities.drop_last());
    }
}

impl Entity {
    /// Whether the entity carries the properties of the whole level: whether
    /// its class name is `worldspawn`.
    pub fn is_worldspawn(&self) -> (b: bool)
        ensures
            b == self@.is_worldspawn(),
    {
        let key: [u8; 9] = [99, 108, 97, 115, 115, 110, 97, 109, 101];
        let class: [u8; 10] = [119, 111, 114, 108, 100, 115, 112, 97, 119, 110];
        assert(key@ =~= classname_key());
        assert(class@ =~= worldspawn_class());
        match self.properties.get(key.as_slice()) {
            Some(value) => same_text(value, class.as_slice()),
            None => false,
        }
    }
}

impl QuakeMap {
    /// The first entity that carries the properties of the whole level, if
    /// there is one.
    pub fn worldspawn(&self) -> (entity: Option<&Entity>)
        ensures
            match entity {
                Some(e) => {
                    &&& worldspawn_index(self@) is Some
                    &&& 0 <= worldspawn_index(self@).unwrap() < self.entities@.len()
                    &&& *e == self.entities@[worldspawn_index(self@).unwrap()]
                    &&& e@.is_worldspawn()
                },
                None => worldspawn_index(self@) is None,
            },
    {
        let mut i: usize = 0;
        while i < self.entities.len()
            invariant
                i <= self.entities.len(),
                forall|s: int| 0 <= s < i ==> !(#[trigger] self@[s]).is_worldspawn(),
            decreases self.entities.len() - i,
        {
            if self.entities[i].is_worldspawn() {
                proof {
                    lemma_worldspawn_found(self@, i as int);
                }
                return Some(&self.entities[i]);
            }
            i += 1;
        }
        proof {
            lemma_worldspawn_missing(self@);
        }
        None
    }
}

} // verus!
