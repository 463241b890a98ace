//! From a parsed level to the polygons of its solids.

pub mod asset;
pub mod asset_provider;
pub mod geometry_laws;
pub mod spawner;
pub mod utils;
pub mod winding_laws;

use crate::data::brush::{face_vertices, points_view, Brush};
use crate::data::brush_face::FaceModel;
use crate::data::{property_value, same_text, worldspawn_index, Entity, EntityModel, QuakeMap};
use crate::loader::asset::{BrushMeshInfo, MeshModel};
use crate::loader::utils::{
    centroid, centroid_of, map_to_bevy_space3, scale, scene_scale, swizzled, to_scene, wind, wound,
};
use crate::loader::winding_laws::lemma_wound_is_permutation;
use crate::number::rational::Rational;
use crate::parsing::grammar::{parse_level, SyntaxError};
use crate::parsing::parse_map;
use crate::vector::{Real3, Vec3};
use vstd::prelude::*;
use vstd::string::StringSliceAdditionalSpecFns;
use vstd::utf8::valid_utf8;

verus! {

/// What the buffers of one texture of a brush hold.
pub ghost struct SubMeshModel {
    pub texture: Seq<u8>,
    pub mesh: MeshModel,
}

/// What the geometry of a brush holds.
pub ghost struct GeometryModel {
    pub meshes: Seq<SubMeshModel>,
    pub all_vertices: Seq<Real3>,
    pub skipped: Seq<int>,
}

/// The position of the buffers of `texture`, if there are any.
pub open spec fn group_of(meshes: Seq<SubMeshModel>, texture: Seq<u8>) -> Option<int>
    decreases meshes.len(),
{
    if meshes.len() == 0 {
        None
    } else {
        match group_of(meshes.drop_last(), texture) {
            Some(g) => Some(g),
            None => if meshes.last().texture == texture {
                Some(meshes.len() - 1)
            } else {
                None
            },
        }
    }
}

impl GeometryModel {
    /// The geometry of a brush without faces.
    pub open spec fn empty() -> GeometryModel {
        GeometryModel { meshes: Seq::empty(), all_vertices: Seq::empty(), skipped: Seq::empty() }
    }

    /// The geometry with face `i` of `faces` added. Its vertices join the
    /// list of all vertices as they were found. Where they are three or
    /// more and the face has scales, they are wound and join the buffers of
    /// the texture of the face, which are put behind all others if the
    /// texture is new. Where they are fewer, the face has no area; where a
    /// scale is zero, it has no texture coordinates: then only its index is
    /// kept.
    pub open spec fn with_face(self, faces: Seq<FaceModel>, i: int, epsilon: real) -> GeometryModel {
        let face = faces[i];
        let found = face_vertices(faces, i, epsilon);
        let polygon = wound(face.u.axis, face.v.axis, found);
        if found.len() < 3 || !face.has_scales() {
            GeometryModel {
                meshes: self.meshes,
                all_vertices: self.all_vertices + found,
                skipped: self.skipped.push(i),
            }
        } else {
            GeometryModel {
                meshes: match group_of(self.meshes, face.texture) {
                    Some(g) => self.meshes.update(
                        g,
                        SubMeshModel {
                            texture: face.texture,
                            mesh: self.meshes[g].mesh.with_polygon(face, polygon),
                        },
                    ),
                    None => self.meshes.push(
                        SubMeshModel {
                            texture: face.texture,
                            mesh: MeshModel::empty().with_polygon(face, polygon),
                        },
                    ),
                },
                all_vertices: self.all_vertices + found,
                skipped: self.skipped,
            }
        }
    }
}

/// The geometry of the first `n` faces of a brush.
pub open spec fn geometry_of_faces(faces: Seq<FaceModel>, n: nat, epsilon: real) -> GeometryModel
    decreases n,
{
    if n == 0 {
        GeometryModel::empty()
    } else {
        geometry_of_faces(faces, (n - 1) as nat, epsilon).with_face(faces, n - 1, epsilon)
    }
}

/// The geometry of a brush: the polygon of every face that has an area and
/// scales, grouped by texture in the order in which the textures first
/// occur. Every face bounds the solid, whether it has a polygon or not.
pub open spec fn brush_geometry(faces: Seq<FaceModel>, epsilon: real) -> GeometryModel {
    geometry_of_faces(faces, faces.len(), epsilon)
}

/// The positions of the given points in the scene, relative to their centroid.
pub open spec fn hull_points(points: Seq<Real3>) -> Seq<Real3> {
    Seq::new(points.len(), |t: int| to_scene(points[t], centroid(points)))
}

/// The buffers of one texture of a brush.
#[derive(Debug)]
pub struct SubMesh {
    pub texture: Vec<u8>,
    pub info: BrushMeshInfo,
}

impl View for SubMesh {
    type V = SubMeshModel;

    open spec fn view(&self) -> SubMeshModel {
        SubMeshModel { texture: self.texture@, mesh: self.info@ }
    }
}

/// What a list of buffers holds.
pub open spec fn groups_view(meshes: Seq<SubMesh>) -> Seq<SubMeshModel> {
    Seq::new(meshes.len(), |g: int| meshes[g]@)
}

/// The geometry of one brush.
#[derive(Debug)]
pub struct BrushGeometry {
    /// The buffers of each texture, in the order in which the textures first occur.
    pub meshes: Vec<SubMesh>,
    /// Every vertex of every face, in level coordinates.
    pub all_vertices: Vec<Vec3>,
    /// The faces that have no polygon in the buffers: those without an
    /// area and those with a scale of zero.
    pub skipped: Vec<usize>,
}

impl View for BrushGeometry {
    type V = GeometryModel;

    open spec fn view(&self) -> GeometryModel {
        GeometryModel {
            meshes: groups_view(self.meshes@),
            all_vertices: points_view(self.all_vertices@),
            skipped: Seq::new(self.skipped@.len(), |s: int| self.skipped@[s] as int),
        }
    }
}

proof fn lemma_group_of_found(meshes: Seq<SubMeshModel>, texture: Seq<u8>, g: int)
    requires
        0 <= g < meshes.len(),
        meshes[g].texture == texture,
        forall|s: int| 0 <= s < g ==> (#[trigger] meshes[s]).texture != texture,
    ensures
        group_of(meshes, texture) == Some(g),
    decreases meshes.len(),
{
    let shorter = meshes.drop_last();
    if g == meshes.len() - 1 {
        lemma_group_of_missing(shorter, texture);
    } else {
        lemma_group_of_found(shorter, texture, g);
    }
}

proof fn lemma_group_of_missing(meshes: Seq<SubMeshModel>, texture: Seq<u8>)
    requires
        forall|s: int| 0 <= s < meshes.len() ==> (#[trigger] meshes[s]).texture != texture,
    ensures
        group_of(meshes, texture) is None,
    decreases meshes.len(),
{
    if meshes.len() > 0 {
        lemma_group_of_missing(meshes.drop_last(), texture);
    }
}

fn find_group(meshes: &Vec<SubMesh>, texture: &Vec<u8>) -> (group: Option<usize>)
    ensures
        match group {
            Some(g) => group_of(groups_view(meshes@), texture@) == Some(g as int) && g
                < meshes@.len() && meshes@[g as int].texture@ == texture@,
            None => group_of(groups_view(meshes@), texture@) is None,
        },
{
    let ghost models = groups_view(meshes@);
    let mut g: usize = 0;
    while g < meshes.len()
        invariant
            g <= meshes.len(),
            models == groups_view(meshes@),
            forall|s: int| 0 <= s < g ==> (#[trigger] models[s]).texture != texture@,
        decreases meshes.len() - g,
    {
        if same_text(&meshes[g].texture, texture.as_slice()) {
            proof {
                lemma_group_of_found(models, texture@, g as int);
            }
            return Some(g);
        }
        g += 1;
    }
    proof {
        lemma_group_of_missing(models, texture@);
    }
    None
}

/// Rebuilds the geometry of a brush from its planes: the polygon of every
/// face that has an area, wound and triangulated, grouped by texture.
pub fn load_brush(brush: &Brush, epsilon: &Rational) -> (geometry: BrushGeometry)
    ensures
        geometry@ == brush_geometry(brush@, epsilon@),
{
    let mut geometry = BrushGeometry {
        meshes: Vec::new(),
        all_vertices: Vec::new(),
        skipped: Vec::new(),
    };
    proof {
        assert(geometry@.meshes =~= Seq::<SubMeshModel>::empty());
        assert(geometry@.all_vertices =~= Seq::<Real3>::empty());
        assert(geometry@.skipped =~= Seq::<int>::empty());
    }
    let n = brush.faces.len();
    let mut i: usize = 0;
    while i < n
        invariant
            n == brush.faces.len(),
            i <= n,
            geometry@ == geometry_of_faces(brush@, i as nat, epsilon@),
        decreases n - i,
    {
        let face = &brush.faces[i];
        let ghost before = geometry@;
        let ghost target = before.with_face(brush@, i as int, epsilon@);
        assert(brush@[i as int] == face@);
        let mut found = brush.face_vertices(i, epsilon);
        let ghost raw = points_view(found@);
        let mut t: usize = 0;
        while t < found.len()
            invariant
                t <= found.len(),
                raw == points_view(found@),
                geometry@.meshes == before.meshes,
                geometry@.skipped == before.skipped,
                geometry.all_vertices@.len() == before.all_vertices.len() + t,
                forall|s: int|
                    0 <= s < before.all_vertices.len() ==> (#[trigger] geometry.all_vertices@[s])@
                        == before.all_vertices[s],
                forall|s: int|
                    0 <= s < t ==> (#[trigger] geometry.all_vertices@[before.all_vertices.len()
                        + s])@ == raw[s],
            decreases found.len() - t,
        {
            geometry.all_vertices.push(found[t].clone());
            t += 1;
        }
        proof {
            assert forall|s: int| 0 <= s < target.all_vertices.len() implies geometry@.all_vertices[s]
                == target.all_vertices[s] by {
                if s >= before.all_vertices.len() {
                    assert(geometry.all_vertices@[before.all_vertices.len() + (s
                        - before.all_vertices.len())]@ == raw[s - before.all_vertices.len()]);
                }
            }
            assert(geometry@.all_vertices =~= target.all_vertices);
        }
        if found.len() < 3 || !face.has_scales() {
            geometry.skipped.push(i);
            proof {
                assert(geometry@.skipped =~= target.skipped);
            }
        } else {
            wind(&face.u().axis, &face.v().axis, &mut found);
            let ghost polygon = points_view(found@);
            let ghost groups = geometry.meshes@;
            proof {
                assert(groups_view(groups) == before.meshes);
                assert(polygon == wound(face@.u.axis, face@.v.axis, raw));
                lemma_wound_is_permutation(face@.u.axis, face@.v.axis, raw);
                assert(polygon.len() == found@.len());
            }
            match find_group(&geometry.meshes, face.texture()) {
                Some(g) => {
                    let mut sub = geometry.meshes.remove(g);
                    assert(sub@ == before.meshes[g as int]);
                    let _ = sub.info.push_vertices(face, &found);
                    geometry.meshes.insert(g, sub);
                    proof {
                        assert forall|s: int| 0 <= s < target.meshes.len() implies geometry@.meshes[s]
                            == target.meshes[s] by {
                            if s < g {
                                assert(geometry.meshes@[s] == groups[s]);
                            } else if s > g {
                                assert(geometry.meshes@[s] == groups[s]);
                            } else {
                                assert(geometry.meshes@[s] == sub);
                            }
                            assert(before.meshes[s] == groups[s]@);
                        }
                        assert(geometry@.meshes =~= target.meshes);
                    }
                },
                None => {
                    let mut info = BrushMeshInfo::new();
                    let _ = info.push_vertices(face, &found);
                    let texture = face.texture().clone();
                    assert(texture@ == face@.texture);
                    geometry.meshes.push(SubMesh { texture, info });
                    proof {
                        assert forall|s: int| 0 <= s < target.meshes.len() implies geometry@.meshes[s]
                            == target.meshes[s] by {
                            if s < groups.len() {
                                assert(geometry.meshes@[s] == groups[s]);
                                assert(before.meshes[s] == groups[s]@);
                            }
                        }
                        assert(geometry@.meshes =~= target.meshes);
                    }
                },
            }
        }
        i += 1;
    }
    geometry
}

impl BrushGeometry {
    /// The centroid of all vertices, in level coordinates, unless there are none.
    pub fn centroid(&self) -> (center: Option<Vec3>)
        ensures
            self@.all_vertices.len() == 0 ==> center.is_none(),
            self@.all_vertices.len() > 0 ==> center.is_some() && center.unwrap()@ == centroid(
                self@.all_vertices,
            ),
    {
        centroid_of(&self.all_vertices)
    }

    /// Where the brush stands in the scene: its centroid in scene units and
    /// scene axes, unless it has no vertex.
    pub fn translation(&self) -> (origin: Option<Vec3>)
        ensures
            self@.all_vertices.len() == 0 ==> origin.is_none(),
            self@.all_vertices.len() > 0 ==> origin.is_some() && origin.unwrap()@ == swizzled(
                centroid(self@.all_vertices).scaled(scene_scale()),
            ),
    {
        match centroid_of(&self.all_vertices) {
            Some(center) => Some(map_to_bevy_space3(&center.scale(&scale()))),
            None => None,
        }
    }

    /// The vertices for a convex hull round the brush: every vertex relative
    /// to the centroid, in scene units and scene axes.
    pub fn hull_vertices(&self) -> (hull: Vec<Vec3>)
        ensures
            points_view(hull@) == hull_points(self@.all_vertices),
    {
        let mut hull: Vec<Vec3> = Vec::new();
        match centroid_of(&self.all_vertices) {
            Some(center) => {
                let factor = scale();
                let mut t: usize = 0;
                while t < self.all_vertices.len()
                    invariant
                        t <= self.all_vertices.len(),
                        center@ == centroid(self@.all_vertices),
                        factor@ == scene_scale(),
                        hull@.len() == t,
                        forall|s: int|
                            0 <= s < t ==> (#[trigger] hull@[s])@ == to_scene(
                                self.all_vertices@[s]@,
                                center@,
                            ),
                    decreases self.all_vertices.len() - t,
                {
                    let moved = self.all_vertices[t].sub(&center).scale(&factor);
                    hull.push(map_to_bevy_space3(&moved));
                    t += 1;
                }
            },
            None => {},
        }
        assert(points_view(hull@) =~= hull_points(self@.all_vertices));
        hull
    }
}

/// Why a level cannot be loaded.
#[derive(Clone, Copy, PartialEq, Eq, Debug, Structural)]
pub enum MapError {
    /// The texture for faces without a texture cannot be had.
    DefaultTextureLoadFailed,
    /// The texture that stands for missing ones cannot be had.
    MissingTextureLoadFailed,
    /// The bytes are not valid UTF-8.
    Utf8Error,
    /// The text does not fit the grammar.
    ParseError(SyntaxError),
    /// No entity has the class `worldspawn`.
    MissingWorldspawn,
}

/// The name of the property of the world entity that lists where textures
/// are searched: `_tb_textures`.
pub open spec fn texture_collections_key() -> Seq<u8> {
    seq![95u8, 116u8, 98u8, 95u8, 116u8, 101u8, 120u8, 116u8, 117u8, 114u8, 101u8, 115u8]
}

/// The name that a face without a texture carries: `__TB_empty`.
pub open spec fn empty_texture_name() -> Seq<u8> {
    seq![95u8, 95u8, 84u8, 66u8, 95u8, 101u8, 109u8, 112u8, 116u8, 121u8]
}

/// The parts of `text` between semicolons. A text without one is a single
/// part, and so is the empty text.
pub open spec fn split_list(text: Seq<u8>) -> Seq<Seq<u8>>
    decreases text.len(),
{
    if text.len() == 0 {
        seq![Seq::<u8>::empty()]
    } else {
        let head = split_list(text.drop_last());
        if text.last() == 59u8 {
            head.push(Seq::<u8>::empty())
        } else {
            head.update(head.len() - 1, head.last().push(text.last()))
        }
    }
}

proof fn lemma_split_list_nonempty(text: Seq<u8>)
    ensures
        split_list(text).len() > 0,
    decreases text.len(),
{
    if text.len() > 0 {
        lemma_split_list_nonempty(text.drop_last());
    }
}

/// What a list of texts holds.
pub open spec fn texts_view(texts: Seq<Vec<u8>>) -> Seq<Seq<u8>> {
    Seq::new(texts.len(), |i: int| texts[i]@)
}

/// Splits a list of names at its semicolons.
pub fn split_collections(text: &Vec<u8>) -> (parts: Vec<Vec<u8>>)
    ensures
        texts_view(parts@) == split_list(text@),
{
    let mut parts: Vec<Vec<u8>> = Vec::new();
    let mut current: Vec<u8> = Vec::new();
    let mut i: usize = 0;
    proof {
        assert(text@.take(0) =~= Seq::<u8>::empty());
        assert(texts_view(parts@).push(current@) =~= seq![Seq::<u8>::empty()]);
    }
    while i < text.len()
        invariant
            i <= text.len(),
            texts_view(parts@).push(current@) == split_list(text@.take(i as int)),
        decreases text.len() - i,
    {
        let ghost done = texts_view(parts@);
        let ghost open = current@;
        proof {
            let head = text@.take(i + 1);
            assert(head.drop_last() =~= text@.take(i as int));
            assert(head.last() == text@[i as int]);
            assert(done.push(open).last() == open);
        }
        if text[i] == 59 {
            parts.push(current);
            current = Vec::new();
            proof {
                assert(texts_view(parts@) =~= done.push(open));
            }
        } else {
            current.push(text[i]);
            proof {
                assert(done.push(open).update(done.len() as int, open.push(text@[i as int]))
                    =~= done.push(current@));
            }
        }
        i += 1;
    }
    proof {
        assert(text@.take(text@.len() as int) =~= text@);
    }
    let ghost done = texts_view(parts@);
    let ghost last = current@;
    parts.push(current);
    proof {
        assert(texts_view(parts@) =~= done.push(last));
    }
    parts
}

/// Whether a texture name is the one that a face without a texture carries.
pub fn is_empty_texture(name: &Vec<u8>) -> (empty: bool)
    ensures
        empty == (name@ == empty_texture_name()),
{
    let expected: [u8; 10] = [95, 95, 84, 66, 95, 101, 109, 112, 116, 121];
    assert(expected@ =~= empty_texture_name());
    same_text(name, expected.as_slice())
}

/// The geometry of every brush of every entity.
pub open spec fn level_geometry(entities: Seq<EntityModel>, epsilon: real) -> Seq<
    Seq<GeometryModel>,
> {
    Seq::new(
        entities.len(),
        |e: int|
            Seq::new(
                entities[e].brushes.len(),
                |b: int| brush_geometry(entities[e].brushes[b].faces, epsilon),
            ),
    )
}

/// What the geometry of the brushes of one entity holds.
pub open spec fn geometries_view(brushes: Seq<BrushGeometry>) -> Seq<GeometryModel> {
    Seq::new(brushes.len(), |b: int| brushes[b]@)
}

/// What the geometry of a level holds.
pub open spec fn level_view(entities: Seq<Vec<BrushGeometry>>) -> Seq<Seq<GeometryModel>> {
    Seq::new(entities.len(), |e: int| geometries_view(entities[e]@))
}

/// The names in the texture search list of the world entity, if it has one.
pub open spec fn collections_of(entities: Seq<EntityModel>) -> Option<Seq<Seq<u8>>> {
    match worldspawn_index(entities) {
        Some(w) => match property_value(entities[w].properties, texture_collections_key()) {
            Some(list) => Some(split_list(list)),
            None => None,
        },
        None => None,
    }
}

/// A level with the geometry of its brushes.
#[derive(Debug)]
pub struct LoadedMap {
    /// The level as it was parsed.
    pub map: QuakeMap,
    /// Where textures are searched, as the world entity lists it.
    pub texture_collections: Option<Vec<Vec<u8>>>,
    /// For each entity, the geometry of each of its brushes.
    pub geometry: Vec<Vec<BrushGeometry>>,
}

impl LoadedMap {
    /// What the texture search list holds.
    pub open spec fn collections_view(&self) -> Option<Seq<Seq<u8>>> {
        match self.texture_collections {
            Some(list) => Some(texts_view(list@)),
            None => None,
        }
    }
}

/// Decodes bytes as UTF-8 with `std::str::from_utf8`. There is a text
/// exactly when the bytes are valid UTF-8, and its bytes are the given ones.
#[verifier::external_body]
fn from_utf8(bytes: &[u8]) -> (text: Option<&str>)
    ensures
        text is Some <==> valid_utf8(bytes@),
        text is Some ==> text.unwrap().spec_bytes() == bytes@,
{
    match std::str::from_utf8(bytes) {
        Ok(text) => Some(text),
        Err(_) => None,
    }
}

/// The geometry of every brush of one entity.
fn load_entity(entity: &Entity, epsilon: &Rational) -> (brushes: Vec<BrushGeometry>)
    ensures
        geometries_view(brushes@) == Seq::new(
            entity@.brushes.len(),
            |b: int| brush_geometry(entity@.brushes[b].faces, epsilon@),
        ),
{
    let mut brushes: Vec<BrushGeometry> = Vec::new();
    let mut b: usize = 0;
    while b < entity.brushes.len()
        invariant
            b <= entity.brushes.len(),
            brushes@.len() == b,
            forall|s: int|
                0 <= s < b ==> (#[trigger] brushes@[s])@ == brush_geometry(
                    entity@.brushes[s].faces,
                    epsilon@,
                ),
        decreases entity.brushes.len() - b,
    {
        let geometry = load_brush(&entity.brushes[b], epsilon);
        assert(entity@.brushes[b as int].faces == entity.brushes@[b as int]@);
        brushes.push(geometry);
        b += 1;
    }
    assert(geometries_view(brushes@) =~= Seq::new(
        entity@.brushes.len(),
        |b: int| brush_geometry(entity@.brushes[b].faces, epsilon@),
    ));
    brushes
}

/// Loads a level from its bytes: decodes and parses the text, finds the
/// world entity and its texture search list, and rebuilds the geometry of
/// every brush at tolerance `epsilon`.
///
/// Bytes that are not valid UTF-8, text that does not fit the grammar and
/// a level without a world entity end the load; no part of a level is
/// returned then.
pub fn load_map(bytes: &[u8], epsilon: &Rational) -> (r: Result<LoadedMap, MapError>)
    ensures
        match r {
            Ok(loaded) => {
                &&& valid_utf8(bytes@)
                &&& parse_level(bytes@) == Ok::<Seq<EntityModel>, SyntaxError>(loaded.map@)
                &&& worldspawn_index(loaded.map@) is Some
                &&& loaded.collections_view() == collections_of(loaded.map@)
                &&& level_view(loaded.geometry@) == level_geometry(loaded.map@, epsilon@)
            },
            Err(MapError::DefaultTextureLoadFailed) => false,
            Err(MapError::MissingTextureLoadFailed) => false,
            Err(MapError::Utf8Error) => !valid_utf8(bytes@),
            Err(MapError::ParseError(e)) => valid_utf8(bytes@) && parse_level(bytes@) == Err::<
                Seq<EntityModel>,
                SyntaxError,
            >(e),
            Err(MapError::MissingWorldspawn) => {
                &&& valid_utf8(bytes@)
                &&& parse_level(bytes@) is Ok
                &&& worldspawn_index(parse_level(bytes@)->Ok_0) is None
            },
        },
{
    let text = match from_utf8(bytes) {
        Some(text) => text,
        None => {
            return Err(MapError::Utf8Error);
        },
    };
    let map = match parse_map(text) {
        Ok(map) => map,
        Err(e) => {
            return Err(MapError::ParseError(e));
        },
    };
    let texture_collections = match map.worldspawn() {
        Some(world) => {
            let key: [u8; 12] = [95, 116, 98, 95, 116, 101, 120, 116, 117, 114, 101, 115];
            assert(key@ =~= texture_collections_key());
            assert(world@ == map@[worldspawn_index(map@).unwrap()]);
            match world.properties.get(key.as_slice()) {
                Some(list) => Some(split_collections(list)),
                None => None,
            }
        },
        None => {
            return Err(MapError::MissingWorldspawn);
        },
    };
    let mut geometry: Vec<Vec<BrushGeometry>> = Vec::new();
    let mut e: usize = 0;
    while e < map.entities.len()
        invariant
            e <= map.entities.len(),
            geometry@.len() == e,
            forall|s: int|
                0 <= s < e ==> geometries_view((#[trigger] geometry@[s])@) == Seq::new(
                    map@[s].brushes.len(),
                    |b: int| brush_geometry(map@[s].brushes[b].faces, epsilon@),
                ),
        decreases map.entities.len() - e,
    {
        let brushes = load_entity(&map.entities[e], epsilon);
        assert(map@[e as int] == map.entities@[e as int]@);
        geometry.push(brushes);
        e += 1;
    }
    assert(level_view(geometry@) =~= level_geometry(map@, epsilon@));
    Ok(LoadedMap { map, texture_collections, geometry })
}

} // verus!
