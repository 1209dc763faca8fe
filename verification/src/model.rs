//! Data model of a parsed scene description.
//!
//! The scene text format is line-oriented. Parsing validates everything that
//! is exact — keywords, arities, index references, numeric token syntax —
//! and keeps the numeric tokens themselves as validated byte strings: their
//! conversion to floating point is the renderer's concern. Every type here
//! has a ghost view over sequences, which the parser's contracts are stated
//! on.

use vstd::prelude::*;

verus! {

/// What went wrong on a line of a scene or material file.
#[derive(Clone, Copy, Debug, PartialEq, Eq, Structural)]
pub enum ErrorKind {
    /// A point needs exactly three numeric fields.
    PointArity,
    /// A numeric field does not parse.
    MalformedNumber,
    /// A face element is not an index or an index pair.
    BadIndex,
    /// A face needs at least three vertices.
    FaceArity,
    /// Either all vertices of a face reference normals or none may.
    MixedNormals,
    /// An index references a vertex or normal that does not exist.
    IndexOutOfRange,
    /// A light needs exactly six numeric fields.
    LightArity,
    /// A material is used before a library declaring it is loaded.
    UnknownMaterial,
    /// An unknown key in the scene file.
    UnknownObjKey,
    /// An unknown key in a material file.
    UnknownMtlKey,
    /// A material library is referenced but its content was not supplied.
    MissingMaterialLib,
}

/// Ghost view of a parse error: the kind, the 1-based line of the scene file,
/// and, when the error arose inside a material library, that library's name
/// and 1-based line.
pub ghost struct SceneErrorV {
    pub kind: ErrorKind,
    pub line: int,
    pub lib: Option<(Seq<u8>, int)>,
}

/// A parse error: the kind, the 1-based line of the scene file it arose on,
/// and, when it arose inside a material library, that library's name and the
/// 1-based line within it.
#[derive(Debug, PartialEq)]
pub struct SceneError {
    pub kind: ErrorKind,
    pub line: usize,
    pub lib: Option<(Vec<u8>, usize)>,
}

impl View for SceneError {
    type V = SceneErrorV;

    open spec fn view(&self) -> SceneErrorV {
        SceneErrorV {
            kind: self.kind,
            line: self.line as int,
            lib: match self.lib {
                Some((ref name, l)) => Some((name@, l as int)),
                None => None,
            },
        }
    }
}

/// Error at a line of the scene file itself.
pub fn add_line_context(kind: ErrorKind, line: usize) -> (e: SceneError)
    ensures
        e@ == (SceneErrorV { kind, line: line as int, lib: None }),
{
    SceneError { kind, line, lib: None }
}

/// Ghost view of a numeric triple.
pub ghost struct TripletV {
    pub x: Seq<u8>,
    pub y: Seq<u8>,
    pub z: Seq<u8>,
}

/// Three numeric fields as validated byte strings: a position, a normal, a
/// color, an intensity.
#[derive(Debug, PartialEq)]
pub struct Triplet {
    pub x: Vec<u8>,
    pub y: Vec<u8>,
    pub z: Vec<u8>,
}

impl View for Triplet {
    type V = TripletV;

    open spec fn view(&self) -> TripletV {
        TripletV { x: self.x@, y: self.y@, z: self.z@ }
    }
}

impl DeepView for Triplet {
    type V = TripletV;

    open spec fn deep_view(&self) -> TripletV {
        self@
    }
}

/// The triple `0 0 0`; byte 48 is the digit zero.
pub open spec fn zero_triplet_v() -> TripletV {
    TripletV { x: seq![48u8], y: seq![48u8], z: seq![48u8] }
}

/// The triple `1 0 0`; byte 49 is the digit one.
pub open spec fn albedo_default_v() -> TripletV {
    TripletV { x: seq![49u8], y: seq![48u8], z: seq![48u8] }
}

/// Ghost view of a material.
pub ghost struct MaterialV {
    pub name: Seq<u8>,
    pub ambient_color: TripletV,
    pub diffuse_color: TripletV,
    pub specular_color: TripletV,
    pub intensity: TripletV,
    pub specular_exponent: Seq<u8>,
    pub refraction_index: Seq<u8>,
    pub albedo: TripletV,
}

/// A surface material: its name and its numeric fields as validated byte
/// strings, shared by every face declared while it is current.
#[derive(Debug, PartialEq)]
pub struct Material {
    pub name: Vec<u8>,
    pub ambient_color: Triplet,
    pub diffuse_color: Triplet,
    pub specular_color: Triplet,
    pub intensity: Triplet,
    pub specular_exponent: Vec<u8>,
    pub refraction_index: Vec<u8>,
    pub albedo: Triplet,
}

impl View for Material {
    type V = MaterialV;

    open spec fn view(&self) -> MaterialV {
        MaterialV {
            name: self.name@,
            ambient_color: self.ambient_color@,
            diffuse_color: self.diffuse_color@,
            specular_color: self.specular_color@,
            intensity: self.intensity@,
            specular_exponent: self.specular_exponent@,
            refraction_index: self.refraction_index@,
            albedo: self.albedo@,
        }
    }
}

impl DeepView for Material {
    type V = MaterialV;

    open spec fn deep_view(&self) -> MaterialV {
        self@
    }
}

/// The material faces carry before any `usemtl`: an empty name, black
/// colors, zero exponent, refraction index one, albedo `1 0 0`.
pub open spec fn default_material_v() -> MaterialV {
    MaterialV {
        name: Seq::empty(),
        ambient_color: zero_triplet_v(),
        diffuse_color: zero_triplet_v(),
        specular_color: zero_triplet_v(),
        intensity: zero_triplet_v(),
        specular_exponent: seq![48u8],
        refraction_index: seq![49u8],
        albedo: albedo_default_v(),
    }
}

/// Copy of a byte string.
pub fn clone_bytes(v: &Vec<u8>) -> (r: Vec<u8>)
    ensures
        r@ == v@,
{
    let r = v.clone();
    proof {
        assert forall|i: int| 0 <= i < r@.len() implies r@[i] == v@[i] by {
            assert(cloned(v@[i], r@[i]));
        }
        assert(r@ =~= v@);
    }
    r
}

/// Copy of a triple.
pub fn clone_triplet(t: &Triplet) -> (r: Triplet)
    ensures
        r@ == t@,
{
    Triplet { x: clone_bytes(&t.x), y: clone_bytes(&t.y), z: clone_bytes(&t.z) }
}

/// Copy of a material.
pub fn clone_material(m: &Material) -> (r: Material)
    ensures
        r@ == m@,
{
    Material {
        name: clone_bytes(&m.name),
        ambient_color: clone_triplet(&m.ambient_color),
        diffuse_color: clone_triplet(&m.diffuse_color),
        specular_color: clone_triplet(&m.specular_color),
        intensity: clone_triplet(&m.intensity),
        specular_exponent: clone_bytes(&m.specular_exponent),
        refraction_index: clone_bytes(&m.refraction_index),
        albedo: clone_triplet(&m.albedo),
    }
}

fn zero_numeral() -> (v: Vec<u8>)
    ensures
        v@ == seq![48u8],
{
    let v = vec![48u8];
    proof {
        assert(v@ =~= seq![48u8]);
    }
    v
}

fn one_numeral() -> (v: Vec<u8>)
    ensures
        v@ == seq![49u8],
{
    let v = vec![49u8];
    proof {
        assert(v@ =~= seq![49u8]);
    }
    v
}

fn zero_triplet() -> (t: Triplet)
    ensures
        t@ == zero_triplet_v(),
{
    Triplet { x: zero_numeral(), y: zero_numeral(), z: zero_numeral() }
}

impl Default for Material {
    /// The default material.
    fn default() -> (m: Material)
        ensures
            m@ == default_material_v(),
    {
        let m = Material {
            name: Vec::new(),
            ambient_color: zero_triplet(),
            diffuse_color: zero_triplet(),
            specular_color: zero_triplet(),
            intensity: zero_triplet(),
            specular_exponent: zero_numeral(),
            refraction_index: one_numeral(),
            albedo: Triplet { x: one_numeral(), y: zero_numeral(), z: zero_numeral() },
        };
        proof {
            assert(m.name@ =~= Seq::<u8>::empty());
        }
        m
    }
}

/// Ghost view of a light.
pub ghost struct LightV {
    pub position: TripletV,
    pub intensity: TripletV,
}

/// A point light: position and intensity.
#[derive(Debug, PartialEq)]
pub struct Light {
    pub position: Triplet,
    pub intensity: Triplet,
}

impl View for Light {
    type V = LightV;

    open spec fn view(&self) -> LightV {
        LightV { position: self.position@, intensity: self.intensity@ }
    }
}

impl DeepView for Light {
    type V = LightV;

    open spec fn deep_view(&self) -> LightV {
        self@
    }
}

/// Ghost view of a face.
pub ghost struct FaceV {
    pub vertex_indices: Seq<usize>,
    pub normal_indices: Option<Seq<usize>>,
}

/// One face line, with its references resolved to positions in the scene's
/// vertex and normal lists: what the normal-synthesis pass walks, in file
/// order.
#[derive(Debug, PartialEq)]
pub struct Face {
    pub vertex_indices: Vec<usize>,
    pub normal_indices: Option<Vec<usize>>,
}

impl View for Face {
    type V = FaceV;

    open spec fn view(&self) -> FaceV {
        FaceV {
            vertex_indices: self.vertex_indices@,
            normal_indices: match self.normal_indices {
                Some(ref v) => Some(v@),
                None => None,
            },
        }
    }
}

impl DeepView for Face {
    type V = FaceV;

    open spec fn deep_view(&self) -> FaceV {
        self@
    }
}

/// Ghost view of a triangle-to-be.
pub ghost struct PseudoObjectV {
    pub material: MaterialV,
    pub first_vertex_idx: usize,
    pub second_vertex_idx: usize,
    pub third_vertex_idx: usize,
}

/// One triangle of a fan-triangulated face: three resolved vertex positions
/// and the material current when its face was declared.
#[derive(Debug, PartialEq)]
pub struct PseudoObject {
    pub material: Material,
    pub first_vertex_idx: usize,
    pub second_vertex_idx: usize,
    pub third_vertex_idx: usize,
}

impl View for PseudoObject {
    type V = PseudoObjectV;

    open spec fn view(&self) -> PseudoObjectV {
        PseudoObjectV {
            material: self.material@,
            first_vertex_idx: self.first_vertex_idx,
            second_vertex_idx: self.second_vertex_idx,
            third_vertex_idx: self.third_vertex_idx,
        }
    }
}

impl DeepView for PseudoObject {
    type V = PseudoObjectV;

    open spec fn deep_view(&self) -> PseudoObjectV {
        self@
    }
}

/// Ghost view of a parsed scene.
pub ghost struct SceneV {
    pub vertices: Seq<TripletV>,
    pub normals: Seq<TripletV>,
    pub faces: Seq<FaceV>,
    pub pseudo_objects: Seq<PseudoObjectV>,
    pub lights: Seq<LightV>,
    pub sky_path: Option<Seq<u8>>,
}

/// A parsed scene: vertex and normal records as numeric byte strings, faces
/// in file order for the normal-synthesis pass, the fan triangulation with
/// materials bound, the lights, and the declared environment texture path,
/// if any.
#[derive(Debug, PartialEq)]
pub struct Scene {
    pub vertices: Vec<Triplet>,
    pub normals: Vec<Triplet>,
    pub faces: Vec<Face>,
    pub pseudo_objects: Vec<PseudoObject>,
    pub lights: Vec<Light>,
    pub sky_path: Option<Vec<u8>>,
}

impl View for Scene {
    type V = SceneV;

    open spec fn view(&self) -> SceneV {
        SceneV {
            vertices: self.vertices.deep_view(),
            normals: self.normals.deep_view(),
            faces: self.faces.deep_view(),
            pseudo_objects: self.pseudo_objects.deep_view(),
            lights: self.lights.deep_view(),
            sky_path: match self.sky_path {
                Some(ref v) => Some(v@),
                None => None,
            },
        }
    }
}

/// One material library handed to the scene reader: the name it is
/// referenced by and the bytes of its file.
#[derive(Debug, PartialEq)]
pub struct MaterialLib {
    pub name: Vec<u8>,
    pub content: Vec<u8>,
}

/// Ghost view of a material library.
pub ghost struct MaterialLibV {
    pub name: Seq<u8>,
    pub content: Seq<u8>,
}

impl View for MaterialLib {
    type V = MaterialLibV;

    open spec fn view(&self) -> MaterialLibV {
        MaterialLibV { name: self.name@, content: self.content@ }
    }
}

impl DeepView for MaterialLib {
    type V = MaterialLibV;

    open spec fn deep_view(&self) -> MaterialLibV {
        self@
    }
}

} // verus!
