//! The scene and material text formats.
//!
//! Both are line-oriented: a keyword token, then its fields. The scene
//! format: `v x y z` a vertex, `vn x y z` a vertex normal, `vt` ignored,
//! `f e1 e2 e3 ...` a fan-triangulated face whose elements are `index` or
//! `index/...​/normal` with 1-based indices and negative indices counted
//! back from the current count, `mtllib name` loads a material library,
//! `usemtl name` picks the current material, `P x y z r g b` a point light,
//! `Sky w h path` declares the environment texture, `#`-lines, `g` and `s`
//! ignored. The material format: `newmtl name` opens a block, `Ka Kd Ks Ke
//! al` color triples, `Ns Ni` scalars, `illum` and comments ignored. The
//! first offending line aborts parsing with its 1-based number; no partial
//! scene is returned.

use crate::model::{
    clone_bytes, clone_material, default_material_v, ErrorKind, Light, LightV, Material,
    MaterialLib, MaterialLibV, MaterialV, PseudoObject, PseudoObjectV, Scene, SceneError,
    SceneErrorV, SceneV, Triplet, TripletV, Face, FaceV,
};
use crate::numeral::{int_numeral_value, is_float_numeral, is_int_numeral, is_float_token, parse_i64};
use crate::text::{
    bytes_eq, after_last_slash, scan_after_last_slash, scan_until_slash, until_slash,
};
use vstd::prelude::*;

verus! {

/// The value fits a signed 64-bit integer.
pub open spec fn fits_i64(v: int) -> bool {
    -0x8000_0000_0000_0000 <= v <= 0x7FFF_FFFF_FFFF_FFFF
}

/// A reference resolved against the current record count: positive
/// references are 1-based, non-positive ones count back from the count;
/// nothing outside the records resolves.
pub open spec fn spec_get_index(read_idx: int, length: int) -> Option<int> {
    if read_idx > 0 {
        if read_idx <= length {
            Some(read_idx - 1)
        } else {
            None
        }
    } else {
        if 0 <= length + read_idx && length + read_idx < length {
            Some(length + read_idx)
        } else {
            None
        }
    }
}

/// Position of a referenced record: 1-based from the front when positive,
/// from the current count backward otherwise; `None` when no record is
/// referenced.
pub fn get_index(read_idx: i64, length: usize) -> (r: Option<usize>)
    ensures
        r is Some <==> spec_get_index(read_idx as int, length as int) is Some,
        r matches Some(v) ==> spec_get_index(read_idx as int, length as int) == Some(v as int),
{
    if read_idx > 0 {
        let k = (read_idx as u64) - 1;
        if k < length as u64 {
            Some(k as usize)
        } else {
            None
        }
    } else {
        let t = length as i128 + read_idx as i128;
        if 0 <= t && t < length as i128 {
            Some(t as usize)
        } else {
            None
        }
    }
}

/// First part of a face element: the bytes before its first slash, the
/// whole element if it has none.
pub open spec fn element_point_part(tok: Seq<u8>) -> Seq<u8> {
    tok.take(until_slash(tok) as int)
}

/// Last part of a face element: the bytes after its last slash.
pub open spec fn element_normal_part(tok: Seq<u8>) -> Seq<u8> {
    tok.skip(tok.len() - after_last_slash(tok))
}

/// A face element read as a pair of references: a plain element references
/// a vertex and no normal (0); an element with slashes references a vertex
/// before the first slash and a normal after the last. `None` when either
/// reference is malformed or does not fit.
pub open spec fn spec_index_pair(tok: Seq<u8>) -> Option<(int, int)> {
    if until_slash(tok) == tok.len() {
        if is_int_numeral(tok) && fits_i64(int_numeral_value(tok)) {
            Some((int_numeral_value(tok), 0))
        } else {
            None
        }
    } else {
        let first = element_point_part(tok);
        let last = element_normal_part(tok);
        if is_int_numeral(first) && fits_i64(int_numeral_value(first)) && is_int_numeral(last)
            && fits_i64(int_numeral_value(last)) {
            Some((int_numeral_value(first), int_numeral_value(last)))
        } else {
            None
        }
    }
}

/// A face element read as a pair of references.
pub fn parse_index_pair(tok: &[u8]) -> (r: Option<(i64, i64)>)
    ensures
        r is Some <==> spec_index_pair(tok@) is Some,
        r matches Some(p) ==> spec_index_pair(tok@) == Some((p.0 as int, p.1 as int)),
{
    let p = scan_until_slash(tok);
    if p == tok.len() {
        match parse_i64(tok) {
            Some(v) => Some((v, 0)),
            None => None,
        }
    } else {
        let a = scan_after_last_slash(tok);
        let first = crate::text::copy_range(tok, 0, p);
        let last = crate::text::copy_range(tok, tok.len() - a, tok.len());
        proof {
            assert(first@ =~= element_point_part(tok@));
            assert(last@ =~= element_normal_part(tok@));
        }
        match parse_i64(first.as_slice()) {
            Some(x) => match parse_i64(last.as_slice()) {
                Some(y) => Some((x, y)),
                None => None,
            },
            None => None,
        }
    }
}

/// Value of an index pair, for reading a resolved element list.
pub open spec fn pair_at(toks: Seq<Seq<u8>>, i: int) -> (int, int) {
    match spec_index_pair(toks[i]) {
        Some(p) => p,
        None => (0, 0),
    }
}

/// The reference pairs of a face's elements: every element must read as a
/// pair.
pub open spec fn spec_face_pairs(toks: Seq<Seq<u8>>) -> Option<Seq<(int, int)>> {
    if forall|i: int| 0 <= i < toks.len() ==> spec_index_pair(#[trigger] toks[i]) is Some {
        Some(Seq::new(toks.len(), |i: int| pair_at(toks, i)))
    } else {
        None
    }
}

/// View of parsed index pairs as unbounded integers.
pub open spec fn pairs_view(s: Seq<(i64, i64)>) -> Seq<(int, int)> {
    Seq::new(s.len(), |i: int| (s[i].0 as int, s[i].1 as int))
}

/// The reference pairs of a face's elements, each element either a single
/// vertex reference or a slash-separated element whose first and last parts
/// reference a vertex and a normal.
pub fn read_indices_pairs(face_elements: &[Vec<u8>]) -> (r: Result<Vec<(i64, i64)>, ErrorKind>)
    ensures
        match r {
            Ok(v) => spec_face_pairs(face_elements.deep_view()) == Some(pairs_view(v@)),
            Err(e) => spec_face_pairs(face_elements.deep_view()) is None && e
                == ErrorKind::BadIndex,
        },
{
    let ghost toks = face_elements.deep_view();
    let mut out: Vec<(i64, i64)> = Vec::new();
    let mut i: usize = 0;
    while i < face_elements.len()
        invariant
            i <= face_elements@.len(),
            toks == face_elements.deep_view(),
            toks.len() == face_elements@.len(),
            out@.len() == i,
            forall|k: int|
                0 <= k < i ==> spec_index_pair(#[trigger] toks[k]) == Some(
                    (out@[k].0 as int, out@[k].1 as int),
                ),
        decreases face_elements@.len() - i,
    {
        proof {
            assert(toks[i as int] == face_elements@[i as int].deep_view());
            assert(face_elements@[i as int].deep_view() =~= face_elements@[i as int]@);
        }
        match parse_index_pair(face_elements[i].as_slice()) {
            Some(p) => {
                out.push(p);
            },
            None => {
                return Err(ErrorKind::BadIndex);
            },
        }
        i = i + 1;
    }
    proof {
        assert(spec_face_pairs(toks) == Some(pairs_view(out@))) by {
            assert(forall|k: int|
                0 <= k < toks.len() ==> spec_index_pair(#[trigger] toks[k]) is Some);
            assert(Seq::new(toks.len(), |i: int| pair_at(toks, i)) =~= pairs_view(out@));
        }
    }
    Ok(out)
}

/// Three numeric fields make a point; anything else is an arity or syntax
/// error.
pub open spec fn spec_read_point(toks: Seq<Seq<u8>>) -> Result<TripletV, ErrorKind> {
    if toks.len() != 3 {
        Err(ErrorKind::PointArity)
    } else if !is_float_numeral(toks[0]) || !is_float_numeral(toks[1]) || !is_float_numeral(
        toks[2],
    ) {
        Err(ErrorKind::MalformedNumber)
    } else {
        Ok(TripletV { x: toks[0], y: toks[1], z: toks[2] })
    }
}

/// A point read from exactly three numeric fields.
pub fn read_point(toks: &[Vec<u8>]) -> (r: Result<Triplet, ErrorKind>)
    ensures
        match r {
            Ok(t) => spec_read_point(toks.deep_view()) == Ok::<TripletV, ErrorKind>(t@),
            Err(e) => spec_read_point(toks.deep_view()) == Err::<TripletV, ErrorKind>(e),
        },
{
    let ghost tv = toks.deep_view();
    if toks.len() != 3 {
        return Err(ErrorKind::PointArity);
    }
    proof {
        assert(tv[0] == toks@[0].deep_view());
        assert(tv[1] == toks@[1].deep_view());
        assert(tv[2] == toks@[2].deep_view());
        assert(toks@[0].deep_view() =~= toks@[0]@);
        assert(toks@[1].deep_view() =~= toks@[1]@);
        assert(toks@[2].deep_view() =~= toks@[2]@);
    }
    if !is_float_token(toks[0].as_slice()) || !is_float_token(toks[1].as_slice())
        || !is_float_token(toks[2].as_slice()) {
        return Err(ErrorKind::MalformedNumber);
    }
    Ok(Triplet {
        x: crate::model::clone_bytes(&toks[0]),
        y: crate::model::clone_bytes(&toks[1]),
        z: crate::model::clone_bytes(&toks[2]),
    })
}

/// Six numeric fields make a light: a position, then an intensity.
pub open spec fn spec_read_light(toks: Seq<Seq<u8>>) -> Result<LightV, ErrorKind> {
    if toks.len() != 6 {
        Err(ErrorKind::LightArity)
    } else {
        match spec_read_point(toks.take(3)) {
            Err(e) => Err(e),
            Ok(position) => match spec_read_point(toks.skip(3)) {
                Err(e) => Err(e),
                Ok(intensity) => Ok(LightV { position, intensity }),
            },
        }
    }
}

/// A light read from exactly six numeric fields: position, then intensity.
pub fn read_light(toks: &[Vec<u8>]) -> (r: Result<Light, ErrorKind>)
    ensures
        match r {
            Ok(l) => spec_read_light(toks.deep_view()) == Ok::<LightV, ErrorKind>(l@),
            Err(e) => spec_read_light(toks.deep_view()) == Err::<LightV, ErrorKind>(e),
        },
{
    let ghost tv = toks.deep_view();
    if toks.len() != 6 {
        return Err(ErrorKind::LightArity);
    }
    let head = &toks[0..3];
    let tail = &toks[3..6];
    proof {
        assert(head.deep_view() =~= tv.take(3));
        assert(tail.deep_view() =~= tv.skip(3));
    }
    let position = match read_point(head) {
        Ok(t) => t,
        Err(e) => {
            return Err(e);
        },
    };
    let intensity = match read_point(tail) {
        Ok(t) => t,
        Err(e) => {
            return Err(e);
        },
    };
    Ok(Light { position, intensity })
}

/// The keyword `v`.
pub open spec fn kw_v() -> Seq<u8> {
    seq![118u8]
}

/// The keyword `vt`.
pub open spec fn kw_vt() -> Seq<u8> {
    seq![118u8, 116u8]
}

/// The keyword `vn`.
pub open spec fn kw_vn() -> Seq<u8> {
    seq![118u8, 110u8]
}

/// The keyword `f`.
pub open spec fn kw_f() -> Seq<u8> {
    seq![102u8]
}

/// The keyword `mtllib`.
pub open spec fn kw_mtllib() -> Seq<u8> {
    seq![109u8, 116u8, 108u8, 108u8, 105u8, 98u8]
}

/// The keyword `usemtl`.
pub open spec fn kw_usemtl() -> Seq<u8> {
    seq![117u8, 115u8, 101u8, 109u8, 116u8, 108u8]
}

/// The keyword `P`.
pub open spec fn kw_p() -> Seq<u8> {
    seq![80u8]
}

/// The keyword `Sky`.
pub open spec fn kw_sky() -> Seq<u8> {
    seq![83u8, 107u8, 121u8]
}

/// The keyword `g`.
pub open spec fn kw_g() -> Seq<u8> {
    seq![103u8]
}

/// The keyword `s`.
pub open spec fn kw_s() -> Seq<u8> {
    seq![115u8]
}

/// The keyword `newmtl`.
pub open spec fn kw_newmtl() -> Seq<u8> {
    seq![110u8, 101u8, 119u8, 109u8, 116u8, 108u8]
}

/// The keyword `Ka`.
pub open spec fn kw_ka() -> Seq<u8> {
    seq![75u8, 97u8]
}

/// The keyword `Kd`.
pub open spec fn kw_kd() -> Seq<u8> {
    seq![75u8, 100u8]
}

/// The keyword `Ks`.
pub open spec fn kw_ks() -> Seq<u8> {
    seq![75u8, 115u8]
}

/// The keyword `Ke`.
pub open spec fn kw_ke() -> Seq<u8> {
    seq![75u8, 101u8]
}

/// The keyword `al`.
pub open spec fn kw_al() -> Seq<u8> {
    seq![97u8, 108u8]
}

/// The keyword `Ns`.
pub open spec fn kw_ns() -> Seq<u8> {
    seq![78u8, 115u8]
}

/// The keyword `Ni`.
pub open spec fn kw_ni() -> Seq<u8> {
    seq![78u8, 105u8]
}

/// The keyword `illum`.
pub open spec fn kw_illum() -> Seq<u8> {
    seq![105u8, 108u8, 108u8, 117u8, 109u8]
}

fn is_kw_v(tok: &Vec<u8>) -> (r: bool)
    ensures
        r == (tok@ == kw_v()),
{
    let k = vec![118u8];
    proof {
        assert(k@ =~= kw_v());
    }
    bytes_eq(tok.as_slice(), k.as_slice())
}

fn is_kw_vt(tok: &Vec<u8>) -> (r: bool)
    ensures
        r == (tok@ == kw_vt()),
{
    let k = vec![118u8, 116u8];
    proof {
        assert(k@ =~= kw_vt());
    }
    bytes_eq(tok.as_slice(), k.as_slice())
}

fn is_kw_vn(tok: &Vec<u8>) -> (r: bool)
    ensures
        r == (tok@ == kw_vn()),
{
    let k = vec![118u8, 110u8];
    proof {
        assert(k@ =~= kw_vn());
    }
    bytes_eq(tok.as_slice(), k.as_slice())
}

fn is_kw_f(tok: &Vec<u8>) -> (r: bool)
    ensures
        r == (tok@ == kw_f()),
{
    let k = vec![102u8];
    proof {
        assert(k@ =~= kw_f());
    }
    bytes_eq(tok.as_slice(), k.as_slice())
}

fn is_kw_mtllib(tok: &Vec<u8>) -> (r: bool)
    ensures
        r == (tok@ == kw_mtllib()),
{
    let k = vec![109u8, 116u8, 108u8, 108u8, 105u8, 98u8];
    proof {
        assert(k@ =~= kw_mtllib());
    }
    bytes_eq(tok.as_slice(), k.as_slice())
}

fn is_kw_usemtl(tok: &Vec<u8>) -> (r: bool)
    ensures
        r == (tok@ == kw_usemtl()),
{
    let k = vec![117u8, 115u8, 101u8, 109u8, 116u8, 108u8];
    proof {
        assert(k@ =~= kw_usemtl());
    }
    bytes_eq(tok.as_slice(), k.as_slice())
}

fn is_kw_p(tok: &Vec<u8>) -> (r: bool)
    ensures
        r == (tok@ == kw_p()),
{
    let k = vec![80u8];
    proof {
        assert(k@ =~= kw_p());
    }
    bytes_eq(tok.as_slice(), k.as_slice())
}

fn is_kw_sky(tok: &Vec<u8>) -> (r: bool)
    ensures
        r == (tok@ == kw_sky()),
{
    let k = vec![83u8, 107u8, 121u8];
    proof {
        assert(k@ =~= kw_sky());
    }
    bytes_eq(tok.as_slice(), k.as_slice())
}

fn is_kw_g(tok: &Vec<u8>) -> (r: bool)
    ensures
        r == (tok@ == kw_g()),
{
    let k = vec![103u8];
    proof {
        assert(k@ =~= kw_g());
    }
    bytes_eq(tok.as_slice(), k.as_slice())
}

fn is_kw_s(tok: &Vec<u8>) -> (r: bool)
    ensures
        r == (tok@ == kw_s()),
{
    let k = vec![115u8];
    proof {
        assert(k@ =~= kw_s());
    }
    bytes_eq(tok.as_slice(), k.as_slice())
}

fn is_kw_newmtl(tok: &Vec<u8>) -> (r: bool)
    ensures
        r == (tok@ == kw_newmtl()),
{
    let k = vec![110u8, 101u8, 119u8, 109u8, 116u8, 108u8];
    proof {
        assert(k@ =~= kw_newmtl());
    }
    bytes_eq(tok.as_slice(), k.as_slice())
}

fn is_kw_ka(tok: &Vec<u8>) -> (r: bool)
    ensures
        r == (tok@ == kw_ka()),
{
    let k = vec![75u8, 97u8];
    proof {
        assert(k@ =~= kw_ka());
    }
    bytes_eq(tok.as_slice(), k.as_slice())
}

fn is_kw_kd(tok: &Vec<u8>) -> (r: bool)
    ensures
        r == (tok@ == kw_kd()),
{
    let k = vec![75u8, 100u8];
    proof {
        assert(k@ =~= kw_kd());
    }
    bytes_eq(tok.as_slice(), k.as_slice())
}

fn is_kw_ks(tok: &Vec<u8>) -> (r: bool)
    ensures
        r == (tok@ == kw_ks()),
{
    let k = vec![75u8, 115u8];
    proof {
        assert(k@ =~= kw_ks());
    }
    bytes_eq(tok.as_slice(), k.as_slice())
}

fn is_kw_ke(tok: &Vec<u8>) -> (r: bool)
    ensures
        r == (tok@ == kw_ke()),
{
    let k = vec![75u8, 101u8];
    proof {
        assert(k@ =~= kw_ke());
    }
    bytes_eq(tok.as_slice(), k.as_slice())
}

fn is_kw_al(tok: &Vec<u8>) -> (r: bool)
    ensures
        r == (tok@ == kw_al()),
{
    let k = vec![97u8, 108u8];
    proof {
        assert(k@ =~= kw_al());
    }
    bytes_eq(tok.as_slice(), k.as_slice())
}

fn is_kw_ns(tok: &Vec<u8>) -> (r: bool)
    ensures
        r == (tok@ == kw_ns()),
{
    let k = vec![78u8, 115u8];
    proof {
        assert(k@ =~= kw_ns());
    }
    bytes_eq(tok.as_slice(), k.as_slice())
}

fn is_kw_ni(tok: &Vec<u8>) -> (r: bool)
    ensures
        r == (tok@ == kw_ni()),
{
    let k = vec![78u8, 105u8];
    proof {
        assert(k@ =~= kw_ni());
    }
    bytes_eq(tok.as_slice(), k.as_slice())
}

fn is_kw_illum(tok: &Vec<u8>) -> (r: bool)
    ensures
        r == (tok@ == kw_illum()),
{
    let k = vec![105u8, 108u8, 108u8, 117u8, 109u8];
    proof {
        assert(k@ =~= kw_illum());
    }
    bytes_eq(tok.as_slice(), k.as_slice())
}

/// The first token opens a comment (byte 35 is `#`).
pub open spec fn is_comment(tok: Seq<u8>) -> bool {
    tok.len() > 0 && tok[0] == 35
}

fn is_comment_token(tok: &Vec<u8>) -> (r: bool)
    ensures
        r == is_comment(tok@),
{
    tok.len() > 0 && tok[0] == 35
}

/// Ghost state of a material-library parse: the finished blocks, the block
/// being filled, and whether any block was opened.
pub ghost struct MtlStateV {
    pub materials: Seq<MaterialV>,
    pub current: MaterialV,
    pub started: bool,
}

/// State of a material-library parse: the finished blocks, the block being
/// filled, and whether any block was opened.
pub struct MtlState {
    pub materials: Vec<Material>,
    pub current: Material,
    pub started: bool,
}

impl View for MtlState {
    type V = MtlStateV;

    open spec fn view(&self) -> MtlStateV {
        MtlStateV {
            materials: self.materials.deep_view(),
            current: self.current@,
            started: self.started,
        }
    }
}

/// The state before the first material line.
pub open spec fn init_mtl_state() -> MtlStateV {
    MtlStateV { materials: Seq::empty(), current: default_material_v(), started: false }
}

/// A color triple assigned to the field its keyword names.
pub open spec fn set_material_color(m: MaterialV, key: Seq<u8>, t: TripletV) -> MaterialV {
    if key == kw_ka() {
        MaterialV { ambient_color: t, ..m }
    } else if key == kw_kd() {
        MaterialV { diffuse_color: t, ..m }
    } else if key == kw_ks() {
        MaterialV { specular_color: t, ..m }
    } else if key == kw_ke() {
        MaterialV { intensity: t, ..m }
    } else {
        MaterialV { albedo: t, ..m }
    }
}

/// One line of a material library applied to the parse state: `newmtl` opens
/// a block (saving the previous one), the color keys and `Ns`/`Ni` fill the
/// open block, `illum` and comments are ignored, empty lines skipped, and
/// anything else is an error.
pub open spec fn spec_mtl_line(st: MtlStateV, toks: Seq<Seq<u8>>) -> Result<
    MtlStateV,
    ErrorKind,
> {
    if toks.len() == 0 {
        Ok(st)
    } else if toks[0] == kw_newmtl() && toks.len() == 2 {
        Ok(
            MtlStateV {
                materials: if st.started {
                    st.materials.push(st.current)
                } else {
                    st.materials
                },
                current: MaterialV { name: toks[1], ..default_material_v() },
                started: true,
            },
        )
    } else if toks[0] == kw_ka() || toks[0] == kw_kd() || toks[0] == kw_ks() || toks[0] == kw_ke()
        || toks[0] == kw_al() {
        match spec_read_point(toks.drop_first()) {
            Err(e) => Err(e),
            Ok(t) => Ok(MtlStateV { current: set_material_color(st.current, toks[0], t), ..st }),
        }
    } else if toks[0] == kw_ns() && toks.len() == 2 {
        if is_float_numeral(toks[1]) {
            Ok(MtlStateV { current: MaterialV { specular_exponent: toks[1], ..st.current }, ..st })
        } else {
            Err(ErrorKind::MalformedNumber)
        }
    } else if toks[0] == kw_ni() && toks.len() == 2 {
        if is_float_numeral(toks[1]) {
            Ok(MtlStateV { current: MaterialV { refraction_index: toks[1], ..st.current }, ..st })
        } else {
            Err(ErrorKind::MalformedNumber)
        }
    } else if toks[0] == kw_illum() {
        Ok(st)
    } else if is_comment(toks[0]) {
        Ok(st)
    } else {
        Err(ErrorKind::UnknownMtlKey)
    }
}

/// The material lines applied in order from `lineno`; the open block is
/// saved at the end of the file. The first offending line aborts with its
/// number.
pub open spec fn spec_read_materials_rec(
    lines: Seq<Seq<u8>>,
    st: MtlStateV,
    lineno: int,
) -> Result<Seq<MaterialV>, (ErrorKind, int)>
    decreases lines.len(),
{
    if lines.len() == 0 {
        Ok(
            if st.started {
                st.materials.push(st.current)
            } else {
                st.materials
            },
        )
    } else {
        match spec_mtl_line(st, crate::text::spec_tokens(lines[0])) {
            Err(k) => Err((k, lineno)),
            Ok(st2) => spec_read_materials_rec(lines.drop_first(), st2, lineno + 1),
        }
    }
}

/// A material library parsed from its bytes: the blocks in file order, or
/// the first offending line.
pub open spec fn spec_read_materials(content: Seq<u8>) -> Result<
    Seq<MaterialV>,
    (ErrorKind, int),
> {
    spec_read_materials_rec(crate::text::spec_lines(content), init_mtl_state(), 1)
}

fn mtl_line(st: &mut MtlState, toks: &Vec<Vec<u8>>) -> (r: Result<(), ErrorKind>)
    ensures
        match r {
            Ok(()) => spec_mtl_line(old(st)@, toks.deep_view()) == Ok::<MtlStateV, ErrorKind>(
                final(st)@,
            ),
            Err(e) => spec_mtl_line(old(st)@, toks.deep_view()) == Err::<MtlStateV, ErrorKind>(e),
        },
{
    let ghost tv = toks.deep_view();
    let n = toks.len();
    if n == 0 {
        return Ok(());
    }
    proof {
        assert(tv[0] == toks@[0].deep_view());
        assert(toks@[0].deep_view() =~= toks@[0]@);
    }
    let t0 = &toks[0];
    if is_kw_newmtl(t0) && n == 2 {
        proof {
            assert(tv[1] == toks@[1].deep_view());
            assert(toks@[1].deep_view() =~= toks@[1]@);
        }
        let ghost old_dv = st.materials.deep_view();
        if st.started {
            let saved = clone_material(&st.current);
            st.materials.push(saved);
            proof {
                assert(st.materials.deep_view() =~= old_dv.push(old(st)@.current));
            }
        }
        let mut m = Material::default();
        m.name = clone_bytes(&toks[1]);
        st.current = m;
        st.started = true;
        return Ok(());
    }
    let ka = is_kw_ka(t0);
    let kd = is_kw_kd(t0);
    let ks = is_kw_ks(t0);
    let ke = is_kw_ke(t0);
    let al = is_kw_al(t0);
    if ka || kd || ks || ke || al {
        let body = &toks.as_slice()[1..n];
        proof {
            assert(body.deep_view() =~= tv.drop_first());
        }
        match read_point(body) {
            Err(e) => {
                return Err(e);
            },
            Ok(t) => {
                if ka {
                    st.current.ambient_color = t;
                } else if kd {
                    st.current.diffuse_color = t;
                } else if ks {
                    st.current.specular_color = t;
                } else if ke {
                    st.current.intensity = t;
                } else {
                    st.current.albedo = t;
                }
                return Ok(());
            },
        }
    }
    if is_kw_ns(t0) && n == 2 {
        proof {
            assert(tv[1] == toks@[1].deep_view());
            assert(toks@[1].deep_view() =~= toks@[1]@);
        }
        if is_float_token(toks[1].as_slice()) {
            st.current.specular_exponent = clone_bytes(&toks[1]);
            return Ok(());
        } else {
            return Err(ErrorKind::MalformedNumber);
        }
    }
    if is_kw_ni(t0) && n == 2 {
        proof {
            assert(tv[1] == toks@[1].deep_view());
            assert(toks@[1].deep_view() =~= toks@[1]@);
        }
        if is_float_token(toks[1].as_slice()) {
            st.current.refraction_index = clone_bytes(&toks[1]);
            return Ok(());
        } else {
            return Err(ErrorKind::MalformedNumber);
        }
    }
    if is_kw_illum(t0) {
        return Ok(());
    }
    if is_comment_token(t0) {
        return Ok(());
    }
    Err(ErrorKind::UnknownMtlKey)
}

/// A material library parsed from its bytes: its blocks in file order, or
/// the kind and 1-based line of the first offending line.
pub fn read_materials(content: &[u8]) -> (r: Result<Vec<Material>, (ErrorKind, usize)>)
    ensures
        match r {
            Ok(v) => spec_read_materials(content@) == Ok::<Seq<MaterialV>, (ErrorKind, int)>(
                v.deep_view(),
            ),
            Err(e) => spec_read_materials(content@) == Err::<Seq<MaterialV>, (ErrorKind, int)>(
                (e.0, e.1 as int),
            ),
        },
{
    let lines = crate::text::split_lines(content);
    let ghost lv = lines.deep_view();
    let mut st = MtlState { materials: Vec::new(), current: Material::default(), started: false };
    proof {
        assert(st.materials.deep_view() =~= Seq::<MaterialV>::empty());
        assert(lv.skip(0) =~= lv);
    }
    let mut i: usize = 0;
    while i < lines.len()
        invariant
            i <= lines@.len(),
            lv == lines.deep_view(),
            lv.len() == lines@.len(),
            lv == crate::text::spec_lines(content@),
            spec_read_materials(content@) == spec_read_materials_rec(
                lv.skip(i as int),
                st@,
                i + 1,
            ),
        decreases lines@.len() - i,
    {
        proof {
            assert(lv[i as int] == lines@[i as int].deep_view());
            assert(lines@[i as int].deep_view() =~= lines@[i as int]@);
            crate::numeral::lemma_skip_drop_first(lv, i as int);
            assert(lv.skip(i as int)[0] == lv[i as int]);
        }
        let toks = crate::text::tokenize(lines[i].as_slice());
        match mtl_line(&mut st, &toks) {
            Err(k) => {
                return Err((k, i + 1));
            },
            Ok(()) => {},
        }
        i = i + 1;
    }
    proof {
        assert(lv.skip(i as int).len() == 0);
    }
    let MtlState { mut materials, current, started } = st;
    if started {
        let ghost old_dv = materials.deep_view();
        let ghost cur = current@;
        materials.push(current);
        proof {
            assert(materials.deep_view() =~= old_dv.push(cur));
        }
    }
    Ok(materials)
}

/// The material a name refers to: the latest block with that name, as a
/// later block replaces an earlier one of the same name.
pub open spec fn spec_find_material(mats: Seq<MaterialV>, name: Seq<u8>) -> Option<MaterialV>
    decreases mats.len(),
{
    if mats.len() == 0 {
        None
    } else if mats.last().name == name {
        Some(mats.last())
    } else {
        spec_find_material(mats.drop_last(), name)
    }
}

fn find_material(materials: &Vec<Material>, name: &Vec<u8>) -> (r: Option<Material>)
    ensures
        r is Some <==> spec_find_material(materials.deep_view(), name@) is Some,
        r matches Some(m) ==> spec_find_material(materials.deep_view(), name@) == Some(m@),
{
    let ghost dv = materials.deep_view();
    let mut j = materials.len();
    proof {
        assert(dv.take(materials@.len() as int) =~= dv);
    }
    while j > 0
        invariant
            j <= materials@.len(),
            dv == materials.deep_view(),
            dv.len() == materials@.len(),
            spec_find_material(dv, name@) == spec_find_material(dv.take(j as int), name@),
        decreases j,
    {
        proof {
            assert(dv.take(j as int).last() == dv[j - 1]);
            assert(dv[j - 1] == materials@[j - 1].deep_view());
            assert(dv.take(j as int).drop_last() =~= dv.take(j - 1));
        }
        if bytes_eq(materials[j - 1].name.as_slice(), name.as_slice()) {
            return Some(clone_material(&materials[j - 1]));
        }
        j = j - 1;
    }
    proof {
        assert(dv.take(0).len() == 0);
    }
    None
}

/// The content of the material library a name refers to, among the supplied
/// libraries, the first match winning.
pub open spec fn spec_find_lib(libs: Seq<MaterialLibV>, name: Seq<u8>) -> Option<Seq<u8>>
    decreases libs.len(),
{
    if libs.len() == 0 {
        None
    } else if libs[0].name == name {
        Some(libs[0].content)
    } else {
        spec_find_lib(libs.drop_first(), name)
    }
}

fn find_lib(libs: &Vec<MaterialLib>, name: &Vec<u8>) -> (r: Option<usize>)
    ensures
        r is Some <==> spec_find_lib(libs.deep_view(), name@) is Some,
        r matches Some(i) ==> i < libs@.len() && spec_find_lib(libs.deep_view(), name@) == Some(
            libs@[i as int].content@,
        ),
{
    let ghost dv = libs.deep_view();
    let mut j: usize = 0;
    proof {
        assert(dv.skip(0) =~= dv);
    }
    while j < libs.len()
        invariant
            j <= libs@.len(),
            dv == libs.deep_view(),
            dv.len() == libs@.len(),
            spec_find_lib(dv, name@) == spec_find_lib(dv.skip(j as int), name@),
        decreases libs@.len() - j,
    {
        proof {
            assert(dv.skip(j as int)[0] == dv[j as int]);
            assert(dv[j as int] == libs@[j as int].deep_view());
            crate::numeral::lemma_skip_drop_first(dv, j as int);
        }
        if bytes_eq(libs[j].name.as_slice(), name.as_slice()) {
            return Some(j);
        }
        j = j + 1;
    }
    proof {
        assert(dv.skip(j as int).len() == 0);
    }
    None
}

/// Ghost state of a scene parse.
pub ghost struct ObjStateV {
    pub vertices: Seq<TripletV>,
    pub normals: Seq<TripletV>,
    pub faces: Seq<FaceV>,
    pub pseudo_objects: Seq<PseudoObjectV>,
    pub lights: Seq<LightV>,
    pub materials: Seq<MaterialV>,
    pub current_material: MaterialV,
    pub sky_path: Option<Seq<u8>>,
}

/// State of a scene parse: the records read so far, the materials of the
/// latest library, and the material bound to new faces.
pub struct ObjState {
    pub vertices: Vec<Triplet>,
    pub normals: Vec<Triplet>,
    pub faces: Vec<Face>,
    pub pseudo_objects: Vec<PseudoObject>,
    pub lights: Vec<Light>,
    pub materials: Vec<Material>,
    pub current_material: Material,
    pub sky_path: Option<Vec<u8>>,
}

impl View for ObjState {
    type V = ObjStateV;

    open spec fn view(&self) -> ObjStateV {
        ObjStateV {
            vertices: self.vertices.deep_view(),
            normals: self.normals.deep_view(),
            faces: self.faces.deep_view(),
            pseudo_objects: self.pseudo_objects.deep_view(),
            lights: self.lights.deep_view(),
            materials: self.materials.deep_view(),
            current_material: self.current_material@,
            sky_path: match self.sky_path {
                Some(ref v) => Some(v@),
                None => None,
            },
        }
    }
}

/// The state before the first scene line.
pub open spec fn init_obj_state() -> ObjStateV {
    ObjStateV {
        vertices: Seq::empty(),
        normals: Seq::empty(),
        faces: Seq::empty(),
        pseudo_objects: Seq::empty(),
        lights: Seq::empty(),
        materials: Seq::empty(),
        current_material: default_material_v(),
        sky_path: None,
    }
}

/// Value of a resolved reference; reading an unresolved one is meaningless.
pub open spec fn some_val(o: Option<int>) -> int {
    match o {
        Some(v) => v,
        None => 0,
    }
}

/// The vertex (or, with `pick_normal`, normal) reference of every element
/// resolves against the given record count.
pub open spec fn all_resolvable(ps: Seq<(int, int)>, pick_normal: bool, length: int) -> bool {
    forall|i: int|
        0 <= i < ps.len() ==> spec_get_index(
            if pick_normal {
                (#[trigger] ps[i]).1
            } else {
                ps[i].0
            },
            length,
        ) is Some
}

/// The resolved positions of every element's vertex (or normal) reference.
pub open spec fn resolved_indices(ps: Seq<(int, int)>, pick_normal: bool, length: int) -> Seq<
    usize,
> {
    Seq::new(
        ps.len(),
        |i: int|
            some_val(
                spec_get_index(
                    if pick_normal {
                        ps[i].1
                    } else {
                        ps[i].0
                    },
                    length,
                ),
            ) as usize,
    )
}

/// No element references a normal.
pub open spec fn face_no_normals(ps: Seq<(int, int)>) -> bool {
    forall|i: int| 0 <= i < ps.len() ==> (#[trigger] ps[i]).1 == 0
}

/// Every element references a normal.
pub open spec fn face_all_normals(ps: Seq<(int, int)>) -> bool {
    forall|i: int| 0 <= i < ps.len() ==> (#[trigger] ps[i]).1 != 0
}

/// The fan triangulation of a face: element 0 with each pair of neighbors,
/// every triangle carrying the current material.
pub open spec fn spec_face_pseudo_objects(vidx: Seq<usize>, material: MaterialV) -> Seq<
    PseudoObjectV,
> {
    Seq::new(
        (vidx.len() - 2) as nat,
        |i: int|
            PseudoObjectV {
                material,
                first_vertex_idx: vidx[0],
                second_vertex_idx: vidx[i + 1],
                third_vertex_idx: vidx[i + 2],
            },
    )
}

/// A face line applied to the parse state: its elements read as reference
/// pairs, at least three of them, all with normals or none, every reference
/// resolving; the face joins the face list and its fan triangulation the
/// triangle list.
pub open spec fn spec_face_line(st: ObjStateV, body: Seq<Seq<u8>>) -> Result<
    ObjStateV,
    ErrorKind,
> {
    match spec_face_pairs(body) {
        None => Err(ErrorKind::BadIndex),
        Some(ps) => {
            if ps.len() < 3 {
                Err(ErrorKind::FaceArity)
            } else if !face_no_normals(ps) && !face_all_normals(ps) {
                Err(ErrorKind::MixedNormals)
            } else if !all_resolvable(ps, false, st.vertices.len() as int) {
                Err(ErrorKind::IndexOutOfRange)
            } else if face_all_normals(ps) && !all_resolvable(
                ps,
                true,
                st.normals.len() as int,
            ) {
                Err(ErrorKind::IndexOutOfRange)
            } else {
                let vidx = resolved_indices(ps, false, st.vertices.len() as int);
                let nidx = if face_all_normals(ps) {
                    Some(resolved_indices(ps, true, st.normals.len() as int))
                } else {
                    None
                };
                Ok(
                    ObjStateV {
                        faces: st.faces.push(
                            FaceV { vertex_indices: vidx, normal_indices: nidx },
                        ),
                        pseudo_objects: st.pseudo_objects + spec_face_pseudo_objects(
                            vidx,
                            st.current_material,
                        ),
                        ..st
                    },
                )
            }
        },
    }
}

/// One line of the scene applied to the parse state; an error may carry the
/// name and line of a material library it arose in.
pub open spec fn spec_obj_line(
    st: ObjStateV,
    toks: Seq<Seq<u8>>,
    libs: Seq<MaterialLibV>,
) -> Result<ObjStateV, (ErrorKind, Option<(Seq<u8>, int)>)> {
    if toks.len() == 0 {
        Ok(st)
    } else if toks[0] == kw_v() {
        match spec_read_point(toks.drop_first()) {
            Err(e) => Err((e, None)),
            Ok(t) => Ok(ObjStateV { vertices: st.vertices.push(t), ..st }),
        }
    } else if toks[0] == kw_vt() {
        Ok(st)
    } else if toks[0] == kw_vn() {
        match spec_read_point(toks.drop_first()) {
            Err(e) => Err((e, None)),
            Ok(t) => Ok(ObjStateV { normals: st.normals.push(t), ..st }),
        }
    } else if toks[0] == kw_f() {
        match spec_face_line(st, toks.drop_first()) {
            Err(e) => Err((e, None)),
            Ok(st2) => Ok(st2),
        }
    } else if toks[0] == kw_mtllib() && toks.len() == 2 {
        match spec_find_lib(libs, toks[1]) {
            None => Err((ErrorKind::MissingMaterialLib, None)),
            Some(content) => match spec_read_materials(content) {
                Err((k, l)) => Err((k, Some((toks[1], l)))),
                Ok(mats) => Ok(ObjStateV { materials: mats, ..st }),
            },
        }
    } else if toks[0] == kw_usemtl() && toks.len() == 2 {
        match spec_find_material(st.materials, toks[1]) {
            None => Err((ErrorKind::UnknownMaterial, None)),
            Some(m) => Ok(ObjStateV { current_material: m, ..st }),
        }
    } else if toks[0] == kw_p() {
        match spec_read_light(toks.drop_first()) {
            Err(e) => Err((e, None)),
            Ok(l) => Ok(ObjStateV { lights: st.lights.push(l), ..st }),
        }
    } else if toks[0] == kw_sky() && toks.len() == 4 {
        Ok(ObjStateV { sky_path: Some(toks[3]), ..st })
    } else if is_comment(toks[0]) {
        Ok(st)
    } else if toks[0] == kw_g() || toks[0] == kw_s() {
        Ok(st)
    } else {
        Err((ErrorKind::UnknownObjKey, None))
    }
}

/// The scene lines applied in order from `lineno`; the records collected
/// become the scene. The first offending line aborts with its number.
pub open spec fn spec_read_scene_rec(
    lines: Seq<Seq<u8>>,
    st: ObjStateV,
    lineno: int,
    libs: Seq<MaterialLibV>,
) -> Result<SceneV, SceneErrorV>
    decreases lines.len(),
{
    if lines.len() == 0 {
        Ok(
            SceneV {
                vertices: st.vertices,
                normals: st.normals,
                faces: st.faces,
                pseudo_objects: st.pseudo_objects,
                lights: st.lights,
                sky_path: st.sky_path,
            },
        )
    } else {
        match spec_obj_line(st, crate::text::spec_tokens(lines[0]), libs) {
            Err((k, lib)) => Err(SceneErrorV { kind: k, line: lineno, lib }),
            Ok(st2) => spec_read_scene_rec(lines.drop_first(), st2, lineno + 1, libs),
        }
    }
}

/// A scene parsed from its bytes and the material libraries it references,
/// or the first offending line.
pub open spec fn spec_read_scene(content: Seq<u8>, libs: Seq<MaterialLibV>) -> Result<
    SceneV,
    SceneErrorV,
> {
    spec_read_scene_rec(crate::text::spec_lines(content), init_obj_state(), 1, libs)
}

fn face_line(st: &mut ObjState, body: &[Vec<u8>]) -> (r: Result<(), ErrorKind>)
    ensures
        match r {
            Ok(()) => spec_face_line(old(st)@, body.deep_view()) == Ok::<ObjStateV, ErrorKind>(
                final(st)@,
            ),
            Err(e) => spec_face_line(old(st)@, body.deep_view()) == Err::<ObjStateV, ErrorKind>(e),
        },
{
    let ghost st0 = st@;
    let pairs = match read_indices_pairs(body) {
        Err(k) => {
            return Err(k);
        },
        Ok(v) => v,
    };
    let ghost ps = pairs_view(pairs@);
    if pairs.len() < 3 {
        return Err(ErrorKind::FaceArity);
    }
    // which elements reference normals
    let mut has_zero = false;
    let mut has_nonzero = false;
    let mut k: usize = 0;
    while k < pairs.len()
        invariant
            k <= pairs@.len(),
            ps == pairs_view(pairs@),
            ps.len() == pairs@.len(),
            has_zero == !(forall|q: int| 0 <= q < k ==> (#[trigger] ps[q]).1 != 0),
            has_nonzero == !(forall|q: int| 0 <= q < k ==> (#[trigger] ps[q]).1 == 0),
        decreases pairs@.len() - k,
    {
        proof {
            assert(ps[k as int] == (pairs@[k as int].0 as int, pairs@[k as int].1 as int));
        }
        if pairs[k].1 == 0 {
            has_zero = true;
        } else {
            has_nonzero = true;
        }
        k = k + 1;
    }
    let no_normals = !has_nonzero;
    let all_normals = !has_zero;
    proof {
        assert(no_normals == face_no_normals(ps));
        assert(all_normals == face_all_normals(ps));
    }
    if !no_normals && !all_normals {
        return Err(ErrorKind::MixedNormals);
    }
    // resolve the vertex references
    let vlen = st.vertices.len();
    proof {
        assert(vlen == st0.vertices.len()) by {
            assert(st.vertices.deep_view().len() == st.vertices@.len());
        }
    }
    let mut vidx: Vec<usize> = Vec::new();
    let mut k: usize = 0;
    while k < pairs.len()
        invariant
            k <= pairs@.len(),
            ps == pairs_view(pairs@),
            ps.len() == pairs@.len(),
            vidx@.len() == k,
            vlen == st0.vertices.len(),
            st0 == old(st)@,
            st@ == st0,
            spec_face_pairs(body.deep_view()) == Some(ps),
            ps.len() >= 3,
            face_no_normals(ps) || face_all_normals(ps),
            forall|q: int|
                0 <= q < k ==> spec_get_index((#[trigger] ps[q]).0, vlen as int) == Some(
                    vidx@[q] as int,
                ),
        decreases pairs@.len() - k,
    {
        proof {
            assert(ps[k as int] == (pairs@[k as int].0 as int, pairs@[k as int].1 as int));
        }
        match get_index(pairs[k].0, vlen) {
            None => {
                proof {
                    assert(!all_resolvable(ps, false, st0.vertices.len() as int));
                }
                return Err(ErrorKind::IndexOutOfRange);
            },
            Some(v) => {
                vidx.push(v);
            },
        }
        k = k + 1;
    }
    proof {
        assert(all_resolvable(ps, false, st0.vertices.len() as int));
        assert(vidx@ =~= resolved_indices(ps, false, st0.vertices.len() as int));
    }
    // resolve the normal references
    let nlen = st.normals.len();
    proof {
        assert(nlen == st0.normals.len()) by {
            assert(st.normals.deep_view().len() == st.normals@.len());
        }
    }
    let normal_indices: Option<Vec<usize>> = if all_normals {
        let mut nidx: Vec<usize> = Vec::new();
        let mut k: usize = 0;
        while k < pairs.len()
            invariant
                k <= pairs@.len(),
                ps == pairs_view(pairs@),
                ps.len() == pairs@.len(),
                nidx@.len() == k,
                nlen == st0.normals.len(),
                st0 == old(st)@,
                st@ == st0,
                spec_face_pairs(body.deep_view()) == Some(ps),
                ps.len() >= 3,
                face_all_normals(ps),
                all_resolvable(ps, false, st0.vertices.len() as int),
                forall|q: int|
                    0 <= q < k ==> spec_get_index((#[trigger] ps[q]).1, nlen as int) == Some(
                        nidx@[q] as int,
                    ),
            decreases pairs@.len() - k,
        {
            proof {
                assert(ps[k as int] == (pairs@[k as int].0 as int, pairs@[k as int].1 as int));
            }
            match get_index(pairs[k].1, nlen) {
                None => {
                    proof {
                        assert(!all_resolvable(ps, true, st0.normals.len() as int));
                    }
                    return Err(ErrorKind::IndexOutOfRange);
                },
                Some(v) => {
                    nidx.push(v);
                },
            }
            k = k + 1;
        }
        proof {
            assert(all_resolvable(ps, true, st0.normals.len() as int));
            assert(nidx@ =~= resolved_indices(ps, true, st0.normals.len() as int));
        }
        Some(nidx)
    } else {
        None
    };
    let ghost vidx_v = resolved_indices(ps, false, st0.vertices.len() as int);
    let ghost pnew = spec_face_pseudo_objects(vidx_v, st0.current_material);
    // the fan triangulation, element 0 against each pair of neighbors
    let mut new_pseudos: Vec<PseudoObject> = Vec::new();
    let count = pairs.len() - 2;
    let mut k: usize = 0;
    proof {
        assert(new_pseudos.deep_view() =~= pnew.take(0));
    }
    while k < count
        invariant
            k <= count,
            count <= usize::MAX - 2,
            count == pairs@.len() - 2,
            vidx@ == vidx_v,
            vidx@.len() == pairs@.len(),
            st@.current_material == st0.current_material,
            pnew == spec_face_pseudo_objects(vidx_v, st0.current_material),
            pnew.len() == count,
            new_pseudos.deep_view() == pnew.take(k as int),
        decreases count - k,
    {
        let ghost before = new_pseudos.deep_view();
        let po = PseudoObject {
            material: clone_material(&st.current_material),
            first_vertex_idx: vidx[0],
            second_vertex_idx: vidx[k + 1],
            third_vertex_idx: vidx[k + 2],
        };
        proof {
            assert(po@ == pnew[k as int]);
        }
        new_pseudos.push(po);
        proof {
            assert(new_pseudos.deep_view() =~= before.push(pnew[k as int]));
            assert(pnew.take(k + 1) =~= pnew.take(k as int).push(pnew[k as int]));
        }
        k = k + 1;
    }
    proof {
        assert(pnew.take(count as int) =~= pnew);
    }
    // commit the face and its triangles
    let ghost faces_before = st.faces.deep_view();
    let ghost pseudos_before = st.pseudo_objects.deep_view();
    let face = Face { vertex_indices: vidx, normal_indices };
    let ghost face_v = face@;
    st.faces.push(face);
    st.pseudo_objects.append(&mut new_pseudos);
    proof {
        assert(st.faces.deep_view() =~= faces_before.push(face_v));
        assert(st.pseudo_objects.deep_view() =~= pseudos_before + pnew);
    }
    Ok(())
}

fn obj_line(st: &mut ObjState, toks: &Vec<Vec<u8>>, libs: &Vec<MaterialLib>) -> (r: Result<
    (),
    (ErrorKind, Option<(Vec<u8>, usize)>),
>)
    ensures
        match r {
            Ok(()) => spec_obj_line(old(st)@, toks.deep_view(), libs.deep_view()) == Ok::<
                ObjStateV,
                (ErrorKind, Option<(Seq<u8>, int)>),
            >(final(st)@),
            Err(e) => spec_obj_line(old(st)@, toks.deep_view(), libs.deep_view()) == Err::<
                ObjStateV,
                (ErrorKind, Option<(Seq<u8>, int)>),
            >(
                (
                    e.0,
                    match e.1 {
                        Some((ref nm, l)) => Some((nm@, l as int)),
                        None => None,
                    },
                ),
            ),
        },
{
    let ghost tv = toks.deep_view();
    let n = toks.len();
    if n == 0 {
        return Ok(());
    }
    proof {
        assert(tv[0] == toks@[0].deep_view());
        assert(toks@[0].deep_view() =~= toks@[0]@);
    }
    let t0 = &toks[0];
    if is_kw_v(t0) {
        let body = &toks.as_slice()[1..n];
        proof {
            assert(body.deep_view() =~= tv.drop_first());
        }
        match read_point(body) {
            Err(e) => {
                return Err((e, None));
            },
            Ok(t) => {
                let ghost before = st.vertices.deep_view();
                let ghost t_v = t@;
                st.vertices.push(t);
                proof {
                    assert(st.vertices.deep_view() =~= before.push(t_v));
                }
                return Ok(());
            },
        }
    }
    if is_kw_vt(t0) {
        return Ok(());
    }
    if is_kw_vn(t0) {
        let body = &toks.as_slice()[1..n];
        proof {
            assert(body.deep_view() =~= tv.drop_first());
        }
        match read_point(body) {
            Err(e) => {
                return Err((e, None));
            },
            Ok(t) => {
                let ghost before = st.normals.deep_view();
                let ghost t_v = t@;
                st.normals.push(t);
                proof {
                    assert(st.normals.deep_view() =~= before.push(t_v));
                }
                return Ok(());
            },
        }
    }
    if is_kw_f(t0) {
        let body = &toks.as_slice()[1..n];
        proof {
            assert(body.deep_view() =~= tv.drop_first());
        }
        match face_line(st, body) {
            Err(e) => {
                return Err((e, None));
            },
            Ok(()) => {
                return Ok(());
            },
        }
    }
    if is_kw_mtllib(t0) && n == 2 {
        proof {
            assert(tv[1] == toks@[1].deep_view());
            assert(toks@[1].deep_view() =~= toks@[1]@);
        }
        match find_lib(libs, &toks[1]) {
            None => {
                return Err((ErrorKind::MissingMaterialLib, None));
            },
            Some(i) => {
                match read_materials(libs[i].content.as_slice()) {
                    Err((k, l)) => {
                        return Err((k, Some((clone_bytes(&toks[1]), l))));
                    },
                    Ok(mats) => {
                        st.materials = mats;
                        return Ok(());
                    },
                }
            },
        }
    }
    if is_kw_usemtl(t0) && n == 2 {
        proof {
            assert(tv[1] == toks@[1].deep_view());
            assert(toks@[1].deep_view() =~= toks@[1]@);
        }
        match find_material(&st.materials, &toks[1]) {
            None => {
                return Err((ErrorKind::UnknownMaterial, None));
            },
            Some(m) => {
                st.current_material = m;
                return Ok(());
            },
        }
    }
    if is_kw_p(t0) {
        let body = &toks.as_slice()[1..n];
        proof {
            assert(body.deep_view() =~= tv.drop_first());
        }
        match read_light(body) {
            Err(e) => {
                return Err((e, None));
            },
            Ok(l) => {
                let ghost before = st.lights.deep_view();
                let ghost l_v = l@;
                st.lights.push(l);
                proof {
                    assert(st.lights.deep_view() =~= before.push(l_v));
                }
                return Ok(());
            },
        }
    }
    if is_kw_sky(t0) && n == 4 {
        proof {
            assert(tv[3] == toks@[3].deep_view());
            assert(toks@[3].deep_view() =~= toks@[3]@);
        }
        st.sky_path = Some(clone_bytes(&toks[3]));
        return Ok(());
    }
    if is_comment_token(t0) {
        return Ok(());
    }
    if is_kw_g(t0) || is_kw_s(t0) {
        return Ok(());
    }
    Err((ErrorKind::UnknownObjKey, None))
}

/// A scene parsed from its bytes and the material libraries it references:
/// all records in file order with every reference resolved, or the first
/// offending line with its 1-based number and, when it lay inside a material
/// library, that library's name and line.
pub fn read_scene(content: &[u8], material_libs: &Vec<MaterialLib>) -> (r: Result<
    Scene,
    SceneError,
>)
    ensures
        match r {
            Ok(scene) => spec_read_scene(content@, material_libs.deep_view()) == Ok::<
                SceneV,
                SceneErrorV,
            >(scene@),
            Err(e) => spec_read_scene(content@, material_libs.deep_view()) == Err::<
                SceneV,
                SceneErrorV,
            >(e@),
        },
{
    let ghost libs_v = material_libs.deep_view();
    let lines = crate::text::split_lines(content);
    let ghost lv = lines.deep_view();
    let mut st = ObjState {
        vertices: Vec::new(),
        normals: Vec::new(),
        faces: Vec::new(),
        pseudo_objects: Vec::new(),
        lights: Vec::new(),
        materials: Vec::new(),
        current_material: Material::default(),
        sky_path: None,
    };
    proof {
        assert(st.vertices.deep_view() =~= Seq::<TripletV>::empty());
        assert(st.normals.deep_view() =~= Seq::<TripletV>::empty());
        assert(st.faces.deep_view() =~= Seq::<FaceV>::empty());
        assert(st.pseudo_objects.deep_view() =~= Seq::<PseudoObjectV>::empty());
        assert(st.lights.deep_view() =~= Seq::<LightV>::empty());
        assert(st.materials.deep_view() =~= Seq::<MaterialV>::empty());
        assert(st@ == init_obj_state());
        assert(lv.skip(0) =~= lv);
    }
    let mut i: usize = 0;
    while i < lines.len()
        invariant
            i <= lines@.len(),
            lv == lines.deep_view(),
            lv.len() == lines@.len(),
            lv == crate::text::spec_lines(content@),
            libs_v == material_libs.deep_view(),
            spec_read_scene(content@, libs_v) == spec_read_scene_rec(
                lv.skip(i as int),
                st@,
                i + 1,
                libs_v,
            ),
        decreases lines@.len() - i,
    {
        proof {
            assert(lv[i as int] == lines@[i as int].deep_view());
            assert(lines@[i as int].deep_view() =~= lines@[i as int]@);
            crate::numeral::lemma_skip_drop_first(lv, i as int);
            assert(lv.skip(i as int)[0] == lv[i as int]);
        }
        let toks = crate::text::tokenize(lines[i].as_slice());
        match obj_line(&mut st, &toks, material_libs) {
            Err((k, lib)) => {
                return Err(SceneError { kind: k, line: i + 1, lib });
            },
            Ok(()) => {},
        }
        i = i + 1;
    }
    proof {
        assert(lv.skip(i as int).len() == 0);
    }
    let ObjState { vertices, normals, faces, pseudo_objects, lights, sky_path, .. } = st;
    Ok(Scene { vertices, normals, faces, pseudo_objects, lights, sky_path })
}

/// The names of the material libraries a scene references, in file order.
pub open spec fn spec_material_lib_names_rec(lines: Seq<Seq<u8>>) -> Seq<Seq<u8>>
    decreases lines.len(),
{
    if lines.len() == 0 {
        seq![]
    } else {
        let toks = crate::text::spec_tokens(lines[0]);
        let head: Seq<Seq<u8>> = if toks.len() == 2 && toks[0] == kw_mtllib() {
            seq![toks[1]]
        } else {
            seq![]
        };
        head + spec_material_lib_names_rec(lines.drop_first())
    }
}

/// The names of the material libraries a scene references, in file order.
pub open spec fn spec_material_lib_names(content: Seq<u8>) -> Seq<Seq<u8>> {
    spec_material_lib_names_rec(crate::text::spec_lines(content))
}

/// The names of the material libraries a scene references, in file order:
/// what must be loaded and handed to `read_scene`.
pub fn material_lib_names(content: &[u8]) -> (r: Vec<Vec<u8>>)
    ensures
        r.deep_view() == spec_material_lib_names(content@),
{
    let lines = crate::text::split_lines(content);
    let ghost lv = lines.deep_view();
    let mut out: Vec<Vec<u8>> = Vec::new();
    let mut i: usize = 0;
    proof {
        assert(lv.skip(0) =~= lv);
        assert(out.deep_view() =~= Seq::<Seq<u8>>::empty());
        assert(out.deep_view() + spec_material_lib_names_rec(lv) =~= spec_material_lib_names_rec(
            lv,
        ));
    }
    while i < lines.len()
        invariant
            i <= lines@.len(),
            lv == lines.deep_view(),
            lv.len() == lines@.len(),
            lv == crate::text::spec_lines(content@),
            spec_material_lib_names(content@) == out.deep_view() + spec_material_lib_names_rec(
                lv.skip(i as int),
            ),
        decreases lines@.len() - i,
    {
        proof {
            assert(lv[i as int] == lines@[i as int].deep_view());
            assert(lines@[i as int].deep_view() =~= lines@[i as int]@);
            crate::numeral::lemma_skip_drop_first(lv, i as int);
            assert(lv.skip(i as int)[0] == lv[i as int]);
        }
        let toks = crate::text::tokenize(lines[i].as_slice());
        let ghost before = out.deep_view();
        if toks.len() == 2 && is_kw_mtllib(&toks[0]) {
            proof {
                assert(toks.deep_view()[0] == toks@[0].deep_view());
                assert(toks@[0].deep_view() =~= toks@[0]@);
                assert(toks.deep_view()[1] == toks@[1].deep_view());
                assert(toks@[1].deep_view() =~= toks@[1]@);
            }
            let name = clone_bytes(&toks[1]);
            out.push(name);
            proof {
                assert(out.deep_view() =~= before.push(toks.deep_view()[1]));
                assert(out.deep_view() + spec_material_lib_names_rec(lv.skip(i + 1)) =~= before
                    + spec_material_lib_names_rec(lv.skip(i as int)));
            }
        } else {
            proof {
                if toks.len() == 2 {
                    assert(toks.deep_view()[0] == toks@[0].deep_view());
                    assert(toks@[0].deep_view() =~= toks@[0]@);
                }
                assert(toks.deep_view().len() == toks@.len());
                assert(out.deep_view() + spec_material_lib_names_rec(lv.skip(i + 1)) =~= before
                    + spec_material_lib_names_rec(lv.skip(i as int)));
            }
        }
        i = i + 1;
    }
    proof {
        assert(lv.skip(i as int).len() == 0);
        assert(out.deep_view() =~= out.deep_view() + spec_material_lib_names_rec(
            lv.skip(i as int),
        ));
    }
    out
}

} // verus!
