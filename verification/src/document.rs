//! The persisted form of the grids.
//!
//! A terrain or wall grid is stored as its kind table and the base64 text of
//! its packed bytes; a layer as its name and the base64 text of its packed
//! points; the elevation grid as the base64 text of its bytes, one per tile.

use vstd::prelude::*;
use crate::base64_text::{
    encodable_len, standard_bytes, standard_decode, standard_encode, standard_text,
};
use crate::error::CodecError;
use crate::kinds::{
    decode_terrain, decode_walls, encode_terrain, encode_walls, kinds_in, labels_view,
    terrain_decoding, terrain_encoding, wall_labels, walls_decoding, walls_encoding, walls_view,
};
use crate::lookup::names_view;
use crate::points::{decode_points, encode_points, packed_points, points_decoding};

verus! {

/// A grid of kinds as it is stored: the kind table and the packed cells as
/// base64 text.
#[derive(Debug, Clone)]
pub struct U8WithKinds {
    pub kinds: Vec<String>,
    pub entries: String,
}

/// A named layer: the tiles it occupies.
#[derive(Debug, Clone)]
pub struct LayerPoints {
    pub name: String,
    pub points: Vec<(u16, u16)>,
}

/// A named layer as it is stored: its points as base64 text.
#[derive(Debug, Clone)]
pub struct LayerText {
    pub name: String,
    pub entries: String,
}

/// What reading base64 text as raw bytes gives.
pub open spec fn bytes_reading(text: Seq<char>) -> Result<Seq<u8>, CodecError> {
    match standard_bytes(text) {
        Some(bytes) => Ok(bytes),
        None => Err(CodecError::InvalidBase64),
    }
}

/// What reading a stored terrain grid gives.
pub open spec fn terrain_reading(kinds: Seq<Seq<char>>, text: Seq<char>) -> Result<
    Seq<Option<Seq<char>>>,
    CodecError,
> {
    match standard_bytes(text) {
        Some(packed) => terrain_decoding(kinds, packed),
        None => Err(CodecError::InvalidBase64),
    }
}

/// What reading a stored wall grid gives.
pub open spec fn walls_reading(kinds: Seq<Seq<char>>, text: Seq<char>) -> Result<
    Seq<(u8, Option<Seq<char>>)>,
    CodecError,
> {
    match standard_bytes(text) {
        Some(packed) => walls_decoding(kinds, packed),
        None => Err(CodecError::InvalidBase64),
    }
}

/// What reading a stored layer gives.
pub open spec fn layer_reading(text: Seq<char>) -> Result<Seq<(u16, u16)>, CodecError> {
    match standard_bytes(text) {
        Some(bytes) => points_decoding(bytes),
        None => Err(CodecError::InvalidBase64),
    }
}

/// The names of the layers of a set, in order.
pub open spec fn layer_names(layers: Seq<LayerPoints>) -> Seq<Seq<char>> {
    Seq::new(layers.len(), |i: int| layers[i].name@)
}

/// The names of the layers of a stored set, in order.
pub open spec fn stored_names(layers: Seq<LayerText>) -> Seq<Seq<char>> {
    Seq::new(layers.len(), |i: int| layers[i].name@)
}

/// Whether every layer of a set can be written as text.
pub open spec fn layers_encodable(layers: Seq<LayerPoints>) -> bool {
    forall|i: int|
        0 <= i < layers.len() ==> encodable_len(4 * (#[trigger] layers[i]).points@.len())
}

/// Layer `i` is the first of `layers` that cannot be read, and `e` is why.
pub open spec fn first_unreadable(layers: Seq<LayerText>, i: int, e: CodecError) -> bool {
    &&& 0 <= i < layers.len()
    &&& layer_reading(layers[i].entries@) == Err::<Seq<(u16, u16)>, CodecError>(e)
    &&& forall|j: int| 0 <= j < i ==> layer_reading((#[trigger] layers[j]).entries@) is Ok
}

/// The base64 text of raw bytes.
pub fn as_base64(input: &[u8]) -> (text: String)
    requires
        encodable_len(input@.len()),
    ensures
        text@ == standard_text(input@),
        bytes_reading(text@) == Ok::<Seq<u8>, CodecError>(input@),
{
    standard_encode(input)
}

/// The raw bytes of base64 text, or `InvalidBase64`.
pub fn from_base64(text: &str) -> (r: Result<Vec<u8>, CodecError>)
    ensures
        match r {
            Ok(bytes) => bytes_reading(text@) == Ok::<Seq<u8>, CodecError>(bytes@),
            Err(e) => bytes_reading(text@) == Err::<Seq<u8>, CodecError>(e),
        },
{
    match standard_decode(text) {
        Ok(bytes) => Ok(bytes),
        Err(_) => Err(CodecError::InvalidBase64),
    }
}

/// Puts a kind table and packed cells into their stored form.
pub fn serialize_u8_with_kinds(kinds: Vec<String>, vec: Vec<u8>) -> (doc: U8WithKinds)
    requires
        encodable_len(vec@.len()),
    ensures
        doc.kinds == kinds,
        doc.entries@ == standard_text(vec@),
        standard_bytes(doc.entries@) == Some(vec@),
{
    let entries = standard_encode(vec.as_slice());
    U8WithKinds { kinds, entries }
}

/// Packs and stores a terrain grid. Fails with `CapacityExceeded` where the
/// grid has more than 255 distinct kinds, and on no other input. What it
/// stores reads back as `input`. A grid that can be packed must be short
/// enough for its text to be held; one with too many kinds is refused
/// whatever its length.
pub fn ser_terrain(input: &[Option<String>]) -> (r: Result<U8WithKinds, CodecError>)
    requires
        kinds_in(labels_view(input@)).len() <= 255 ==> encodable_len(input@.len()),
    ensures
        r is Err <==> kinds_in(labels_view(input@)).len() > 255,
        match terrain_encoding(labels_view(input@)) {
            Ok((kinds, packed)) => r matches Ok(doc) && names_view(doc.kinds@) == kinds
                && doc.entries@ == standard_text(packed) && terrain_reading(
                names_view(doc.kinds@),
                doc.entries@,
            ) == Ok::<Seq<Option<Seq<char>>>, CodecError>(labels_view(input@)),
            Err(e) => r matches Err(f) && f == e,
        },
{
    match encode_terrain(input) {
        Ok((kinds, packed)) => {
            Ok(serialize_u8_with_kinds(kinds, packed))
        },
        Err(e) => Err(e),
    }
}

/// Reads a stored terrain grid. Fails with `InvalidBase64` where the text is
/// no base64, and with `InvalidIndex` where a cell names a kind that the
/// table lacks.
pub fn de_terrain(input: &U8WithKinds) -> (r: Result<Vec<Option<String>>, CodecError>)
    ensures
        match r {
            Ok(labels) => terrain_reading(names_view(input.kinds@), input.entries@) == Ok::<
                Seq<Option<Seq<char>>>,
                CodecError,
            >(labels_view(labels@)),
            Err(e) => terrain_reading(names_view(input.kinds@), input.entries@) == Err::<
                Seq<Option<Seq<char>>>,
                CodecError,
            >(e),
        },
{
    match from_base64(input.entries.as_str()) {
        Ok(packed) => decode_terrain(input.kinds.as_slice(), packed.as_slice()),
        Err(e) => Err(e),
    }
}

/// Packs and stores a wall grid. Fails with `CapacityExceeded` where the
/// grid has more than 255 distinct kinds, and on no other input. What it
/// stores reads back as `input`. A grid that can be packed must be short
/// enough for its text to be held; one with too many kinds is refused
/// whatever its length.
pub fn ser_walls(input: &[(u8, Option<String>)]) -> (r: Result<U8WithKinds, CodecError>)
    requires
        kinds_in(wall_labels(walls_view(input@))).len() <= 255 ==> encodable_len(
            2 * input@.len(),
        ),
    ensures
        r is Err <==> kinds_in(wall_labels(walls_view(input@))).len() > 255,
        match walls_encoding(walls_view(input@)) {
            Ok((kinds, packed)) => r matches Ok(doc) && names_view(doc.kinds@) == kinds
                && doc.entries@ == standard_text(packed) && walls_reading(
                names_view(doc.kinds@),
                doc.entries@,
            ) == Ok::<Seq<(u8, Option<Seq<char>>)>, CodecError>(walls_view(input@)),
            Err(e) => r matches Err(f) && f == e,
        },
{
    match encode_walls(input) {
        Ok((kinds, packed)) => {
            Ok(serialize_u8_with_kinds(kinds, packed))
        },
        Err(e) => Err(e),
    }
}

/// Reads a stored wall grid. Fails with `InvalidBase64` where the text is no
/// base64, with `MalformedLength` where the bytes are odd in number, and
/// with `InvalidIndex` where a cell names a kind that the table lacks.
pub fn de_walls(input: &U8WithKinds) -> (r: Result<Vec<(u8, Option<String>)>, CodecError>)
    ensures
        match r {
            Ok(walls) => walls_reading(names_view(input.kinds@), input.entries@) == Ok::<
                Seq<(u8, Option<Seq<char>>)>,
                CodecError,
            >(walls_view(walls@)),
            Err(e) => walls_reading(names_view(input.kinds@), input.entries@) == Err::<
                Seq<(u8, Option<Seq<char>>)>,
                CodecError,
            >(e),
        },
{
    match from_base64(input.entries.as_str()) {
        Ok(packed) => decode_walls(input.kinds.as_slice(), packed.as_slice()),
        Err(e) => Err(e),
    }
}

/// Stores every layer of a set, in order and under its name, so that a set
/// in which no name occurs twice stays one. What it stores for a layer reads
/// back as that layer's points.
pub fn ser_layer_set(input: &[LayerPoints]) -> (out: Vec<LayerText>)
    requires
        layers_encodable(input@),
    ensures
        out@.len() == input@.len(),
        stored_names(out@) == layer_names(input@),
        forall|i: int|
            0 <= i < input@.len() ==> {
                &&& (#[trigger] out@[i]).name@ == input@[i].name@
                &&& out@[i].entries@ == standard_text(packed_points(input@[i].points@))
                &&& layer_reading(out@[i].entries@) == Ok::<Seq<(u16, u16)>, CodecError>(
                    input@[i].points@,
                )
            },
{
    let mut out: Vec<LayerText> = Vec::new();
    let mut i: usize = 0;
    while i < input.len()
        invariant
            i <= input.len(),
            layers_encodable(input@),
            out@.len() == i,
            forall|j: int|
                0 <= j < i ==> {
                    &&& (#[trigger] out@[j]).name@ == input@[j].name@
                    &&& out@[j].entries@ == standard_text(packed_points(input@[j].points@))
                    &&& layer_reading(out@[j].entries@) == Ok::<Seq<(u16, u16)>, CodecError>(
                        input@[j].points@,
                    )
                },
        decreases input.len() - i,
    {
        let layer = &input[i];
        let bytes = encode_points(layer.points.as_slice());
        let entries = standard_encode(bytes.as_slice());
        out.push(LayerText { name: layer.name.clone(), entries });
        i = i + 1;
    }
    out
}

/// Reads every layer of a stored set, in order and under its name. A layer
/// whose text is empty is kept, with no points. The first layer that cannot
/// be read decides the error: `InvalidBase64` where its text is no base64,
/// `MalformedLength` where its last point is cut short.
pub fn de_layer_set(input: &[LayerText]) -> (r: Result<Vec<LayerPoints>, CodecError>)
    ensures
        match r {
            Ok(layers) => {
                &&& layers@.len() == input@.len()
                &&& layer_names(layers@) == stored_names(input@)
                &&& forall|i: int|
                    0 <= i < input@.len() ==> {
                        &&& (#[trigger] layers@[i]).name@ == input@[i].name@
                        &&& layer_reading(input@[i].entries@) == Ok::<
                            Seq<(u16, u16)>,
                            CodecError,
                        >(layers@[i].points@)
                    }
            },
            Err(e) => exists|i: int| first_unreadable(input@, i, e),
        },
{
    let mut out: Vec<LayerPoints> = Vec::new();
    let mut i: usize = 0;
    while i < input.len()
        invariant
            i <= input.len(),
            out@.len() == i,
            forall|j: int|
                0 <= j < i ==> {
                    &&& (#[trigger] out@[j]).name@ == input@[j].name@
                    &&& layer_reading(input@[j].entries@) == Ok::<Seq<(u16, u16)>, CodecError>(
                        out@[j].points@,
                    )
                },
            forall|j: int| 0 <= j < i ==> layer_reading((#[trigger] input@[j]).entries@) is Ok,
        decreases input.len() - i,
    {
        let layer = &input[i];
        let bytes = match from_base64(layer.entries.as_str()) {
            Ok(bytes) => bytes,
            Err(e) => {
                assert(first_unreadable(input@, i as int, e));
                return Err(e);
            },
        };
        let points = match decode_points(bytes.as_slice()) {
            Ok(points) => points,
            Err(e) => {
                assert(first_unreadable(input@, i as int, e));
                return Err(e);
            },
        };
        out.push(LayerPoints { name: layer.name.clone(), points });
        i = i + 1;
    }
    Ok(out)
}

} // verus!
