//! Reading the EXIF container: listing its primary fields and finding the
//! orientation tag.
use crate::orientation::{orientation_of_value, Orientation};
use vstd::prelude::*;

verus! {

/// A parsed EXIF container.
#[verifier::external_type_specification]
#[verifier::external_body]
pub struct ExExif(exif::Exif);

/// Why no EXIF container could be read.
#[verifier::external_type_specification]
#[verifier::external_body]
pub struct ExExifError(exif::Error);

/// Model of one EXIF field: the directory it belongs to (0 is the primary
/// image), the tag's name and the value rendered with its unit.
pub struct FieldModel {
    pub ifd: u16,
    pub name: Seq<char>,
    pub display: Seq<char>,
}

/// The fields of a parsed container, in the order they were met.
pub uninterp spec fn exif_fields(e: exif::Exif) -> Seq<FieldModel>;

/// The first value, as an unsigned integer, of the orientation field of the
/// primary image of a parsed container.
pub uninterp spec fn exif_orientation(e: exif::Exif) -> Option<u32>;

/// The fields of the EXIF container found in `bytes`, if one can be read.
pub uninterp spec fn exif_contents(bytes: Seq<u8>) -> Option<Seq<FieldModel>>;

/// The primary orientation value of the EXIF container found in `bytes`; none
/// when no container can be read.
pub uninterp spec fn exif_orientation_tag(bytes: Seq<u8>) -> Option<u32>;

/// Relies on exif::Reader::read_from_container: it parses the container found
/// in the bytes (an empty buffer is no known format), and the result depends
/// on the bytes alone.
#[verifier::external_body]
pub(crate) fn read_exif(bytes: &[u8]) -> (r: Result<exif::Exif, exif::Error>)
    ensures
        match r {
            Ok(e) => exif_contents(bytes@) == Some(exif_fields(e)) && exif_orientation_tag(bytes@)
                == exif_orientation(e),
            Err(_) => exif_contents(bytes@) is None && exif_orientation_tag(bytes@) is None,
        },
        bytes@.len() == 0 ==> r is Err,
{
    exif::Reader::new().read_from_container(&mut std::io::Cursor::new(bytes))
}

/// Relies on exif::Exif::fields: the number of fields.
#[verifier::external_body]
fn field_count(e: &exif::Exif) -> (r: usize)
    ensures
        r == exif_fields(*e).len(),
{
    e.fields().len()
}

/// Relies on exif::Exif::fields and exif::In::index: the directory of field `i`.
#[verifier::external_body]
fn field_ifd(e: &exif::Exif, i: usize) -> (r: u16)
    requires
        i < exif_fields(*e).len(),
    ensures
        r == exif_fields(*e)[i as int].ifd,
{
    e.fields().nth(i).unwrap().ifd_num.index()
}

/// Relies on exif::Exif::fields and the Display of exif::Tag: the name of the
/// tag of field `i` (its number where the tag has no registered name).
#[verifier::external_body]
fn field_name(e: &exif::Exif, i: usize) -> (r: String)
    requires
        i < exif_fields(*e).len(),
    ensures
        r@ == exif_fields(*e)[i as int].name,
{
    e.fields().nth(i).unwrap().tag.to_string()
}

/// Relies on exif::Exif::fields and exif::Field::display_value with
/// DisplayValue::with_unit: the value of field `i` rendered with its unit.
#[verifier::external_body]
fn field_display(e: &exif::Exif, i: usize) -> (r: String)
    requires
        i < exif_fields(*e).len(),
    ensures
        r@ == exif_fields(*e)[i as int].display,
{
    e.fields().nth(i).unwrap().display_value().with_unit(e).to_string()
}

/// Relies on exif::Exif::get_field with Tag::Orientation and In::PRIMARY, and
/// exif::Value::get_uint at index 0.
#[verifier::external_body]
fn orientation_value(e: &exif::Exif) -> (r: Option<u32>)
    ensures
        r == exif_orientation(*e),
{
    match e.get_field(exif::Tag::Orientation, exif::In::PRIMARY) {
        Some(f) => f.value.get_uint(0),
        None => None,
    }
}

/// The (name, display string) pairs of the primary-image fields of `fields`,
/// in order, duplicates kept.
pub open spec fn primary_pairs(fields: Seq<FieldModel>) -> Seq<(Seq<char>, Seq<char>)>
    decreases fields.len(),
{
    if fields.len() == 0 {
        seq![]
    } else {
        let rest = primary_pairs(fields.drop_last());
        let f = fields.last();
        if f.ifd == 0 {
            rest.push((f.name, f.display))
        } else {
            rest
        }
    }
}

/// The pairs of strings as character sequences.
pub open spec fn pairs_view(pairs: Seq<(String, String)>) -> Seq<(Seq<char>, Seq<char>)> {
    pairs.map_values(|p: (String, String)| (p.0@, p.1@))
}

/// Lists the fields of the primary image of `e` as (name, display string).
pub fn metadata_pairs(e: &exif::Exif) -> (r: Vec<(String, String)>)
    ensures
        pairs_view(r@) == primary_pairs(exif_fields(*e)),
{
    let n = field_count(e);
    let ghost fields = exif_fields(*e);
    let mut out: Vec<(String, String)> = Vec::new();
    let mut i: usize = 0;
    while i < n
        invariant
            n == fields.len(),
            fields == exif_fields(*e),
            i <= n,
            pairs_view(out@) == primary_pairs(fields.take(i as int)),
        decreases n - i,
    {
        assert(fields.take(i as int + 1).drop_last() =~= fields.take(i as int));
        if field_ifd(e, i) == 0 {
            let name = field_name(e, i);
            let display = field_display(e, i);
            let ghost before = out@;
            out.push((name, display));
            assert(pairs_view(out@) =~= pairs_view(before).push((name@, display@)));
        }
        i = i + 1;
    }
    assert(fields.take(n as int) =~= fields);
    out
}

/// The EXIF fields of the primary image in `image_data`, as (name, display
/// string) pairs; empty when the bytes hold no readable container.
pub fn get_exif_data(image_data: Vec<u8>) -> (r: Vec<(String, String)>)
    ensures
        pairs_view(r@) == match exif_contents(image_data@) {
            Some(fields) => primary_pairs(fields),
            None => seq![],
        },
        exif_contents(image_data@) is None ==> r@.len() == 0,
{
    match read_exif(image_data.as_slice()) {
        Ok(e) => metadata_pairs(&e),
        Err(_) => {
            let out: Vec<(String, String)> = Vec::new();
            assert(pairs_view(out@) =~= seq![]);
            out
        },
    }
}

/// The orientation recorded in a metadata read; `Unspecified` when the read
/// failed, the tag is absent, or its value is outside 1..=8.
pub fn resolve(meta: &Result<exif::Exif, exif::Error>) -> (r: Orientation)
    ensures
        r == match meta {
            Ok(e) => orientation_of_value(exif_orientation(*e)),
            Err(_) => Orientation::Unspecified,
        },
{
    match meta {
        Ok(e) => Orientation::from_tag_value(orientation_value(e)),
        Err(_) => Orientation::Unspecified,
    }
}

/// The orientation recorded in the EXIF container of `bytes`.
pub fn orientation_of(bytes: &[u8]) -> (r: Orientation)
    ensures
        r == orientation_of_value(exif_orientation_tag(bytes@)),
{
    let meta = read_exif(bytes);
    resolve(&meta)
}

} // verus!
