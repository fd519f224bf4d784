//! The ID3v2 tag, held by the id3 crate, seen as the sequence of its general
//! encapsulated object (GEOB) frames.
use id3::frame::EncapsulatedObject;
use id3::{ErrorKind, Tag, TagLike};
use vstd::prelude::*;

verus! {

#[verifier::external_type_specification]
#[verifier::external_body]
pub struct ExTag(Tag);

/// A general encapsulated object frame: a named, typed binary blob with a
/// description that tells frames apart.
pub struct EmbeddedObject {
    pub mime_type: String,
    pub filename: String,
    pub description: String,
    pub data: Vec<u8>,
}

/// The contents of an `EmbeddedObject`.
pub struct ObjectModel {
    pub mime_type: Seq<char>,
    pub filename: Seq<char>,
    pub description: Seq<char>,
    pub data: Seq<u8>,
}

impl View for EmbeddedObject {
    type V = ObjectModel;

    open spec fn view(&self) -> ObjectModel {
        ObjectModel {
            mime_type: self.mime_type@,
            filename: self.filename@,
            description: self.description@,
            data: self.data@,
        }
    }
}

/// Why no tag could be read from a file's bytes.
#[derive(PartialEq, Eq, Structural, Clone, Copy, Debug)]
pub enum TagReadFailure {
    /// The bytes hold no ID3v2 tag.
    NoTag,
    /// A tag is there but could not be decoded.
    Malformed,
}

/// The GEOB frames of a tag, in the order in which the tag stores them.
pub uninterp spec fn tag_objects(t: Tag) -> Seq<ObjectModel>;

/// The number of frames of any kind that a tag holds.
pub uninterp spec fn tag_frame_count(t: Tag) -> nat;

/// The tag that decoding the ID3v2 tag in `bytes` gives, or why there is
/// none.
pub uninterp spec fn tag_read(bytes: Seq<u8>) -> Result<Tag, TagReadFailure>;

/// The tag `t` after the GEOB frame `o` was added to it; every other frame
/// of `t` stays.
pub uninterp spec fn tag_with_object(t: Tag, o: ObjectModel) -> Tag;

/// The GEOB frames of the tag in `bytes`, or why there is none.
pub open spec fn decoded_tag(bytes: Seq<u8>) -> Result<Seq<ObjectModel>, TagReadFailure> {
    match tag_read(bytes) {
        Ok(t) => Ok(tag_objects(t)),
        Err(e) => Err(e),
    }
}

/// Whether some object in `objs` has the description `d`.
pub open spec fn has_description(objs: Seq<ObjectModel>, d: Seq<char>) -> bool {
    exists|i: int| 0 <= i < objs.len() && (#[trigger] objs[i]).description == d
}

/// `objs` without its first object described `d`, where there is one.
pub open spec fn without_first_described(objs: Seq<ObjectModel>, d: Seq<char>) -> Seq<ObjectModel>
    decreases objs.len(),
{
    if objs.len() == 0 {
        objs
    } else if objs[0].description == d {
        objs.drop_first()
    } else {
        seq![objs[0]] + without_first_described(objs.drop_first(), d)
    }
}

/// The objects of a tag after `o` was added: an object with the same
/// description is replaced, and `o` goes last.
pub open spec fn added_object(objs: Seq<ObjectModel>, o: ObjectModel) -> Seq<ObjectModel> {
    without_first_described(objs, o.description).push(o)
}

/// Relies on `Tag::new`: a tag with no frames.
#[verifier::external_body]
pub(crate) fn new_tag() -> (r: Tag)
    ensures
        tag_objects(r) == Seq::<ObjectModel>::empty(),
        tag_frame_count(r) == 0,
{
    Tag::new()
}

/// Relies on `Tag::read_from2` over the bytes in memory: it decodes the tag
/// that the bytes hold, and reports `ErrorKind::NoTag` where they hold none.
#[verifier::external_body]
pub(crate) fn read_tag(audio: &[u8]) -> (r: Result<Tag, TagReadFailure>)
    ensures
        r == tag_read(audio@),
{
    Tag::read_from2(std::io::Cursor::new(audio)).map_err(|e| match e.kind {
        ErrorKind::NoTag => TagReadFailure::NoTag,
        _ => TagReadFailure::Malformed,
    })
}

/// Relies on `TagLike::add_frame` with a GEOB frame: it removes the first
/// frame that compares equal to the new one (for GEOB frames: the same
/// description), appends the new frame, and returns the removed one.
#[verifier::external_body]
pub(crate) fn add_object(tag: &mut Tag, obj: EmbeddedObject) -> (replaced: bool)
    ensures
        *final(tag) == tag_with_object(*old(tag), obj@),
        tag_objects(*final(tag)) == added_object(tag_objects(*old(tag)), obj@),
        replaced == has_description(tag_objects(*old(tag)), obj@.description),
{
    let frame = EncapsulatedObject {
        mime_type: obj.mime_type,
        filename: obj.filename,
        description: obj.description,
        data: obj.data,
    };
    tag.add_frame(frame).is_some()
}

/// Relies on `Tag::encapsulated_objects`: the GEOB frames of the tag, in
/// storage order, each copied out field by field.
#[verifier::external_body]
pub(crate) fn objects_of(tag: &Tag) -> (r: Vec<EmbeddedObject>)
    ensures
        r@.map_values(|o: EmbeddedObject| o@) == tag_objects(*tag),
{
    tag.encapsulated_objects().map(|o| EmbeddedObject {
        mime_type: o.mime_type.clone(),
        filename: o.filename.clone(),
        description: o.description.clone(),
        data: o.data.clone(),
    }).collect()
}

} // verus!
