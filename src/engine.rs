//! Embedding a payload into an audio file's tag, and extracting payloads
//! from it, on the files' contents in memory.
use id3::Tag;
use vstd::prelude::*;

use crate::classify::{
    allowed_audio_mime, is_supported_filetype, payload_mime, payload_mime_type, sniff_window,
    sniffed_mime,
};
use crate::paths::{
    add_filename_prefix_preserve_path, get_filename_drop_path, is_bare_name, is_prefixed_name,
    path_file_name, resolves_to,
};
use crate::slot::{
    fresh_slot_key, is_marked, is_marked_description, is_slot_key, lemma_slot_key_is_marked,
    object_views,
};
use crate::tag::{
    add_object, added_object, decoded_tag, has_description, new_tag, objects_of, read_tag,
    tag_frame_count, tag_objects, tag_read, tag_with_object, without_first_described,
    EmbeddedObject, ObjectModel, TagReadFailure,
};

verus! {

/// The largest payload, in bytes, that fits in one frame.
pub const MAX_FRAME_SIZE: usize = 16_000_000;

/// The prefix of an embed's output file name.
pub open spec fn output_prefix() -> Seq<char> {
    "output-"@
}

/// The prefix of an extracted payload's file name.
pub open spec fn extracted_prefix() -> Seq<char> {
    "extracted-"@
}

/// What can go wrong in embedding or extracting.
#[derive(PartialEq, Eq, Structural, Clone, Copy, Debug)]
pub enum StegoError {
    /// The audio file is not MP3, WAV or AIFF.
    UnsupportedAudioType,
    /// The payload is larger than `MAX_FRAME_SIZE`.
    PayloadTooLarge,
    /// A file could not be opened, read, copied or written.
    IoFailure,
    /// The audio file holds no tag, so there is nothing to extract.
    TagNotFound,
    /// The tag could not be decoded, or not be encoded again.
    TagCodecFailure,
    /// Some extracted payloads could not be written.
    PartialExtractFailure,
}

/// Whether `r` is the error `e`.
pub open spec fn fails_with<T>(r: Result<T, StegoError>, e: StegoError) -> bool {
    r is Err && r->Err_0 == e
}

/// The GEOB frames that an embed starts from: those of the tag in `audio`,
/// or none where it holds no tag.
pub open spec fn prior_objects(audio: Seq<u8>) -> Seq<ObjectModel> {
    match decoded_tag(audio) {
        Ok(objs) => objs,
        Err(_) => Seq::empty(),
    }
}

/// The frames of `objs` whose description is marked, in their order.
pub open spec fn marked_objects(objs: Seq<ObjectModel>) -> Seq<ObjectModel>
    decreases objs.len(),
{
    if objs.len() == 0 {
        Seq::empty()
    } else {
        let rest = marked_objects(objs.drop_last());
        if is_marked(objs.last().description) {
            rest.push(objs.last())
        } else {
            rest
        }
    }
}

/// What an embed did: the output file's path, the tag to write into the
/// copy of the audio file there, and the frame that was added to it.
pub struct PutOutcome {
    /// Where the output file goes: beside the audio file, under a prefixed name.
    pub output_filename: String,
    /// The audio file's tag with the new frame added.
    pub tag: Tag,
    /// The payload's bare file name, as recorded in the frame.
    pub frame_filename: String,
    /// The payload's mime type, as recorded in the frame.
    pub mime_type: String,
    /// The description under which the frame was stored.
    pub slot_key: String,
    /// Whether a frame with the same description was replaced.
    pub replaced: bool,
    /// The tag that the frame was added to: the audio file's own, or a new
    /// empty one.
    pub prior_tag: Ghost<Tag>,
}

/// The frame that an embed recorded, given the payload's bytes.
pub open spec fn recorded_object(out: PutOutcome, data: Seq<u8>) -> ObjectModel {
    ObjectModel {
        mime_type: out.mime_type@,
        filename: out.frame_filename@,
        description: out.slot_key@,
        data: data,
    }
}

/// A payload found in a tag, and where it is to be written.
pub struct Extraction {
    /// The file name recorded in the frame.
    pub frame_filename: String,
    /// The path to write the payload to.
    pub extracted_filename: String,
    /// The payload's bytes.
    pub data: Vec<u8>,
}

/// `e` is the extraction of the frame `o` from the audio file at `reference`.
pub open spec fn extraction_of(reference: Seq<char>, o: ObjectModel, e: Extraction) -> bool {
    &&& e.frame_filename@ == o.filename
    &&& e.data@ == o.data
    &&& resolves_to(reference, o.filename, extracted_prefix(), e.extracted_filename@)
}

/// `plan` extracts the frames `ms`, one for one and in order.
pub open spec fn is_plan(reference: Seq<char>, ms: Seq<ObjectModel>, plan: Seq<Extraction>) -> bool {
    &&& plan.len() == ms.len()
    &&& forall|i: int| 0 <= i < ms.len() ==> extraction_of(reference, ms[i], #[trigger] plan[i])
}

/// What extraction reports for the marked frames `ms`: nothing where there
/// are none, else one entry for each.
pub open spec fn found_payloads(
    reference: Seq<char>,
    ms: Seq<ObjectModel>,
    found: Option<Vec<Extraction>>,
) -> bool {
    match found {
        None => ms.len() == 0,
        Some(v) => ms.len() > 0 && is_plan(reference, ms, v@),
    }
}

/// The extractions of the marked frames among `objects`, each to be written
/// beside the audio file at `audio_filename` under an `extracted-` name.
pub fn extraction_plan(audio_filename: &String, objects: &Vec<EmbeddedObject>) -> (r: Vec<
    Extraction,
>)
    ensures
        is_plan(audio_filename@, marked_objects(object_views(objects@)), r@),
{
    let ghost views = object_views(objects@);
    let mut plan: Vec<Extraction> = Vec::new();
    let mut i: usize = 0;
    while i < objects.len()
        invariant
            0 <= i <= objects@.len(),
            views == object_views(objects@),
            is_plan(audio_filename@, marked_objects(views.subrange(0, i as int)), plan@),
        decreases objects@.len() - i,
    {
        let obj = &objects[i];
        assert(views.subrange(0, i + 1).drop_last() =~= views.subrange(0, i as int));
        if is_marked_description(obj.description.as_str()) {
            let mut prefix = "extracted-".to_owned();
            let path = add_filename_prefix_preserve_path(audio_filename, &obj.filename, &mut prefix);
            let data = obj.data.clone();
            assert(data@ =~= obj.data@);
            plan.push(
                Extraction { frame_filename: obj.filename.clone(), extracted_filename: path, data },
            );
        }
        i = i + 1;
    }
    assert(views.subrange(0, objects@.len() as int) =~= views);
    plan
}

/// Extracts the payloads embedded in an audio file's tag.
///
/// `audio` is the content of the file at `audio_filename`. Each frame whose
/// description holds the marker gives one entry, in the tag's order; `None`
/// where the tag holds no such frame.
pub fn get(audio_filename: &String, audio: &[u8]) -> (r: Result<
    Option<Vec<Extraction>>,
    StegoError,
>)
    ensures
        allowed_audio_mime(sniffed_mime(sniff_window(audio@))) is None ==> fails_with(
            r,
            StegoError::UnsupportedAudioType,
        ),
        allowed_audio_mime(sniffed_mime(sniff_window(audio@))) is Some ==> match decoded_tag(audio@) {
            Err(TagReadFailure::NoTag) => fails_with(r, StegoError::TagNotFound),
            Err(TagReadFailure::Malformed) => fails_with(r, StegoError::TagCodecFailure),
            Ok(objs) => r is Ok && found_payloads(audio_filename@, marked_objects(objs), r->Ok_0),
        },
{
    if is_supported_filetype(audio).is_none() {
        return Err(StegoError::UnsupportedAudioType);
    }
    let tag = match read_tag(audio) {
        Ok(tag) => tag,
        Err(TagReadFailure::NoTag) => return Err(StegoError::TagNotFound),
        Err(TagReadFailure::Malformed) => return Err(StegoError::TagCodecFailure),
    };
    let objects = objects_of(&tag);
    let plan = extraction_plan(audio_filename, &objects);
    if plan.len() == 0 {
        Ok(None)
    } else {
        Ok(Some(plan))
    }
}

/// Embeds a payload into the tag of an audio file.
///
/// `audio` is the content of the file at `audio_filename`, `other` that of
/// the payload at `other_filename`. The result holds the output file's path
/// (beside the audio file, under an `output-` name) and the audio file's tag
/// (a new one where it has none) with the payload added in a new GEOB frame,
/// under a fresh slot key. Writing the tag into a copy of the audio file is
/// left to the caller.
pub fn put(audio_filename: &String, audio: &[u8], other_filename: &String, other: Vec<u8>) -> (r:
    Result<PutOutcome, StegoError>)
    ensures
        allowed_audio_mime(sniffed_mime(sniff_window(audio@))) is None ==> fails_with(
            r,
            StegoError::UnsupportedAudioType,
        ),
        allowed_audio_mime(sniffed_mime(sniff_window(audio@))) is Some && other@.len() > MAX_FRAME_SIZE
            ==> fails_with(r, StegoError::PayloadTooLarge),
        allowed_audio_mime(sniffed_mime(sniff_window(audio@))) is Some && other@.len() <= MAX_FRAME_SIZE
            && tag_read(audio@) == Err::<Tag, TagReadFailure>(TagReadFailure::Malformed)
            ==> fails_with(r, StegoError::TagCodecFailure),
        allowed_audio_mime(sniffed_mime(sniff_window(audio@))) is Some && other@.len() <= MAX_FRAME_SIZE
            && tag_read(audio@) != Err::<Tag, TagReadFailure>(TagReadFailure::Malformed) ==> r is Ok,
        r is Ok ==> {
            let out = r->Ok_0;
            &&& allowed_audio_mime(sniffed_mime(sniff_window(audio@))) is Some
            &&& other@.len() <= MAX_FRAME_SIZE
            &&& resolves_to(
                audio_filename@,
                audio_filename@,
                output_prefix(),
                out.output_filename@,
            )
            &&& is_bare_name(other_filename@, Seq::empty(), out.frame_filename@)
            &&& out.mime_type@ == payload_mime(sniffed_mime(sniff_window(other@)))
            &&& is_slot_key(out.slot_key@)
            &&& match tag_read(audio@) {
                Ok(t) => out.prior_tag@ == t,
                Err(_) => tag_frame_count(out.prior_tag@) == 0 && tag_objects(out.prior_tag@)
                    == Seq::<ObjectModel>::empty(),
            }
            &&& out.tag == tag_with_object(out.prior_tag@, recorded_object(out, other@))
            &&& tag_objects(out.tag) == added_object(
                prior_objects(audio@),
                recorded_object(out, other@),
            )
            &&& out.replaced == has_description(prior_objects(audio@), out.slot_key@)
        },
{
    let mut output_file_prefix = "output-".to_owned();
    let output_filename = add_filename_prefix_preserve_path(
        audio_filename,
        audio_filename,
        &mut output_file_prefix,
    );
    if is_supported_filetype(audio).is_none() {
        return Err(StegoError::UnsupportedAudioType);
    }
    if other.len() > MAX_FRAME_SIZE {
        return Err(StegoError::PayloadTooLarge);
    }
    let mime_type = payload_mime_type(other.as_slice());
    let mut tag = match read_tag(audio) {
        Ok(tag) => tag,
        Err(TagReadFailure::NoTag) => new_tag(),
        Err(TagReadFailure::Malformed) => return Err(StegoError::TagCodecFailure),
    };
    let ghost prior = tag;
    assert(tag_objects(prior) == prior_objects(audio@));
    let frame_filename = get_filename_drop_path(other_filename.as_str(), &String::new());
    let existing = objects_of(&tag);
    let slot_key = fresh_slot_key(&existing);
    let ghost data = other@;
    let object = EmbeddedObject {
        mime_type: mime_type.clone(),
        filename: frame_filename.clone(),
        description: slot_key.clone(),
        data: other,
    };
    let ghost model = object@;
    let replaced = add_object(&mut tag, object);
    let out = PutOutcome {
        output_filename,
        tag,
        frame_filename,
        mime_type,
        slot_key,
        replaced,
        prior_tag: Ghost(prior),
    };
    assert(recorded_object(out, data) == model);
    Ok(out)
}

/// Appending a frame to a tag appends it to the marked frames exactly when
/// its description is marked.
pub proof fn lemma_marked_objects_push(objs: Seq<ObjectModel>, o: ObjectModel)
    ensures
        marked_objects(objs.push(o)) == if is_marked(o.description) {
            marked_objects(objs).push(o)
        } else {
            marked_objects(objs)
        },
{
    assert(objs.push(o).drop_last() =~= objs);
}

/// Removing the first frame described `d` leaves a frame with another
/// description, appended last, in place.
pub proof fn lemma_without_first_described_push(objs: Seq<ObjectModel>, o: ObjectModel, d: Seq<char>)
    requires
        o.description != d,
    ensures
        without_first_described(objs.push(o), d) == without_first_described(objs, d).push(o),
    decreases objs.len(),
{
    if objs.len() == 0 {
        assert(objs.push(o).drop_first() =~= objs);
        assert(seq![o] + objs =~= objs.push(o));
    } else {
        assert(objs.push(o)[0] == objs[0]);
        assert(objs.push(o).drop_first() =~= objs.drop_first().push(o));
        if objs[0].description != d {
            lemma_without_first_described_push(objs.drop_first(), o, d);
            assert(seq![objs[0]] + without_first_described(objs.drop_first(), d).push(o)
                =~= (seq![objs[0]] + without_first_described(objs.drop_first(), d)).push(o));
        }
    }
}

/// An embedded payload is found again: whatever a tag held before, once a
/// frame is added to it under a slot key, extraction from that tag finds the
/// frame last, with its recorded file name and its bytes unchanged.
pub proof fn lemma_embedded_payload_is_extracted(
    reference: Seq<char>,
    prior: Seq<ObjectModel>,
    o: ObjectModel,
    plan: Seq<Extraction>,
)
    requires
        is_slot_key(o.description),
        is_plan(reference, marked_objects(added_object(prior, o)), plan),
    ensures
        plan.len() > 0,
        extraction_of(reference, o, plan.last()),
{
    lemma_slot_key_is_marked(o.description);
    lemma_marked_objects_push(without_first_described(prior, o.description), o);
}

/// Two payloads embedded one after the other, under different slot keys,
/// are both found by extraction, the first before the second, each with its
/// own file name and bytes.
pub proof fn lemma_two_payloads_are_extracted(
    reference: Seq<char>,
    prior: Seq<ObjectModel>,
    o1: ObjectModel,
    o2: ObjectModel,
    plan: Seq<Extraction>,
)
    requires
        is_slot_key(o1.description),
        is_slot_key(o2.description),
        o1.description != o2.description,
        is_plan(reference, marked_objects(added_object(added_object(prior, o1), o2)), plan),
    ensures
        plan.len() >= 2,
        extraction_of(reference, o1, plan[plan.len() - 2]),
        extraction_of(reference, o2, plan[plan.len() - 1]),
{
    lemma_slot_key_is_marked(o1.description);
    lemma_slot_key_is_marked(o2.description);
    let base = without_first_described(prior, o1.description);
    let rest = without_first_described(base, o2.description);
    lemma_without_first_described_push(base, o1, o2.description);
    lemma_marked_objects_push(rest.push(o1), o2);
    lemma_marked_objects_push(rest, o1);
    let ms = marked_objects(added_object(added_object(prior, o1), o2));
    assert(ms == marked_objects(rest).push(o1).push(o2));
    assert(ms[ms.len() - 2] == o1);
}

/// A tag whose frames carry no marked description has no marked frames.
proof fn lemma_no_marked_objects(objs: Seq<ObjectModel>)
    requires
        forall|i: int| 0 <= i < objs.len() ==> !is_marked(#[trigger] objs[i].description),
    ensures
        marked_objects(objs).len() == 0,
    decreases objs.len(),
{
    if objs.len() > 0 {
        let init = objs.drop_last();
        assert forall|i: int| 0 <= i < init.len() implies !is_marked(
            #[trigger] init[i].description,
        ) by {
            assert(init[i] == objs[i]);
        }
        lemma_no_marked_objects(init);
        assert(!is_marked(objs[objs.len() - 1].description));
    }
}

/// A tag whose frames carry no marked description yields nothing:
/// extraction reports that no payload was found, which is no error.
pub proof fn lemma_unmarked_tag_yields_nothing(
    reference: Seq<char>,
    objs: Seq<ObjectModel>,
    found: Option<Vec<Extraction>>,
)
    requires
        forall|i: int| 0 <= i < objs.len() ==> !is_marked(#[trigger] objs[i].description),
        found_payloads(reference, marked_objects(objs), found),
    ensures
        found is None,
{
    lemma_no_marked_objects(objs);
}

/// An embed's output file name differs from the audio file's own name: it
/// is that name with the `output-` prefix in front.
pub proof fn lemma_output_name_differs(audio_filename: Seq<char>, output_name: Seq<char>)
    requires
        is_prefixed_name(audio_filename, output_prefix(), output_name),
    ensures
        path_file_name(audio_filename) != Some(output_name),
{
    reveal_strlit("output-");
    if path_file_name(audio_filename) == Some(output_name) {
        let rest = output_name.subrange(output_prefix().len() as int, output_name.len() as int);
        assert(rest == output_name);
        assert(rest.len() < output_name.len());
    }
}

} // verus!
