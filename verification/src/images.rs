//! The image resolution phase: planning each document image from its
//! declared source — a URI, or a byte range inside an already-resolved
//! buffer — decoding what is in hand, and mapping the batch loader's
//! answer onto the pending entries.

use std::collections::HashMap;

use vstd::prelude::*;
use vstd::slice::{slice_subrange, slice_to_vec};

use crate::buffers::buffer_map_view;
use crate::codec::{
    base64_decoding, decode_base64, decode_image_bytes, image_decode_outcome, mime_view,
    resolve_format, resolved_format, DecodedImage, DecodedImageV,
};
use crate::document::{
    image_entries_view, opt_string_view, ImageEntry, ImageEntryV, ImageSource, ImageSourceV,
};
use crate::error::{ErrorV, ImportError};
use crate::fetch::{bundle_lookup, FetchBundle, FetchEntryV};
use crate::scheme::{classify, Scheme, SchemeV};
use crate::text::{contains_string, join_path, joined_path, string_seq_view};

verus! {

broadcast use vstd::std_specs::hash::group_hash_axioms;

/// Spec-level mirror of `ImagePlan`.
pub ghost enum ImagePlanV {
    Loaded { index: usize, data: DecodedImageV },
    Pending { index: usize, path: Seq<char>, mime_type: Option<Seq<char>> },
}

/// One document image after planning: already decoded, or a path awaiting
/// the batch loader.
#[derive(Debug, PartialEq)]
pub enum ImagePlan {
    /// An image already decoded, from a data URI or a buffer view.
    Loaded { index: usize, data: DecodedImage },
    /// Encoded bytes to be fetched from a path.
    Pending { index: usize, path: String, mime_type: Option<String> },
}

impl View for ImagePlan {
    type V = ImagePlanV;

    open spec fn view(&self) -> ImagePlanV {
        match self {
            ImagePlan::Loaded { index, data } => ImagePlanV::Loaded { index: *index, data: data@ },
            ImagePlan::Pending { index, path, mime_type } => ImagePlanV::Pending {
                index: *index,
                path: path@,
                mime_type: match mime_type {
                    Some(m) => Some(m@),
                    None => None,
                },
            },
        }
    }
}

/// The views of a sequence of image plans.
pub open spec fn image_plans_view(s: Seq<ImagePlan>) -> Seq<ImagePlanV> {
    Seq::new(s.len(), |i: int| s[i]@)
}

/// The document index a plan belongs to.
pub open spec fn image_plan_index(p: ImagePlanV) -> usize {
    match p {
        ImagePlanV::Loaded { index, .. } => index,
        ImagePlanV::Pending { index, .. } => index,
    }
}

/// The first of two optional media-type hints.
pub open spec fn opt_or(a: Option<Seq<char>>, b: Option<Seq<char>>) -> Option<Seq<char>> {
    match a {
        Some(x) => Some(x),
        None => b,
    }
}

/// The image decoded from encoded bytes under the two-tier format policy,
/// or the first error: an unrecognized encoding, or the codec's failure.
pub open spec fn decoded_image_outcome(bytes: Seq<u8>, mime: Option<Seq<char>>) -> Result<
    DecodedImageV,
    ErrorV,
> {
    match resolved_format(bytes, mime) {
        Err(e) => Err(e),
        Ok(fmt) => match image_decode_outcome(bytes, fmt) {
            Ok(img) => Ok(img),
            Err(m) => Err(ErrorV::CodecError(m)),
        },
    }
}

/// Decodes encoded image bytes under the two-tier format policy.
pub fn load_image_from_buffer(bytes: &[u8], mime: Option<&String>) -> (r: Result<
    DecodedImage,
    ImportError,
>)
    ensures
        match r {
            Ok(img) => decoded_image_outcome(bytes@, mime_view(mime)) == Ok::<
                DecodedImageV,
                ErrorV,
            >(img@),
            Err(e) => decoded_image_outcome(bytes@, mime_view(mime)) == Err::<
                DecodedImageV,
                ErrorV,
            >(e@),
        },
{
    let fmt = match resolve_format(bytes, mime) {
        Ok(f) => f,
        Err(e) => {
            return Err(e);
        },
    };
    match decode_image_bytes(bytes, fmt) {
        Ok(img) => Ok(img),
        Err(m) => Err(ImportError::CodecError(m)),
    }
}

/// The image decoded from a data URI's payload.
pub open spec fn data_uri_image_outcome(payload: Seq<char>, mime: Option<Seq<char>>) -> Result<
    DecodedImageV,
    ErrorV,
> {
    match base64_decoding(payload) {
        None => Err(ErrorV::InvalidEncoding),
        Some(bytes) => decoded_image_outcome(bytes, mime),
    }
}

/// Decodes the image embedded in a data URI's base64 payload.
pub fn load_image_from_data_uri(mime: Option<&String>, payload: &str) -> (r: Result<
    DecodedImage,
    ImportError,
>)
    ensures
        match r {
            Ok(img) => data_uri_image_outcome(payload@, mime_view(mime)) == Ok::<
                DecodedImageV,
                ErrorV,
            >(img@),
            Err(e) => data_uri_image_outcome(payload@, mime_view(mime)) == Err::<
                DecodedImageV,
                ErrorV,
            >(e@),
        },
{
    let bytes = match decode_base64(payload) {
        Some(b) => b,
        None => {
            return Err(ImportError::InvalidEncoding);
        },
    };
    load_image_from_buffer(bytes.as_slice(), mime)
}

/// The plan for one image entry.
///
/// Any URI-sourced image needs a base directory, whatever the scheme; a
/// data URI is decoded on the spot, with the URI's media type taking
/// precedence over the document's hint; file, relative and external
/// references become pending fetches. A buffer-view image slices the
/// referenced resolved buffer and decodes at once; a reference to an
/// unresolved buffer is a missing resource.
pub open spec fn plan_one_image(
    e: ImageEntryV,
    base: Option<Seq<char>>,
    buffers: Map<usize, Seq<u8>>,
) -> Result<ImagePlanV, ErrorV> {
    match e.source {
        ImageSourceV::Uri { uri, mime_type } => match base {
            None => Err(ErrorV::ExternalReferenceInSliceImport),
            Some(b) => match classify(uri) {
                SchemeV::Data(media, payload) => match data_uri_image_outcome(
                    payload,
                    opt_or(media, mime_type),
                ) {
                    Ok(img) => Ok(ImagePlanV::Loaded { index: e.index, data: img }),
                    Err(err) => Err(err),
                },
                SchemeV::File(p) => Ok(
                    ImagePlanV::Pending { index: e.index, path: p, mime_type },
                ),
                SchemeV::Relative => Ok(
                    ImagePlanV::Pending { index: e.index, path: joined_path(b, uri), mime_type },
                ),
                SchemeV::External(url) => Ok(
                    ImagePlanV::Pending { index: e.index, path: url, mime_type },
                ),
                SchemeV::Unsupported => Err(ErrorV::UnsupportedScheme),
            },
        },
        ImageSourceV::BufferView { buffer_index, offset, length, mime_type } => {
            if !buffers.dom().contains(buffer_index) {
                Err(ErrorV::MissingBlob)
            } else {
                match decoded_image_outcome(
                    buffers[buffer_index].subrange(offset as int, offset + length),
                    Some(mime_type),
                ) {
                    Ok(img) => Ok(ImagePlanV::Loaded { index: e.index, data: img }),
                    Err(err) => Err(err),
                }
            }
        },
    }
}

/// The plans for a prefix of the image list, processed in document order,
/// fail-fast.
pub open spec fn plan_images_upto(
    entries: Seq<ImageEntryV>,
    base: Option<Seq<char>>,
    buffers: Map<usize, Seq<u8>>,
) -> Result<Seq<ImagePlanV>, ErrorV>
    decreases entries.len(),
{
    if entries.len() == 0 {
        Ok(Seq::empty())
    } else {
        match plan_images_upto(entries.drop_last(), base, buffers) {
            Err(e) => Err(e),
            Ok(plans) => match plan_one_image(entries.last(), base, buffers) {
                Err(e) => Err(e),
                Ok(p) => Ok(plans.push(p)),
            },
        }
    }
}

/// Image planning that has failed on a prefix fails the whole list with
/// the same error.
pub proof fn lemma_image_plan_error_persists(
    entries: Seq<ImageEntryV>,
    base: Option<Seq<char>>,
    buffers: Map<usize, Seq<u8>>,
    i: int,
)
    requires
        0 <= i <= entries.len(),
        plan_images_upto(entries.take(i), base, buffers) is Err,
    ensures
        plan_images_upto(entries, base, buffers) == plan_images_upto(
            entries.take(i),
            base,
            buffers,
        ),
    decreases entries.len() - i,
{
    if i == entries.len() {
        assert(entries.take(i) =~= entries);
    } else {
        assert(entries.take(i + 1).drop_last() =~= entries.take(i));
        lemma_image_plan_error_persists(entries, base, buffers, i + 1);
    }
}

/// Planning a prefix of the image list whose entries each plan
/// successfully succeeds.
pub proof fn lemma_image_planning_prefix_ok(
    entries: Seq<ImageEntryV>,
    base: Option<Seq<char>>,
    buffers: Map<usize, Seq<u8>>,
    i: int,
)
    requires
        0 <= i <= entries.len(),
        forall|k: int| 0 <= k < i ==> plan_one_image(#[trigger] entries[k], base, buffers) is Ok,
    ensures
        plan_images_upto(entries.take(i), base, buffers) is Ok,
    decreases i,
{
    if i == 0 {
        assert(entries.take(0) =~= Seq::<ImageEntryV>::empty());
    } else {
        lemma_image_planning_prefix_ok(entries, base, buffers, i - 1);
        assert(entries.take(i).drop_last() =~= entries.take(i - 1));
        assert(entries.take(i).last() == entries[i - 1]);
    }
}

/// Each successful image plan stands for the entry at its position.
pub proof fn lemma_image_plans_match_entries(
    entries: Seq<ImageEntryV>,
    base: Option<Seq<char>>,
    buffers: Map<usize, Seq<u8>>,
)
    requires
        plan_images_upto(entries, base, buffers) is Ok,
    ensures
        ({
            let plans = plan_images_upto(entries, base, buffers)->Ok_0;
            &&& plans.len() == entries.len()
            &&& forall|k: int|
                0 <= k < entries.len() ==> image_plan_index(#[trigger] plans[k])
                    == entries[k].index
        }),
    decreases entries.len(),
{
    if entries.len() > 0 {
        lemma_image_plans_match_entries(entries.drop_last(), base, buffers);
    }
}

/// True when every buffer-view image that references a resolved buffer
/// stays within that buffer's resolved bytes.
pub open spec fn views_within_resolved(
    entries: Seq<ImageEntryV>,
    buffers: Map<usize, Seq<u8>>,
) -> bool {
    forall|k: int|
        0 <= k < entries.len() ==> match (#[trigger] entries[k]).source {
            ImageSourceV::BufferView { buffer_index, offset, length, .. } => buffers.dom().contains(
                buffer_index,
            ) ==> offset + length <= buffers[buffer_index].len(),
            _ => true,
        }
}

/// Plans every image entry of a document against the resolved buffers.
#[verifier::loop_isolation(false)]
pub fn plan_images(
    entries: &Vec<ImageEntry>,
    base: &Option<String>,
    buffers: &HashMap<usize, Vec<u8>>,
) -> (r: Result<Vec<ImagePlan>, ImportError>)
    requires
        views_within_resolved(image_entries_view(entries@), buffer_map_view(buffers@)),
    ensures
        match r {
            Ok(plans) => plan_images_upto(
                image_entries_view(entries@),
                opt_string_view(*base),
                buffer_map_view(buffers@),
            ) == Ok::<Seq<ImagePlanV>, ErrorV>(image_plans_view(plans@)),
            Err(e) => plan_images_upto(
                image_entries_view(entries@),
                opt_string_view(*base),
                buffer_map_view(buffers@),
            ) == Err::<Seq<ImagePlanV>, ErrorV>(e@),
        },
{
    let ghost entries_v = image_entries_view(entries@);
    let ghost base_v = opt_string_view(*base);
    let ghost buffers_v = buffer_map_view(buffers@);
    let mut plans: Vec<ImagePlan> = Vec::new();
    let n: usize = entries.len();
    let mut i: usize = 0;
    proof {
        assert(entries_v.take(0) =~= Seq::<ImageEntryV>::empty());
        assert(image_plans_view(plans@) =~= Seq::<ImagePlanV>::empty());
    }
    while i < n
        invariant
            i <= n,
            plan_images_upto(entries_v.take(i as int), base_v, buffers_v) == Ok::<
                Seq<ImagePlanV>,
                ErrorV,
            >(image_plans_view(plans@)),
        decreases n - i,
    {
        let ghost pre_plans = image_plans_view(plans@);
        proof {
            assert(entries_v.take(i + 1).drop_last() =~= entries_v.take(i as int));
            assert(entries_v.take(i + 1).last() == entries_v[i as int]);
            assert(entries_v[i as int] == entries@[i as int]@);
        }
        let e = &entries[i];
        let plan: ImagePlan = match &e.source {
            ImageSource::Uri { uri, mime_type } => match base {
                None => {
                    proof {
                        lemma_image_plan_error_persists(entries_v, base_v, buffers_v, i + 1);
                    }
                    return Err(ImportError::ExternalReferenceInSliceImport);
                },
                Some(_) => match Scheme::parse(uri.as_str()) {
                    Scheme::Data(media, payload) => {
                        let hint: Option<&String> = match &media {
                            Some(m) => Some(m),
                            None => mime_type.as_ref(),
                        };
                        match load_image_from_data_uri(hint, payload.as_str()) {
                            Ok(img) => ImagePlan::Loaded { index: e.index, data: img },
                            Err(err) => {
                                proof {
                                    lemma_image_plan_error_persists(
                                        entries_v,
                                        base_v,
                                        buffers_v,
                                        i + 1,
                                    );
                                }
                                return Err(err);
                            },
                        }
                    },
                    Scheme::File(path) => ImagePlan::Pending {
                        index: e.index,
                        path,
                        mime_type: mime_type.clone(),
                    },
                    Scheme::Relative => ImagePlan::Pending {
                        index: e.index,
                        path: join_path(base.as_ref().unwrap().as_str(), uri.as_str()),
                        mime_type: mime_type.clone(),
                    },
                    Scheme::External(url) => ImagePlan::Pending {
                        index: e.index,
                        path: url,
                        mime_type: mime_type.clone(),
                    },
                    Scheme::Unsupported => {
                        proof {
                            lemma_image_plan_error_persists(entries_v, base_v, buffers_v, i + 1);
                        }
                        return Err(ImportError::UnsupportedScheme);
                    },
                },
            },
            ImageSource::BufferView { buffer_index, offset, length, mime_type } => {
                match buffers.get(buffer_index) {
                    None => {
                        proof {
                            lemma_image_plan_error_persists(entries_v, base_v, buffers_v, i + 1);
                        }
                        return Err(ImportError::MissingBlob);
                    },
                    Some(data) => {
                        let dn: usize = data.len();
                        proof {
                            assert(buffers_v.dom().contains(*buffer_index));
                            assert(buffers_v[*buffer_index] == data@);
                            assert(*offset + *length <= dn);
                        }
                        let end: usize = *offset + *length;
                        let encoded = slice_subrange(data.as_slice(), *offset, end);
                        match load_image_from_buffer(encoded, Some(mime_type)) {
                            Ok(img) => ImagePlan::Loaded { index: e.index, data: img },
                            Err(err) => {
                                proof {
                                    lemma_image_plan_error_persists(
                                        entries_v,
                                        base_v,
                                        buffers_v,
                                        i + 1,
                                    );
                                }
                                return Err(err);
                            },
                        }
                    },
                }
            },
        };
        proof {
            assert(plan_one_image(entries_v[i as int], base_v, buffers_v) == Ok::<
                ImagePlanV,
                ErrorV,
            >(plan@));
        }
        plans.push(plan);
        proof {
            assert(image_plans_view(plans@) =~= pre_plans.push(plan@));
        }
        i += 1;
    }
    proof {
        assert(entries_v.take(n as int) =~= entries_v);
    }
    Ok(plans)
}

/// The paths of the image plans that await fetching: each distinct path
/// once, in first-occurrence order.
pub open spec fn pending_image_paths(plans: Seq<ImagePlanV>) -> Seq<Seq<char>>
    decreases plans.len(),
{
    if plans.len() == 0 {
        Seq::empty()
    } else {
        let rest = pending_image_paths(plans.drop_last());
        match plans.last() {
            ImagePlanV::Pending { path, .. } => if rest.contains(path) {
                rest
            } else {
                rest.push(path)
            },
            _ => rest,
        }
    }
}

/// Collects the distinct paths of the pending image plans, in
/// first-occurrence order.
#[verifier::loop_isolation(false)]
pub fn image_pending_paths(plans: &Vec<ImagePlan>) -> (r: Vec<String>)
    ensures
        string_seq_view(r@) == pending_image_paths(image_plans_view(plans@)),
{
    let ghost plans_v = image_plans_view(plans@);
    let mut out: Vec<String> = Vec::new();
    let n: usize = plans.len();
    let mut i: usize = 0;
    proof {
        assert(plans_v.take(0) =~= Seq::<ImagePlanV>::empty());
        assert(string_seq_view(out@) =~= Seq::<Seq<char>>::empty());
    }
    while i < n
        invariant
            i <= n,
            string_seq_view(out@) == pending_image_paths(plans_v.take(i as int)),
        decreases n - i,
    {
        proof {
            assert(plans_v.take(i + 1).drop_last() =~= plans_v.take(i as int));
            assert(plans_v.take(i + 1).last() == plans_v[i as int]);
        }
        let ghost pre = string_seq_view(out@);
        match &plans[i] {
            ImagePlan::Pending { path, .. } => {
                let ghost path_v = path@;
                if !contains_string(&out, path) {
                    out.push(path.clone());
                    proof {
                        assert(string_seq_view(out@) =~= pre.push(path_v));
                    }
                }
            },
            _ => {},
        }
        i += 1;
    }
    proof {
        assert(plans_v.take(n as int) =~= plans_v);
    }
    out
}

/// The decoded image for one plan: already decoded, or the bundle's bytes
/// for the pending path decoded under the plan's media-type hint.
pub open spec fn planned_image(p: ImagePlanV, bundle: Seq<FetchEntryV>) -> Result<
    DecodedImageV,
    ErrorV,
> {
    match p {
        ImagePlanV::Loaded { data, .. } => Ok(data),
        ImagePlanV::Pending { path, mime_type, .. } => match bundle_lookup(bundle, path) {
            Some(Ok(bytes)) => decoded_image_outcome(bytes, mime_type),
            Some(Err(m)) => Err(ErrorV::IoError(m)),
            None => Err(ErrorV::MissingBlob),
        },
    }
}

/// The resolved mapping for a prefix of the image plans: image index to
/// decoded image; fail-fast in plan order.
pub open spec fn resolve_images_upto(plans: Seq<ImagePlanV>, bundle: Seq<FetchEntryV>) -> Result<
    Map<usize, DecodedImageV>,
    ErrorV,
>
    decreases plans.len(),
{
    if plans.len() == 0 {
        Ok(Map::empty())
    } else {
        match resolve_images_upto(plans.drop_last(), bundle) {
            Err(e) => Err(e),
            Ok(m) => match planned_image(plans.last(), bundle) {
                Err(e) => Err(e),
                Ok(img) => Ok(m.insert(image_plan_index(plans.last()), img)),
            },
        }
    }
}

/// Image resolution that has failed on a prefix fails the whole list with
/// the same error.
pub proof fn lemma_image_resolve_error_persists(
    plans: Seq<ImagePlanV>,
    bundle: Seq<FetchEntryV>,
    i: int,
)
    requires
        0 <= i <= plans.len(),
        resolve_images_upto(plans.take(i), bundle) is Err,
    ensures
        resolve_images_upto(plans, bundle) == resolve_images_upto(plans.take(i), bundle),
    decreases plans.len() - i,
{
    if i == plans.len() {
        assert(plans.take(i) =~= plans);
    } else {
        assert(plans.take(i + 1).drop_last() =~= plans.take(i));
        lemma_image_resolve_error_persists(plans, bundle, i + 1);
    }
}

/// The decoded images of a resolved image map.
pub open spec fn image_map_view(m: Map<usize, DecodedImage>) -> Map<usize, DecodedImageV> {
    m.map_values(|v: DecodedImage| v@)
}

/// Copies a decoded image.
pub fn clone_decoded(img: &DecodedImage) -> (r: DecodedImage)
    ensures
        r@ == img@,
{
    DecodedImage {
        width: img.width,
        height: img.height,
        format: img.format,
        pixels: slice_to_vec(img.pixels.as_slice()),
    }
}

/// Resolves planned images against the loader's answer: fetched bytes are
/// decoded under the two-tier format policy; the first failure in plan
/// order aborts the phase.
#[verifier::loop_isolation(false)]
pub fn resolve_images(plans: &Vec<ImagePlan>, bundle: &FetchBundle) -> (r: Result<
    HashMap<usize, DecodedImage>,
    ImportError,
>)
    ensures
        match r {
            Ok(m) => resolve_images_upto(image_plans_view(plans@), bundle@) == Ok::<
                Map<usize, DecodedImageV>,
                ErrorV,
            >(image_map_view(m@)),
            Err(e) => resolve_images_upto(image_plans_view(plans@), bundle@) == Err::<
                Map<usize, DecodedImageV>,
                ErrorV,
            >(e@),
        },
{
    let ghost plans_v = image_plans_view(plans@);
    let mut resolved: HashMap<usize, DecodedImage> = HashMap::new();
    let n: usize = plans.len();
    let mut i: usize = 0;
    proof {
        assert(plans_v.take(0) =~= Seq::<ImagePlanV>::empty());
        assert(image_map_view(resolved@) =~= Map::<usize, DecodedImageV>::empty());
    }
    while i < n
        invariant
            i <= n,
            resolve_images_upto(plans_v.take(i as int), bundle@) == Ok::<
                Map<usize, DecodedImageV>,
                ErrorV,
            >(image_map_view(resolved@)),
        decreases n - i,
    {
        proof {
            assert(plans_v.take(i + 1).drop_last() =~= plans_v.take(i as int));
            assert(plans_v.take(i + 1).last() == plans_v[i as int]);
        }
        let ghost pre_map = image_map_view(resolved@);
        let p = &plans[i];
        let (index, img): (usize, DecodedImage) = match p {
            ImagePlan::Loaded { index, data } => (*index, clone_decoded(data)),
            ImagePlan::Pending { index, path, mime_type } => match bundle.lookup(path) {
                Some(Ok(bytes)) => match load_image_from_buffer(
                    bytes.as_slice(),
                    mime_type.as_ref(),
                ) {
                    Ok(img) => (*index, img),
                    Err(err) => {
                        proof {
                            lemma_image_resolve_error_persists(plans_v, bundle@, i + 1);
                        }
                        return Err(err);
                    },
                },
                Some(Err(m)) => {
                    proof {
                        lemma_image_resolve_error_persists(plans_v, bundle@, i + 1);
                    }
                    return Err(ImportError::IoError(m));
                },
                None => {
                    proof {
                        lemma_image_resolve_error_persists(plans_v, bundle@, i + 1);
                    }
                    return Err(ImportError::MissingBlob);
                },
            },
        };
        let ghost img_v = img@;
        resolved.insert(index, img);
        proof {
            assert(image_map_view(resolved@) =~= pre_map.insert(index, img_v));
        }
        i += 1;
    }
    proof {
        assert(plans_v.take(n as int) =~= plans_v);
    }
    Ok(resolved)
}

/// A successfully resolved image map covers exactly the planned indices.
pub proof fn lemma_resolved_images_cover_plans(plans: Seq<ImagePlanV>, bundle: Seq<FetchEntryV>)
    requires
        resolve_images_upto(plans, bundle) is Ok,
    ensures
        ({
            let m = resolve_images_upto(plans, bundle)->Ok_0;
            &&& forall|k: int|
                0 <= k < plans.len() ==> m.dom().contains(image_plan_index(#[trigger] plans[k]))
            &&& forall|idx: usize|
                #[trigger] m.dom().contains(idx) ==> exists|k: int|
                    0 <= k < plans.len() && image_plan_index(#[trigger] plans[k]) == idx
        }),
    decreases plans.len(),
{
    if plans.len() > 0 {
        let prefix = plans.drop_last();
        assert(forall|k: int| 0 <= k < prefix.len() ==> prefix[k] == plans[k]);
        lemma_resolved_images_cover_plans(prefix, bundle);
        let m = resolve_images_upto(plans, bundle)->Ok_0;
        let mp = resolve_images_upto(prefix, bundle)->Ok_0;
        assert forall|idx: usize| #[trigger] m.dom().contains(idx) implies exists|k: int|
            0 <= k < plans.len() && image_plan_index(#[trigger] plans[k]) == idx by {
            if idx == image_plan_index(plans.last()) {
                assert(image_plan_index(plans[plans.len() - 1]) == idx);
            } else {
                assert(mp.dom().contains(idx));
            }
        }
    }
}

} // verus!
