//! The import orchestrator: buffers are resolved first, then images, with
//! at most one batch fetch per phase. The import either runs to a single
//! completed model or stops at the first error in document order; when a
//! phase has nothing to fetch, no fetch is requested.
//!
//! The caller drives the state machine: `GltfImporter::import` returns
//! either the finished outcome or a fetch request; after performing the
//! fetch, the caller hands the answer to `GltfImporter::resume`.

use std::collections::HashMap;

use vstd::prelude::*;

use crate::buffers::{
    buffer_map_view, buffer_pending_paths, buffer_plans_view, lemma_plans_match_entries,
    lemma_resolved_buffers_wf, pending_buffer_paths, plan_buffers, plan_buffers_spec, plan_index,
    plan_length, resolve_buffers, resolve_buffers_upto, BufferPlan, BufferPlanV,
};
use crate::codec::{DecodedImage, DecodedImageV};
use crate::document::{
    doc_wf, opt_bytes_view, opt_string_view, BufferEntryV, Doc, DocV, ImageSourceV,
};
use crate::error::{ErrorV, ImportError};
use crate::fetch::{FetchBundle, FetchEntryV};
use crate::images::{
    image_map_view, image_pending_paths, image_plan_index, image_plans_view,
    lemma_image_plan_error_persists, lemma_image_planning_prefix_ok,
    lemma_image_plans_match_entries, lemma_resolved_images_cover_plans, pending_image_paths,
    plan_images, plan_images_upto, plan_one_image, resolve_images, resolve_images_upto,
    views_within_resolved, ImagePlan, ImagePlanV,
};

verus! {

/// Imported image data, keyed by the indexes of the document's image list.
pub type LoadedImages = HashMap<usize, DecodedImage>;

/// Imported buffer data, keyed by the indexes of the document's buffer
/// list.
pub type LoadedBuffers = HashMap<usize, Vec<u8>>;

/// Importer for scene documents.
///
/// Given a parsed document, the importer loads the assets it links:
/// buffers first, then images. Fetching external files is the caller's
/// part: each returned [`ImportStep::Fetch`] names the paths to read, and
/// the import resumes with their bytes.
pub struct GltfImporter {}

/// Spec-level mirror of `ImportedGltfModel`.
pub ghost struct ModelV {
    pub images: Map<usize, DecodedImageV>,
    pub buffers: Map<usize, Seq<u8>>,
    pub document: DocV,
}

/// An imported model: the document together with its resolved buffers and
/// decoded images. Assembled once, never mutated.
#[derive(Clone, Debug)]
pub struct ImportedGltfModel {
    /// Imported image data.
    images: HashMap<usize, DecodedImage>,
    /// Imported buffer data.
    buffers: HashMap<usize, Vec<u8>>,
    /// The parsed document.
    document: Doc,
}

impl View for ImportedGltfModel {
    type V = ModelV;

    closed spec fn view(&self) -> ModelV {
        ModelV {
            images: image_map_view(self.images@),
            buffers: buffer_map_view(self.buffers@),
            document: self.document@,
        }
    }
}

impl ImportedGltfModel {
    /// Imported image data.
    ///
    /// Keys of the map correspond to the indexes from the `images`
    /// section of the document.
    pub fn images(&self) -> (r: &LoadedImages)
        ensures
            image_map_view(r@) == self@.images,
    {
        &self.images
    }

    /// Imported buffer data.
    ///
    /// Keys of the map correspond to the indexes from the `buffers`
    /// section of the document.
    pub fn buffers(&self) -> (r: &LoadedBuffers)
        ensures
            buffer_map_view(r@) == self@.buffers,
    {
        &self.buffers
    }

    /// The parsed document.
    pub fn document(&self) -> (r: &Doc)
        ensures
            r@ == self@.document,
    {
        &self.document
    }
}

/// Spec-level mirror of `ImportState`.
pub ghost enum ImportStateV {
    BuffersPending { document: DocV, base: Option<Seq<char>>, plans: Seq<BufferPlanV> },
    ImagesPending { document: DocV, buffers: Map<usize, Seq<u8>>, plans: Seq<ImagePlanV> },
}

/// A suspended import, waiting for the batch loader's answer.
pub enum ImportState {
    /// Buffer paths are being fetched.
    BuffersPending { document: Doc, base: Option<String>, plans: Vec<BufferPlan> },
    /// Image paths are being fetched.
    ImagesPending { document: Doc, buffers: LoadedBuffers, plans: Vec<ImagePlan> },
}

impl View for ImportState {
    type V = ImportStateV;

    open spec fn view(&self) -> ImportStateV {
        match self {
            ImportState::BuffersPending { document, base, plans } => {
                ImportStateV::BuffersPending {
                    document: document@,
                    base: opt_string_view(*base),
                    plans: buffer_plans_view(plans@),
                }
            },
            ImportState::ImagesPending { document, buffers, plans } => {
                ImportStateV::ImagesPending {
                    document: document@,
                    buffers: buffer_map_view(buffers@),
                    plans: image_plans_view(plans@),
                }
            },
        }
    }
}

/// Spec-level mirror of `ImportStep`.
pub ghost enum ImportStepV {
    Fetch { paths: Seq<Seq<char>>, state: ImportStateV },
    Done { result: Result<ModelV, ErrorV> },
}

/// What an import hands back after each round of work: a batch of paths
/// to fetch before resuming, or the finished outcome. Exactly one `Done`
/// is reached per import.
pub enum ImportStep {
    /// Fetch these paths, then resume with their bytes.
    Fetch { paths: Vec<String>, state: ImportState },
    /// The import has completed, with the model or the first error.
    Done { result: Result<ImportedGltfModel, ImportError> },
}

impl View for ImportStep {
    type V = ImportStepV;

    open spec fn view(&self) -> ImportStepV {
        match self {
            ImportStep::Fetch { paths, state } => ImportStepV::Fetch {
                paths: crate::text::string_seq_view(paths@),
                state: state@,
            },
            ImportStep::Done { result } => ImportStepV::Done {
                result: match result {
                    Ok(m) => Ok(m@),
                    Err(e) => Err(e@),
                },
            },
        }
    }
}

/// Resolved buffers that honour a document's buffer list: every declared
/// index is resolved, to bytes whose count is a multiple of four and at
/// least the declared length.
pub open spec fn buffers_cover(entries: Seq<BufferEntryV>, m: Map<usize, Seq<u8>>) -> bool {
    forall|k: int|
        0 <= k < entries.len() ==> {
            let e = #[trigger] entries[k];
            m.dom().contains(e.index) && m[e.index].len() % 4 == 0 && m[e.index].len() >= e.length
        }
}

/// A completed model honours its document: every buffer index the
/// document declares is resolved, to aligned bytes of at least the
/// declared length, and every declared image index is decoded. No
/// partial-success state is handed out.
pub open spec fn model_wf(m: ModelV) -> bool {
    &&& buffers_cover(m.document.buffers, m.buffers)
    &&& forall|k: int|
        0 <= k < m.document.images.len() ==> m.images.dom().contains(
            (#[trigger] m.document.images[k]).index,
        )
}

/// The step that follows resolved buffers: images are planned against
/// them; with nothing to fetch the model is assembled at once and no
/// fetch is requested, else the import suspends on the pending paths.
pub open spec fn image_stage_spec(
    document: DocV,
    base: Option<Seq<char>>,
    buffers: Map<usize, Seq<u8>>,
) -> ImportStepV {
    match plan_images_upto(document.images, base, buffers) {
        Err(e) => ImportStepV::Done { result: Err(e) },
        Ok(plans) => {
            let paths = pending_image_paths(plans);
            if paths.len() == 0 {
                match resolve_images_upto(plans, Seq::<FetchEntryV>::empty()) {
                    Err(e) => ImportStepV::Done { result: Err(e) },
                    Ok(images) => ImportStepV::Done {
                        result: Ok(ModelV { images, buffers, document }),
                    },
                }
            } else {
                ImportStepV::Fetch {
                    paths,
                    state: ImportStateV::ImagesPending { document, buffers, plans },
                }
            }
        },
    }
}

/// The step that follows buffer planning: with nothing to fetch the
/// buffers resolve at once and the image stage follows, else the import
/// suspends on the pending paths.
pub open spec fn buffer_stage_spec(
    document: DocV,
    base: Option<Seq<char>>,
    plans: Seq<BufferPlanV>,
) -> ImportStepV {
    let paths = pending_buffer_paths(plans);
    if paths.len() == 0 {
        match resolve_buffers_upto(plans, Seq::<FetchEntryV>::empty()) {
            Err(e) => ImportStepV::Done { result: Err(e) },
            Ok(buffers) => image_stage_spec(document, base, buffers),
        }
    } else {
        ImportStepV::Fetch {
            paths,
            state: ImportStateV::BuffersPending { document, base, plans },
        }
    }
}

/// The first step of an import: buffers are planned, and the buffer stage
/// decides whether a fetch is needed.
pub open spec fn begin_import_spec(
    document: DocV,
    blob: Option<Seq<u8>>,
    base: Option<Seq<char>>,
) -> ImportStepV {
    match plan_buffers_spec(document.buffers, blob, base) {
        Err(e) => ImportStepV::Done { result: Err(e) },
        Ok(plans) => buffer_stage_spec(document, base, plans),
    }
}

/// The step after the batch loader answers a suspended import.
pub open spec fn resume_import_spec(state: ImportStateV, bundle: Seq<FetchEntryV>) -> ImportStepV {
    match state {
        ImportStateV::BuffersPending { document, base, plans } => {
            match resolve_buffers_upto(plans, bundle) {
                Err(e) => ImportStepV::Done { result: Err(e) },
                Ok(buffers) => image_stage_spec(document, base, buffers),
            }
        },
        ImportStateV::ImagesPending { document, buffers, plans } => {
            match resolve_images_upto(plans, bundle) {
                Err(e) => ImportStepV::Done { result: Err(e) },
                Ok(images) => ImportStepV::Done { result: Ok(ModelV { images, buffers, document }) },
            }
        },
    }
}

/// What holds of every suspended state the importer hands out, and what
/// `resume` relies on: the document is well-formed and each buffer plan
/// stands for the document entry at its position.
pub open spec fn state_wf(state: ImportStateV) -> bool {
    match state {
        ImportStateV::BuffersPending { document, base, plans } => {
            &&& doc_wf(document)
            &&& plans.len() == document.buffers.len()
            &&& forall|k: int|
                0 <= k < plans.len() ==> plan_index(#[trigger] plans[k])
                    == document.buffers[k].index && plan_length(plans[k])
                    == document.buffers[k].length
        },
        ImportStateV::ImagesPending { document, buffers, plans } => {
            &&& buffers_cover(document.buffers, buffers)
            &&& plans.len() == document.images.len()
            &&& forall|k: int|
                0 <= k < plans.len() ==> image_plan_index(#[trigger] plans[k])
                    == document.images[k].index
        },
    }
}

/// Buffers resolved from plans that stand for a well-formed document keep
/// every buffer-view image within the resolved bytes of the buffer it
/// references.
proof fn lemma_views_within_after_resolve(
    document: DocV,
    plans: Seq<BufferPlanV>,
    bundle: Seq<FetchEntryV>,
)
    requires
        doc_wf(document),
        plans.len() == document.buffers.len(),
        forall|k: int|
            0 <= k < plans.len() ==> plan_index(#[trigger] plans[k]) == document.buffers[k].index
                && plan_length(plans[k]) == document.buffers[k].length,
        resolve_buffers_upto(plans, bundle) is Ok,
    ensures
        views_within_resolved(document.images, resolve_buffers_upto(plans, bundle)->Ok_0),
        buffers_cover(document.buffers, resolve_buffers_upto(plans, bundle)->Ok_0),
{
    assert forall|i: int, j: int| 0 <= i < j < plans.len() implies plan_index(
        #[trigger] plans[i],
    ) != plan_index(#[trigger] plans[j]) by {
        assert(document.buffers[i].index != document.buffers[j].index);
    }
    lemma_resolved_buffers_wf(plans, bundle);
    let m = resolve_buffers_upto(plans, bundle)->Ok_0;
    assert forall|k: int|
        0 <= k < document.buffers.len() implies ({
            let e = #[trigger] document.buffers[k];
            m.dom().contains(e.index) && m[e.index].len() % 4 == 0 && m[e.index].len() >= e.length
        }) by {
        assert(plan_index(plans[k]) == document.buffers[k].index);
        assert(plan_length(plans[k]) == document.buffers[k].length);
        assert(m.dom().contains(plan_index(plans[k])) && m[plan_index(plans[k])].len() % 4 == 0
            && m[plan_index(plans[k])].len() >= plan_length(plans[k]));
    }
    assert forall|k: int|
        0 <= k < document.images.len() implies match (#[trigger] document.images[k]).source {
            ImageSourceV::BufferView { buffer_index, offset, length, .. } => m.dom().contains(
                buffer_index,
            ) ==> offset + length <= m[buffer_index].len(),
            _ => true,
        } by {
        match document.images[k].source {
            ImageSourceV::BufferView { buffer_index, offset, length, .. } => {
                if m.dom().contains(buffer_index) {
                    let j = choose|j: int|
                        0 <= j < plans.len() && plan_index(#[trigger] plans[j]) == buffer_index;
                    assert(document.buffers[j].index == buffer_index);
                    assert(offset + length <= document.buffers[j].length);
                    assert(m[buffer_index].len() >= plan_length(plans[j]));
                }
            },
            _ => {},
        }
    }
}

impl GltfImporter {
    /// Plans images against the resolved buffers and either finishes the
    /// import or suspends it on the pending image paths.
    fn image_stage(document: Doc, base: &Option<String>, buffers: LoadedBuffers) -> (r: ImportStep)
        requires
            views_within_resolved(document@.images, buffer_map_view(buffers@)),
            buffers_cover(document@.buffers, buffer_map_view(buffers@)),
        ensures
            r@ == image_stage_spec(document@, opt_string_view(*base), buffer_map_view(buffers@)),
            r@ matches ImportStepV::Fetch { state, .. } ==> state_wf(state),
            r@ matches ImportStepV::Done { result: Ok(mv) } ==> model_wf(mv),
    {
        let ghost document_v = document@;
        let ghost buffers_v = buffer_map_view(buffers@);
        let plans = match plan_images(&document.images, base, &buffers) {
            Ok(p) => p,
            Err(e) => {
                return ImportStep::Done { result: Err(e) };
            },
        };
        proof {
            lemma_image_plans_match_entries(document_v.images, opt_string_view(*base), buffers_v);
        }
        let paths = image_pending_paths(&plans);
        if paths.len() == 0 {
            let bundle = FetchBundle::new();
            match resolve_images(&plans, &bundle) {
                Err(e) => ImportStep::Done { result: Err(e) },
                Ok(images) => {
                    proof {
                        lemma_resolved_images_cover_plans(image_plans_view(plans@), bundle@);
                        assert forall|k: int|
                            0 <= k < document_v.images.len() implies image_map_view(
                            images@,
                        ).dom().contains((#[trigger] document_v.images[k]).index) by {
                            assert(image_plan_index(image_plans_view(plans@)[k])
                                == document_v.images[k].index);
                        }
                    }
                    ImportStep::Done {
                        result: Ok(ImportedGltfModel { images, buffers, document }),
                    }
                },
            }
        } else {
            ImportStep::Fetch {
                paths,
                state: ImportState::ImagesPending { document, buffers, plans },
            }
        }
    }

    /// Decides, from fresh buffer plans, whether the import can resolve
    /// its buffers at once or must suspend on the pending buffer paths.
    fn buffer_stage(document: Doc, base: Option<String>, plans: Vec<BufferPlan>) -> (r: ImportStep)
        requires
            doc_wf(document@),
            buffer_plans_view(plans@).len() == document@.buffers.len(),
            forall|k: int|
                0 <= k < plans@.len() ==> plan_index(#[trigger] buffer_plans_view(plans@)[k])
                    == document@.buffers[k].index && plan_length(buffer_plans_view(plans@)[k])
                    == document@.buffers[k].length,
        ensures
            r@ == buffer_stage_spec(document@, opt_string_view(base), buffer_plans_view(plans@)),
            r@ matches ImportStepV::Fetch { state, .. } ==> state_wf(state),
            r@ matches ImportStepV::Done { result: Ok(mv) } ==> model_wf(mv),
    {
        let paths = buffer_pending_paths(&plans);
        if paths.len() == 0 {
            let bundle = FetchBundle::new();
            match resolve_buffers(&plans, &bundle) {
                Err(e) => ImportStep::Done { result: Err(e) },
                Ok(buffers) => {
                    proof {
                        lemma_views_within_after_resolve(
                            document@,
                            buffer_plans_view(plans@),
                            bundle@,
                        );
                    }
                    Self::image_stage(document, &base, buffers)
                },
            }
        } else {
            ImportStep::Fetch {
                paths,
                state: ImportState::BuffersPending { document, base, plans },
            }
        }
    }

    /// Starts importing a parsed document.
    ///
    /// `blob` is the document's embedded binary chunk, if it has one;
    /// `base` is the directory that relative references resolve against.
    /// The result either carries the finished outcome, or names the paths
    /// whose bytes the import needs: fetch them, then call
    /// [`GltfImporter::resume`] with the answer. A document that needs no
    /// external bytes completes at once, with no fetch requested.
    pub fn import(document: Doc, blob: Option<Vec<u8>>, base: Option<String>) -> (r: ImportStep)
        requires
            doc_wf(document@),
        ensures
            r@ == begin_import_spec(document@, opt_bytes_view(blob), opt_string_view(base)),
            r@ matches ImportStepV::Fetch { state, .. } ==> state_wf(state),
            r@ matches ImportStepV::Done { result: Ok(mv) } ==> model_wf(mv),
    {
        let plans = match plan_buffers(&document.buffers, blob, &base) {
            Ok(p) => p,
            Err(e) => {
                return ImportStep::Done { result: Err(e) };
            },
        };
        proof {
            lemma_plans_match_entries(
                document@.buffers,
                opt_bytes_view(blob),
                opt_string_view(base),
            );
        }
        Self::buffer_stage(document, base, plans)
    }

    /// Resumes a suspended import with the batch loader's answer for the
    /// requested paths.
    pub fn resume(state: ImportState, bundle: &FetchBundle) -> (r: ImportStep)
        requires
            state_wf(state@),
        ensures
            r@ == resume_import_spec(state@, bundle@),
            r@ matches ImportStepV::Fetch { state: st, .. } ==> state_wf(st),
            r@ matches ImportStepV::Done { result: Ok(mv) } ==> model_wf(mv),
    {
        match state {
            ImportState::BuffersPending { document, base, plans } => {
                match resolve_buffers(&plans, bundle) {
                    Err(e) => ImportStep::Done { result: Err(e) },
                    Ok(buffers) => {
                        proof {
                            lemma_views_within_after_resolve(
                                document@,
                                buffer_plans_view(plans@),
                                bundle@,
                            );
                        }
                        Self::image_stage(document, &base, buffers)
                    },
                }
            },
            ImportState::ImagesPending { document, buffers, plans } => {
                let ghost document_v = document@;
                match resolve_images(&plans, bundle) {
                    Err(e) => ImportStep::Done { result: Err(e) },
                    Ok(images) => {
                        proof {
                            lemma_resolved_images_cover_plans(image_plans_view(plans@), bundle@);
                            assert forall|k: int|
                                0 <= k < document_v.images.len() implies image_map_view(
                                images@,
                            ).dom().contains((#[trigger] document_v.images[k]).index) by {
                                assert(image_plan_index(image_plans_view(plans@)[k])
                                    == document_v.images[k].index);
                            }
                        }
                        ImportStep::Done {
                            result: Ok(ImportedGltfModel { images, buffers, document }),
                        }
                    },
                }
            },
        }
    }
}

/// With no base directory supplied, an image declared by URI — an
/// external URL among them — fails the import: planning stops at that
/// image with the external-reference error and no model is assembled.
/// The images before it must plan successfully, else an earlier error
/// surfaces first under the fail-fast policy.
pub proof fn lemma_uri_image_without_base_fails(document: DocV, buffers: Map<usize, Seq<u8>>, i: int)
    requires
        0 <= i < document.images.len(),
        document.images[i].source is Uri,
        forall|k: int|
            0 <= k < i ==> plan_one_image(
                #[trigger] document.images[k],
                None::<Seq<char>>,
                buffers,
            ) is Ok,
    ensures
        image_stage_spec(document, None::<Seq<char>>, buffers) == (ImportStepV::Done {
            result: Err::<ModelV, ErrorV>(ErrorV::ExternalReferenceInSliceImport),
        }),
{
    lemma_image_planning_prefix_ok(document.images, None::<Seq<char>>, buffers, i);
    assert(document.images.take(i + 1).drop_last() =~= document.images.take(i));
    assert(document.images.take(i + 1).last() == document.images[i]);
    lemma_image_plan_error_persists(document.images, None::<Seq<char>>, buffers, i + 1);
}

/// An import of a document with no buffers and no images completes at
/// once: no fetch is requested, and the model holds empty mappings and
/// the document itself.
pub proof fn lemma_empty_document_imports_empty(
    document: DocV,
    blob: Option<Seq<u8>>,
    base: Option<Seq<char>>,
)
    requires
        document.buffers.len() == 0,
        document.images.len() == 0,
    ensures
        begin_import_spec(document, blob, base) == (ImportStepV::Done {
            result: Ok::<ModelV, ErrorV>(
                ModelV {
                    images: Map::<usize, DecodedImageV>::empty(),
                    buffers: Map::<usize, Seq<u8>>::empty(),
                    document,
                },
            ),
        }),
{
}

} // verus!
