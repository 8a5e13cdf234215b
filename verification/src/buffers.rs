//! The buffer resolution phase: planning each document buffer from its
//! declared source, mapping the batch loader's answer back onto the
//! pending entries, validating declared lengths, and padding.

use std::collections::HashMap;

use vstd::prelude::*;
use vstd::slice::slice_to_vec;

use crate::codec::{base64_decoding, decode_base64};
use crate::document::{
    buffer_entries_view, buffer_indices_distinct, opt_bytes_view, opt_string_view, BufferEntry,
    BufferEntryV, BufferSource, BufferSourceV,
};
use crate::error::{ErrorV, ImportError};
use crate::fetch::{bundle_lookup, FetchBundle, FetchEntryV};
use crate::scheme::{classify, Scheme, SchemeV};
use crate::text::{contains_string, join_path, joined_path, string_seq_view};

verus! {

broadcast use vstd::std_specs::hash::group_hash_axioms;

/// Spec-level mirror of `BufferPlan`.
pub ghost enum BufferPlanV {
    Loaded { index: usize, data: Seq<u8>, length: usize },
    Pending { index: usize, path: Seq<char>, length: usize },
}

/// One document buffer after planning: bytes already in hand, or a path
/// awaiting the batch loader.
#[derive(Debug, PartialEq, Eq)]
pub enum BufferPlan {
    /// Bytes already available: inline binary, or a decoded data URI.
    Loaded { index: usize, data: Vec<u8>, length: usize },
    /// Bytes to be fetched from a path.
    Pending { index: usize, path: String, length: usize },
}

impl View for BufferPlan {
    type V = BufferPlanV;

    open spec fn view(&self) -> BufferPlanV {
        match self {
            BufferPlan::Loaded { index, data, length } => BufferPlanV::Loaded {
                index: *index,
                data: data@,
                length: *length,
            },
            BufferPlan::Pending { index, path, length } => BufferPlanV::Pending {
                index: *index,
                path: path@,
                length: *length,
            },
        }
    }
}

/// The views of a sequence of buffer plans.
pub open spec fn buffer_plans_view(s: Seq<BufferPlan>) -> Seq<BufferPlanV> {
    Seq::new(s.len(), |i: int| s[i]@)
}

/// The document index a plan belongs to.
pub open spec fn plan_index(p: BufferPlanV) -> usize {
    match p {
        BufferPlanV::Loaded { index, .. } => index,
        BufferPlanV::Pending { index, .. } => index,
    }
}

/// The declared length a plan carries.
pub open spec fn plan_length(p: BufferPlanV) -> usize {
    match p {
        BufferPlanV::Loaded { length, .. } => length,
        BufferPlanV::Pending { length, .. } => length,
    }
}

/// The plan for one buffer entry, with what is left of the embedded blob.
///
/// An inline-binary buffer consumes the blob; a data URI is decoded on the
/// spot; file, relative and external references become pending fetches; a
/// relative reference without a base directory, or an unsupported scheme,
/// fails.
pub open spec fn plan_one_buffer(
    e: BufferEntryV,
    blob: Option<Seq<u8>>,
    base: Option<Seq<char>>,
) -> Result<(BufferPlanV, Option<Seq<u8>>), ErrorV> {
    match e.source {
        BufferSourceV::Bin => match blob {
            Some(b) => Ok(
                (BufferPlanV::Loaded { index: e.index, data: b, length: e.length }, None),
            ),
            None => Err(ErrorV::MissingBlob),
        },
        BufferSourceV::Uri(uri) => match classify(uri) {
            SchemeV::Data(_, payload) => match base64_decoding(payload) {
                Some(d) => Ok(
                    (BufferPlanV::Loaded { index: e.index, data: d, length: e.length }, blob),
                ),
                None => Err(ErrorV::InvalidEncoding),
            },
            SchemeV::File(p) => Ok(
                (BufferPlanV::Pending { index: e.index, path: p, length: e.length }, blob),
            ),
            SchemeV::Relative => match base {
                Some(b) => Ok(
                    (
                        BufferPlanV::Pending {
                            index: e.index,
                            path: joined_path(b, uri),
                            length: e.length,
                        },
                        blob,
                    ),
                ),
                None => Err(ErrorV::UnsupportedScheme),
            },
            SchemeV::External(url) => Ok(
                (BufferPlanV::Pending { index: e.index, path: url, length: e.length }, blob),
            ),
            SchemeV::Unsupported => Err(ErrorV::UnsupportedScheme),
        },
    }
}

/// The plans for a prefix of the buffer list, processed in document order,
/// fail-fast, threading the embedded blob through.
pub open spec fn plan_buffers_upto(
    entries: Seq<BufferEntryV>,
    blob: Option<Seq<u8>>,
    base: Option<Seq<char>>,
) -> Result<(Seq<BufferPlanV>, Option<Seq<u8>>), ErrorV>
    decreases entries.len(),
{
    if entries.len() == 0 {
        Ok((Seq::empty(), blob))
    } else {
        match plan_buffers_upto(entries.drop_last(), blob, base) {
            Err(e) => Err(e),
            Ok((plans, b)) => match plan_one_buffer(entries.last(), b, base) {
                Err(e) => Err(e),
                Ok((p, b2)) => Ok((plans.push(p), b2)),
            },
        }
    }
}

/// The plans for the whole buffer list, or the first error in document
/// order.
pub open spec fn plan_buffers_spec(
    entries: Seq<BufferEntryV>,
    blob: Option<Seq<u8>>,
    base: Option<Seq<char>>,
) -> Result<Seq<BufferPlanV>, ErrorV> {
    match plan_buffers_upto(entries, blob, base) {
        Ok((plans, _)) => Ok(plans),
        Err(e) => Err(e),
    }
}

/// Planning that has failed on a prefix fails the whole list with the same
/// error: planning is fail-fast.
pub proof fn lemma_plan_error_persists(
    entries: Seq<BufferEntryV>,
    blob: Option<Seq<u8>>,
    base: Option<Seq<char>>,
    i: int,
)
    requires
        0 <= i <= entries.len(),
        plan_buffers_upto(entries.take(i), blob, base) is Err,
    ensures
        plan_buffers_upto(entries, blob, base) == plan_buffers_upto(entries.take(i), blob, base),
    decreases entries.len() - i,
{
    if i == entries.len() {
        assert(entries.take(i) =~= entries);
    } else {
        assert(entries.take(i + 1).drop_last() =~= entries.take(i));
        lemma_plan_error_persists(entries, blob, base, i + 1);
    }
}

/// Each successful plan stands for the entry at its position: same index,
/// same declared length.
pub proof fn lemma_plans_match_entries(
    entries: Seq<BufferEntryV>,
    blob: Option<Seq<u8>>,
    base: Option<Seq<char>>,
)
    requires
        plan_buffers_upto(entries, blob, base) is Ok,
    ensures
        ({
            let plans = plan_buffers_upto(entries, blob, base)->Ok_0.0;
            &&& plans.len() == entries.len()
            &&& forall|k: int|
                0 <= k < entries.len() ==> plan_index(#[trigger] plans[k]) == entries[k].index
                    && plan_length(plans[k]) == entries[k].length
        }),
    decreases entries.len(),
{
    if entries.len() > 0 {
        lemma_plans_match_entries(entries.drop_last(), blob, base);
    }
}

/// Plans every buffer entry of a document, consuming the embedded blob.
#[verifier::loop_isolation(false)]
pub fn plan_buffers(entries: &Vec<BufferEntry>, blob: Option<Vec<u8>>, base: &Option<String>) -> (r:
    Result<Vec<BufferPlan>, ImportError>)
    ensures
        match r {
            Ok(plans) => plan_buffers_spec(
                buffer_entries_view(entries@),
                opt_bytes_view(blob),
                opt_string_view(*base),
            ) == Ok::<Seq<BufferPlanV>, ErrorV>(buffer_plans_view(plans@)),
            Err(e) => plan_buffers_spec(
                buffer_entries_view(entries@),
                opt_bytes_view(blob),
                opt_string_view(*base),
            ) == Err::<Seq<BufferPlanV>, ErrorV>(e@),
        },
{
    let ghost entries_v = buffer_entries_view(entries@);
    let ghost blob0 = opt_bytes_view(blob);
    let ghost base_v = opt_string_view(*base);
    let mut plans: Vec<BufferPlan> = Vec::new();
    let mut blob_cell = blob;
    let n: usize = entries.len();
    let mut i: usize = 0;
    proof {
        assert(entries_v.take(0) =~= Seq::<BufferEntryV>::empty());
        assert(buffer_plans_view(plans@) =~= Seq::<BufferPlanV>::empty());
    }
    while i < n
        invariant
            i <= n,
            n == entries@.len(),
            entries_v == buffer_entries_view(entries@),
            base_v == opt_string_view(*base),
            plan_buffers_upto(entries_v.take(i as int), blob0, base_v) == Ok::<
                (Seq<BufferPlanV>, Option<Seq<u8>>),
                ErrorV,
            >((buffer_plans_view(plans@), opt_bytes_view(blob_cell))),
        decreases n - i,
    {
        let ghost pre_plans = buffer_plans_view(plans@);
        let ghost pre_blob = opt_bytes_view(blob_cell);
        proof {
            assert(entries_v.take(i + 1).drop_last() =~= entries_v.take(i as int));
            assert(entries_v.take(i + 1).last() == entries_v[i as int]);
            assert(entries_v[i as int] == entries@[i as int]@);
        }
        let e = &entries[i];
        let plan: BufferPlan = match &e.source {
            BufferSource::Bin => match blob_cell.take() {
                Some(data) => BufferPlan::Loaded { index: e.index, data, length: e.length },
                None => {
                    proof {
                        lemma_plan_error_persists(entries_v, blob0, base_v, i + 1);
                    }
                    return Err(ImportError::MissingBlob);
                },
            },
            BufferSource::Uri(uri) => match Scheme::parse(uri.as_str()) {
                Scheme::Data(_, payload) => match decode_base64(payload.as_str()) {
                    Some(data) => BufferPlan::Loaded { index: e.index, data, length: e.length },
                    None => {
                        proof {
                            lemma_plan_error_persists(entries_v, blob0, base_v, i + 1);
                        }
                        return Err(ImportError::InvalidEncoding);
                    },
                },
                Scheme::File(path) => BufferPlan::Pending { index: e.index, path, length: e.length },
                Scheme::Relative => match base {
                    Some(b) => BufferPlan::Pending {
                        index: e.index,
                        path: join_path(b.as_str(), uri.as_str()),
                        length: e.length,
                    },
                    None => {
                        proof {
                            lemma_plan_error_persists(entries_v, blob0, base_v, i + 1);
                        }
                        return Err(ImportError::UnsupportedScheme);
                    },
                },
                Scheme::External(url) => BufferPlan::Pending {
                    index: e.index,
                    path: url,
                    length: e.length,
                },
                Scheme::Unsupported => {
                    proof {
                        lemma_plan_error_persists(entries_v, blob0, base_v, i + 1);
                    }
                    return Err(ImportError::UnsupportedScheme);
                },
            },
        };
        proof {
            assert(plan_one_buffer(entries_v[i as int], pre_blob, base_v) == Ok::<
                (BufferPlanV, Option<Seq<u8>>),
                ErrorV,
            >((plan@, opt_bytes_view(blob_cell))));
        }
        plans.push(plan);
        proof {
            assert(buffer_plans_view(plans@) =~= pre_plans.push(plan@));
        }
        i += 1;
    }
    proof {
        assert(entries_v.take(n as int) =~= entries_v);
    }
    Ok(plans)
}

/// The paths of the plans that await fetching: each distinct path once,
/// in first-occurrence order.
pub open spec fn pending_buffer_paths(plans: Seq<BufferPlanV>) -> Seq<Seq<char>>
    decreases plans.len(),
{
    if plans.len() == 0 {
        Seq::empty()
    } else {
        let rest = pending_buffer_paths(plans.drop_last());
        match plans.last() {
            BufferPlanV::Pending { path, .. } => if rest.contains(path) {
                rest
            } else {
                rest.push(path)
            },
            _ => rest,
        }
    }
}

/// Collects the distinct paths of the pending plans, in first-occurrence
/// order.
#[verifier::loop_isolation(false)]
pub fn buffer_pending_paths(plans: &Vec<BufferPlan>) -> (r: Vec<String>)
    ensures
        string_seq_view(r@) == pending_buffer_paths(buffer_plans_view(plans@)),
{
    let ghost plans_v = buffer_plans_view(plans@);
    let mut out: Vec<String> = Vec::new();
    let n: usize = plans.len();
    let mut i: usize = 0;
    proof {
        assert(plans_v.take(0) =~= Seq::<BufferPlanV>::empty());
        assert(string_seq_view(out@) =~= Seq::<Seq<char>>::empty());
    }
    while i < n
        invariant
            i <= n,
            string_seq_view(out@) == pending_buffer_paths(plans_v.take(i as int)),
        decreases n - i,
    {
        proof {
            assert(plans_v.take(i + 1).drop_last() =~= plans_v.take(i as int));
            assert(plans_v.take(i + 1).last() == plans_v[i as int]);
        }
        let ghost pre = string_seq_view(out@);
        match &plans[i] {
            BufferPlan::Pending { path, .. } => {
                let ghost path_v = path@;
                if !contains_string(&out, path) {
                    out.push(path.clone());
                    proof {
                        assert(string_seq_view(out@) =~= pre.push(path_v));
                    }
                }
            },
            _ => {},
        }
        i += 1;
    }
    proof {
        assert(plans_v.take(n as int) =~= plans_v);
    }
    out
}

/// Length of the zero padding that extends a byte count to the next
/// multiple of four.
pub open spec fn pad_len(n: nat) -> nat {
    if n % 4 == 0 {
        0
    } else {
        (4 - n % 4) as nat
    }
}

/// Bytes zero-padded to the next multiple of four; padding never
/// truncates, only appends zero bytes.
pub open spec fn pad4(b: Seq<u8>) -> Seq<u8> {
    b + Seq::new(pad_len(b.len()), |i: int| 0u8)
}

/// Zero-pads a byte vector to the next multiple of four.
#[verifier::loop_isolation(false)]
pub fn pad_to_alignment(bytes: &mut Vec<u8>)
    ensures
        final(bytes)@ == pad4(old(bytes)@),
{
    while bytes.len() % 4 != 0
        invariant
            old(bytes)@.len() <= bytes@.len() <= old(bytes)@.len() + pad_len(old(bytes)@.len()),
            bytes@ == old(bytes)@ + Seq::new(
                (bytes@.len() - old(bytes)@.len()) as nat,
                |i: int| 0u8,
            ),
        decreases (4 - bytes@.len() % 4) % 4,
    {
        bytes.push(0);
        proof {
            assert(bytes@ =~= old(bytes)@ + Seq::new(
                (bytes@.len() - old(bytes)@.len()) as nat,
                |i: int| 0u8,
            ));
        }
    }
    proof {
        assert(bytes@ =~= pad4(old(bytes)@));
    }
}

/// The bytes obtained for one plan: inline bytes, or the bundle's answer
/// for the pending path. A path the bundle does not answer is a missing
/// resource; a loader failure is an I/O error.
pub open spec fn planned_bytes(p: BufferPlanV, bundle: Seq<FetchEntryV>) -> Result<Seq<u8>, ErrorV> {
    match p {
        BufferPlanV::Loaded { data, .. } => Ok(data),
        BufferPlanV::Pending { path, .. } => match bundle_lookup(bundle, path) {
            Some(Ok(bytes)) => Ok(bytes),
            Some(Err(m)) => Err(ErrorV::IoError(m)),
            None => Err(ErrorV::MissingBlob),
        },
    }
}

/// One buffer's final bytes: rejected when they fall short of the declared
/// length, zero-padded to a multiple of four otherwise.
pub open spec fn validated_bytes(index: usize, length: usize, bytes: Seq<u8>) -> Result<
    Seq<u8>,
    ErrorV,
> {
    if bytes.len() < length {
        Err(ErrorV::BufferLength { index, expected: length, actual: bytes.len() as usize })
    } else {
        Ok(pad4(bytes))
    }
}

/// The resolved mapping for a prefix of the plans: buffer index to
/// validated, padded bytes; fail-fast in plan order.
pub open spec fn resolve_buffers_upto(plans: Seq<BufferPlanV>, bundle: Seq<FetchEntryV>) -> Result<
    Map<usize, Seq<u8>>,
    ErrorV,
>
    decreases plans.len(),
{
    if plans.len() == 0 {
        Ok(Map::empty())
    } else {
        match resolve_buffers_upto(plans.drop_last(), bundle) {
            Err(e) => Err(e),
            Ok(m) => match planned_bytes(plans.last(), bundle) {
                Err(e) => Err(e),
                Ok(bytes) => match validated_bytes(
                    plan_index(plans.last()),
                    plan_length(plans.last()),
                    bytes,
                ) {
                    Err(e) => Err(e),
                    Ok(padded) => Ok(m.insert(plan_index(plans.last()), padded)),
                },
            },
        }
    }
}

/// Resolution that has failed on a prefix fails the whole list with the
/// same error: resolution is fail-fast.
pub proof fn lemma_resolve_error_persists(plans: Seq<BufferPlanV>, bundle: Seq<FetchEntryV>, i: int)
    requires
        0 <= i <= plans.len(),
        resolve_buffers_upto(plans.take(i), bundle) is Err,
    ensures
        resolve_buffers_upto(plans, bundle) == resolve_buffers_upto(plans.take(i), bundle),
    decreases plans.len() - i,
{
    if i == plans.len() {
        assert(plans.take(i) =~= plans);
    } else {
        assert(plans.take(i + 1).drop_last() =~= plans.take(i));
        lemma_resolve_error_persists(plans, bundle, i + 1);
    }
}

/// Resolution of a prefix whose buffers all obtain bytes enough for their
/// declared lengths succeeds.
proof fn lemma_resolution_prefix_ok(plans: Seq<BufferPlanV>, bundle: Seq<FetchEntryV>, i: int)
    requires
        0 <= i <= plans.len(),
        forall|k: int|
            0 <= k < i ==> {
                let p = #[trigger] plans[k];
                planned_bytes(p, bundle) is Ok && planned_bytes(p, bundle)->Ok_0.len()
                    >= plan_length(p)
            },
    ensures
        resolve_buffers_upto(plans.take(i), bundle) is Ok,
    decreases i,
{
    if i == 0 {
        assert(plans.take(0) =~= Seq::<BufferPlanV>::empty());
    } else {
        lemma_resolution_prefix_ok(plans, bundle, i - 1);
        assert(plans.take(i).drop_last() =~= plans.take(i - 1));
        assert(plans.take(i).last() == plans[i - 1]);
    }
}

/// A buffer whose obtained bytes — inline, decoded or fetched, before any
/// padding — fall short of its declared length fails the whole resolution
/// with the length error that carries its index, the declared length as
/// `expected` and the obtained count as `actual`; no mapping is produced.
/// The buffers before it must obtain enough bytes, else an earlier error
/// surfaces first under the fail-fast policy.
pub proof fn lemma_short_buffer_fails(plans: Seq<BufferPlanV>, bundle: Seq<FetchEntryV>, i: int)
    requires
        0 <= i < plans.len(),
        forall|k: int|
            0 <= k < i ==> {
                let p = #[trigger] plans[k];
                planned_bytes(p, bundle) is Ok && planned_bytes(p, bundle)->Ok_0.len()
                    >= plan_length(p)
            },
        planned_bytes(plans[i], bundle) is Ok,
        planned_bytes(plans[i], bundle)->Ok_0.len() < plan_length(plans[i]),
    ensures
        resolve_buffers_upto(plans, bundle) == Err::<Map<usize, Seq<u8>>, ErrorV>(
            ErrorV::BufferLength {
                index: plan_index(plans[i]),
                expected: plan_length(plans[i]),
                actual: planned_bytes(plans[i], bundle)->Ok_0.len() as usize,
            },
        ),
{
    lemma_resolution_prefix_ok(plans, bundle, i);
    assert(plans.take(i + 1).drop_last() =~= plans.take(i));
    assert(plans.take(i + 1).last() == plans[i]);
    lemma_resolve_error_persists(plans, bundle, i + 1);
}

/// The byte sequences of a resolved buffer map.
pub open spec fn buffer_map_view(m: Map<usize, Vec<u8>>) -> Map<usize, Seq<u8>> {
    m.map_values(|v: Vec<u8>| v@)
}

proof fn lemma_buffer_map_view_insert(m: Map<usize, Vec<u8>>, k: usize, v: Vec<u8>)
    ensures
        buffer_map_view(m.insert(k, v)) == buffer_map_view(m).insert(k, v@),
{
    assert(buffer_map_view(m.insert(k, v)) =~= buffer_map_view(m).insert(k, v@));
}

/// Resolves planned buffers against the loader's answer. Every buffer's
/// bytes are validated against its declared length and padded to a
/// multiple of four; the first failure in plan order aborts the phase.
#[verifier::loop_isolation(false)]
pub fn resolve_buffers(plans: &Vec<BufferPlan>, bundle: &FetchBundle) -> (r: Result<
    HashMap<usize, Vec<u8>>,
    ImportError,
>)
    ensures
        match r {
            Ok(m) => resolve_buffers_upto(buffer_plans_view(plans@), bundle@) == Ok::<
                Map<usize, Seq<u8>>,
                ErrorV,
            >(buffer_map_view(m@)),
            Err(e) => resolve_buffers_upto(buffer_plans_view(plans@), bundle@) == Err::<
                Map<usize, Seq<u8>>,
                ErrorV,
            >(e@),
        },
{
    let ghost plans_v = buffer_plans_view(plans@);
    let mut resolved: HashMap<usize, Vec<u8>> = HashMap::new();
    let n: usize = plans.len();
    let mut i: usize = 0;
    proof {
        assert(plans_v.take(0) =~= Seq::<BufferPlanV>::empty());
        assert(buffer_map_view(resolved@) =~= Map::<usize, Seq<u8>>::empty());
    }
    while i < n
        invariant
            i <= n,
            resolve_buffers_upto(plans_v.take(i as int), bundle@) == Ok::<
                Map<usize, Seq<u8>>,
                ErrorV,
            >(buffer_map_view(resolved@)),
        decreases n - i,
    {
        proof {
            assert(plans_v.take(i + 1).drop_last() =~= plans_v.take(i as int));
            assert(plans_v.take(i + 1).last() == plans_v[i as int]);
        }
        let ghost pre_map = buffer_map_view(resolved@);
        let p = &plans[i];
        let (index, length, mut data): (usize, usize, Vec<u8>) = match p {
            BufferPlan::Loaded { index, data, length } => (
                *index,
                *length,
                slice_to_vec(data.as_slice()),
            ),
            BufferPlan::Pending { index, path, length } => match bundle.lookup(path) {
                Some(Ok(bytes)) => (*index, *length, bytes),
                Some(Err(m)) => {
                    proof {
                        lemma_resolve_error_persists(plans_v, bundle@, i + 1);
                    }
                    return Err(ImportError::IoError(m));
                },
                None => {
                    proof {
                        lemma_resolve_error_persists(plans_v, bundle@, i + 1);
                    }
                    return Err(ImportError::MissingBlob);
                },
            },
        };
        if data.len() < length {
            let actual: usize = data.len();
            proof {
                lemma_resolve_error_persists(plans_v, bundle@, i + 1);
            }
            return Err(ImportError::BufferLength { index, expected: length, actual });
        }
        pad_to_alignment(&mut data);
        let ghost padded_v = data@;
        resolved.insert(index, data);
        proof {
            assert(buffer_map_view(resolved@) =~= pre_map.insert(index, padded_v));
        }
        i += 1;
    }
    proof {
        assert(plans_v.take(n as int) =~= plans_v);
    }
    Ok(resolved)
}

/// Number of buffer entries that claim the embedded blob.
pub open spec fn bin_count(entries: Seq<BufferEntryV>) -> nat
    decreases entries.len(),
{
    if entries.len() == 0 {
        0
    } else {
        bin_count(entries.drop_last()) + (if entries.last().source is Bin {
            1nat
        } else {
            0nat
        })
    }
}

/// A buffer entry that planning can always turn into a plan: its scheme is
/// supported, a data payload decodes, and a relative reference has a base
/// directory to resolve against. Inline-binary entries are not
/// constrained.
pub open spec fn uri_resolvable(e: BufferEntryV, base: Option<Seq<char>>) -> bool {
    match e.source {
        BufferSourceV::Bin => true,
        BufferSourceV::Uri(uri) => match classify(uri) {
            SchemeV::Data(_, payload) => base64_decoding(payload) is Some,
            SchemeV::File(_) => true,
            SchemeV::Relative => base is Some,
            SchemeV::External(_) => true,
            SchemeV::Unsupported => false,
        },
    }
}

/// Planning succeeds when every entry is resolvable, at most one entry
/// claims the embedded blob, and the blob is present if it is claimed.
/// Afterwards the blob is consumed exactly when it was claimed.
pub proof fn lemma_planning_succeeds(
    entries: Seq<BufferEntryV>,
    blob: Option<Seq<u8>>,
    base: Option<Seq<char>>,
)
    requires
        forall|k: int| 0 <= k < entries.len() ==> uri_resolvable(#[trigger] entries[k], base),
        bin_count(entries) <= 1,
        bin_count(entries) == 1 ==> blob is Some,
    ensures
        plan_buffers_upto(entries, blob, base) is Ok,
        plan_buffers_upto(entries, blob, base)->Ok_0.1 == (if bin_count(entries) == 0 {
            blob
        } else {
            None::<Seq<u8>>
        }),
    decreases entries.len(),
{
    if entries.len() > 0 {
        let prefix = entries.drop_last();
        assert(forall|k: int| 0 <= k < prefix.len() ==> prefix[k] == entries[k]);
        lemma_planning_succeeds(prefix, blob, base);
        assert(uri_resolvable(entries.last(), base));
    }
}

/// Planning that succeeds claimed the embedded blob at most once, and
/// only when it was supplied; afterwards the blob is consumed exactly
/// when it was claimed.
pub proof fn lemma_planning_claims_blob_at_most_once(
    entries: Seq<BufferEntryV>,
    blob: Option<Seq<u8>>,
    base: Option<Seq<char>>,
)
    requires
        plan_buffers_upto(entries, blob, base) is Ok,
    ensures
        bin_count(entries) <= 1,
        bin_count(entries) == 1 ==> blob is Some,
        plan_buffers_upto(entries, blob, base)->Ok_0.1 == (if bin_count(entries) == 0 {
            blob
        } else {
            None::<Seq<u8>>
        }),
    decreases entries.len(),
{
    if entries.len() > 0 {
        lemma_planning_claims_blob_at_most_once(entries.drop_last(), blob, base);
    }
}

/// With every entry resolvable, a claim on an absent blob is the first
/// failure: planning reports the blob as missing.
pub proof fn lemma_blob_missing(entries: Seq<BufferEntryV>, base: Option<Seq<char>>)
    requires
        forall|k: int| 0 <= k < entries.len() ==> uri_resolvable(#[trigger] entries[k], base),
        bin_count(entries) >= 1,
    ensures
        plan_buffers_spec(entries, None::<Seq<u8>>, base) == Err::<Seq<BufferPlanV>, ErrorV>(
            ErrorV::MissingBlob,
        ),
    decreases entries.len(),
{
    let prefix = entries.drop_last();
    assert(forall|k: int| 0 <= k < prefix.len() ==> prefix[k] == entries[k]);
    if bin_count(prefix) >= 1 {
        lemma_blob_missing(prefix, base);
    } else {
        lemma_planning_succeeds(prefix, None::<Seq<u8>>, base);
        assert(entries.last().source is Bin);
    }
}

/// Two claims on the embedded blob fail, whatever was supplied: the
/// second claim finds the blob already consumed.
pub proof fn lemma_second_claim_fails(
    entries: Seq<BufferEntryV>,
    blob: Option<Seq<u8>>,
    base: Option<Seq<char>>,
)
    requires
        forall|k: int| 0 <= k < entries.len() ==> uri_resolvable(#[trigger] entries[k], base),
        bin_count(entries) >= 2,
    ensures
        plan_buffers_spec(entries, blob, base) == Err::<Seq<BufferPlanV>, ErrorV>(
            ErrorV::MissingBlob,
        ),
    decreases entries.len(),
{
    if blob is None {
        lemma_blob_missing(entries, base);
    } else {
        let prefix = entries.drop_last();
        assert(forall|k: int| 0 <= k < prefix.len() ==> prefix[k] == entries[k]);
        if bin_count(prefix) >= 2 {
            lemma_second_claim_fails(prefix, blob, base);
        } else {
            lemma_planning_succeeds(prefix, blob, base);
            assert(entries.last().source is Bin);
        }
    }
}

/// A blob supplied to a document with no inline-binary buffer is ignored:
/// planning gives the same plans, and the same error, with or without it.
pub proof fn lemma_blob_ignored(
    entries: Seq<BufferEntryV>,
    blob: Option<Seq<u8>>,
    base: Option<Seq<char>>,
)
    requires
        bin_count(entries) == 0,
    ensures
        match (plan_buffers_upto(entries, blob, base), plan_buffers_upto(
            entries,
            None::<Seq<u8>>,
            base,
        )) {
            (Ok(a), Ok(b)) => a.0 == b.0 && a.1 == blob && b.1 == None::<Seq<u8>>,
            (Err(e1), Err(e2)) => e1 == e2,
            _ => false,
        },
        plan_buffers_spec(entries, blob, base) == plan_buffers_spec(
            entries,
            None::<Seq<u8>>,
            base,
        ),
    decreases entries.len(),
{
    if entries.len() > 0 {
        let prefix = entries.drop_last();
        lemma_blob_ignored(prefix, blob, base);
        assert(!(entries.last().source is Bin));
    }
}

proof fn lemma_pad4_len(b: Seq<u8>)
    ensures
        pad4(b).len() == b.len() + pad_len(b.len()),
        pad4(b).len() % 4 == 0,
        pad4(b).len() >= b.len(),
{
}

/// A successfully resolved buffer map covers exactly the planned indices;
/// with distinct plan indices, each resolved byte count is a multiple of
/// four and at least the plan's declared length.
pub proof fn lemma_resolved_buffers_wf(plans: Seq<BufferPlanV>, bundle: Seq<FetchEntryV>)
    requires
        resolve_buffers_upto(plans, bundle) is Ok,
        forall|i: int, j: int|
            0 <= i < j < plans.len() ==> plan_index(#[trigger] plans[i]) != plan_index(
                #[trigger] plans[j],
            ),
    ensures
        ({
            let m = resolve_buffers_upto(plans, bundle)->Ok_0;
            &&& forall|k: int|
                0 <= k < plans.len() ==> {
                    let idx = plan_index(#[trigger] plans[k]);
                    m.dom().contains(idx) && m[idx].len() % 4 == 0 && m[idx].len()
                        >= plan_length(plans[k])
                }
            &&& forall|idx: usize|
                #[trigger] m.dom().contains(idx) ==> exists|k: int|
                    0 <= k < plans.len() && plan_index(#[trigger] plans[k]) == idx
        }),
    decreases plans.len(),
{
    if plans.len() > 0 {
        let prefix = plans.drop_last();
        assert(forall|k: int| 0 <= k < prefix.len() ==> prefix[k] == plans[k]);
        lemma_resolved_buffers_wf(prefix, bundle);
        let bytes = planned_bytes(plans.last(), bundle)->Ok_0;
        lemma_pad4_len(bytes);
        let m = resolve_buffers_upto(plans, bundle)->Ok_0;
        let mp = resolve_buffers_upto(prefix, bundle)->Ok_0;
        assert forall|idx: usize| #[trigger] m.dom().contains(idx) implies exists|k: int|
            0 <= k < plans.len() && plan_index(#[trigger] plans[k]) == idx by {
            if idx == plan_index(plans.last()) {
                assert(plan_index(plans[plans.len() - 1]) == idx);
            } else {
                assert(mp.dom().contains(idx));
            }
        }
    }
}

/// Resolved buffers honour the document: every declared buffer index is
/// resolved, to bytes whose count is a multiple of four and at least the
/// buffer's declared length; and nothing beyond the declared buffers is
/// resolved.
pub proof fn lemma_resolved_buffers_cover_entries(
    entries: Seq<BufferEntryV>,
    blob: Option<Seq<u8>>,
    base: Option<Seq<char>>,
    bundle: Seq<FetchEntryV>,
)
    requires
        buffer_indices_distinct(entries),
        plan_buffers_spec(entries, blob, base) is Ok,
        resolve_buffers_upto(plan_buffers_spec(entries, blob, base)->Ok_0, bundle) is Ok,
    ensures
        ({
            let plans = plan_buffers_spec(entries, blob, base)->Ok_0;
            let m = resolve_buffers_upto(plans, bundle)->Ok_0;
            &&& forall|k: int|
                0 <= k < entries.len() ==> {
                    let e = #[trigger] entries[k];
                    m.dom().contains(e.index) && m[e.index].len() % 4 == 0 && m[e.index].len()
                        >= e.length
                }
            &&& forall|idx: usize|
                #[trigger] m.dom().contains(idx) ==> exists|k: int|
                    0 <= k < entries.len() && (#[trigger] entries[k]).index == idx
        }),
{
    let plans = plan_buffers_spec(entries, blob, base)->Ok_0;
    lemma_plans_match_entries(entries, blob, base);
    assert forall|i: int, j: int| 0 <= i < j < plans.len() implies plan_index(
        #[trigger] plans[i],
    ) != plan_index(#[trigger] plans[j]) by {
        assert(entries[i].index != entries[j].index);
    }
    lemma_resolved_buffers_wf(plans, bundle);
    let m = resolve_buffers_upto(plans, bundle)->Ok_0;
    assert forall|k: int|
        0 <= k < entries.len() implies ({
            let e = #[trigger] entries[k];
            m.dom().contains(e.index) && m[e.index].len() % 4 == 0 && m[e.index].len() >= e.length
        }) by {
        assert(plan_index(plans[k]) == entries[k].index);
        assert(plan_length(plans[k]) == entries[k].length);
        assert(m.dom().contains(plan_index(plans[k])) && m[plan_index(plans[k])].len() % 4 == 0
            && m[plan_index(plans[k])].len() >= plan_length(plans[k]));
    }
    assert forall|idx: usize| #[trigger] m.dom().contains(idx) implies exists|k: int|
        0 <= k < entries.len() && (#[trigger] entries[k]).index == idx by {
        let k = choose|k: int| 0 <= k < plans.len() && plan_index(#[trigger] plans[k]) == idx;
        assert(entries[k].index == idx);
    }
}

} // verus!
