//! The incremental deployment engine: which artifacts the provider still
//! needs, and the order of the steps that publish them.

use crate::driftwood::SiteDetails;
use crate::manifest::{
    artifacts_view, distinct_paths, manifest_entries, Artifact, ArtifactModel, Entry, FileHashes,
};
use crate::netlify::{ApiError, ApiErrorView, Netlify};
use crate::text::{same_text, strings_view};
use vstd::prelude::*;

verus! {

/// Whether some entry of `e` records the digest `hash`.
pub open spec fn has_hash(e: Seq<Entry>, hash: Seq<char>) -> bool {
    exists|i: int| 0 <= i < e.len() && (#[trigger] e[i]).1 == hash
}

/// Whether `i` is the first position of `e` that records the digest `hash`.
pub open spec fn is_first_with_hash(e: Seq<Entry>, hash: Seq<char>, i: int) -> bool {
    &&& 0 <= i < e.len()
    &&& e[i].1 == hash
    &&& forall|j: int| 0 <= j < i ==> (#[trigger] e[j]).1 != hash
}

/// The first position of `e` that records the digest `hash`, where there is
/// one.
pub open spec fn first_with_hash(e: Seq<Entry>, hash: Seq<char>) -> int {
    choose|i: int| is_first_with_hash(e, hash, i)
}

/// The paths to upload for the first `n` digests of `required`: for each
/// digest that did not occur earlier in `required` and that the manifest
/// holds, the first path recorded with it.
pub open spec fn plan_prefix(e: Seq<Entry>, required: Seq<Seq<char>>, n: int) -> Seq<Seq<char>>
    decreases n,
{
    if n <= 0 {
        Seq::empty()
    } else {
        let earlier = plan_prefix(e, required, n - 1);
        let hash = required[n - 1];
        if required.take(n - 1).contains(hash) || !has_hash(e, hash) {
            earlier
        } else {
            earlier.push(e[first_with_hash(e, hash)].0)
        }
    }
}

/// The paths to upload once the provider has declared which digests it still
/// needs: one path for each distinct required digest that the manifest holds,
/// in the order of `required`.
pub open spec fn upload_plan(e: Seq<Entry>, required: Seq<Seq<char>>) -> Seq<Seq<char>> {
    plan_prefix(e, required, required.len() as int)
}

/// A digest that the manifest holds has a first position, and only one.
pub proof fn lemma_first_with_hash(e: Seq<Entry>, hash: Seq<char>)
    requires
        has_hash(e, hash),
    ensures
        is_first_with_hash(e, hash, first_with_hash(e, hash)),
        forall|i: int| is_first_with_hash(e, hash, i) ==> i == first_with_hash(e, hash),
{
    let w = choose|i: int| 0 <= i < e.len() && (#[trigger] e[i]).1 == hash;
    lemma_first_exists(e, hash, w);
    let f = first_with_hash(e, hash);
    assert forall|i: int| is_first_with_hash(e, hash, i) implies i == f by {
        if i < f {
            assert(e[i].1 != hash);
        } else if f < i {
            assert(e[f].1 != hash);
        }
    }
}

proof fn lemma_first_exists(e: Seq<Entry>, hash: Seq<char>, w: int)
    requires
        0 <= w < e.len(),
        e[w].1 == hash,
    ensures
        exists|i: int| is_first_with_hash(e, hash, i),
    decreases w,
{
    if exists|j: int| 0 <= j < w && (#[trigger] e[j]).1 == hash {
        let j = choose|j: int| 0 <= j < w && (#[trigger] e[j]).1 == hash;
        lemma_first_exists(e, hash, j);
    } else {
        assert(is_first_with_hash(e, hash, w));
    }
}

/// Whether `path` is the first path that the manifest records with one of the
/// first `n` required digests.
pub open spec fn is_required_path(
    e: Seq<Entry>,
    required: Seq<Seq<char>>,
    n: int,
    path: Seq<char>,
) -> bool {
    exists|r: int|
        0 <= r < n && has_hash(e, #[trigger] required[r]) && path == e[first_with_hash(
            e,
            required[r],
        )].0
}

/// Never more: every planned path is the first path that the manifest records
/// with some required digest.
pub proof fn lemma_plan_sound(e: Seq<Entry>, required: Seq<Seq<char>>, n: int)
    requires
        0 <= n <= required.len(),
    ensures
        plan_prefix(e, required, n).len() <= n,
        forall|k: int|
            0 <= k < plan_prefix(e, required, n).len() ==> is_required_path(
                e,
                required,
                n,
                #[trigger] plan_prefix(e, required, n)[k],
            ),
    decreases n,
{
    if n > 0 {
        lemma_plan_sound(e, required, n - 1);
        let earlier = plan_prefix(e, required, n - 1);
        let plan = plan_prefix(e, required, n);
        assert forall|k: int| 0 <= k < plan.len() implies is_required_path(
            e,
            required,
            n,
            #[trigger] plan[k],
        ) by {
            if k < earlier.len() {
                assert(is_required_path(e, required, n - 1, earlier[k]));
                let r = choose|r: int|
                    0 <= r < n - 1 && has_hash(e, #[trigger] required[r]) && earlier[k]
                        == e[first_with_hash(e, required[r])].0;
                assert(0 <= r < n && has_hash(e, required[r]));
            } else {
                assert(has_hash(e, required[n - 1]));
            }
        }
    }
}

/// Never fewer: for every required digest that the manifest holds, the first
/// path recorded with it is planned.
pub proof fn lemma_plan_complete(e: Seq<Entry>, required: Seq<Seq<char>>, n: int, r: int)
    requires
        0 <= r < n <= required.len(),
        has_hash(e, required[r]),
    ensures
        plan_prefix(e, required, n).contains(e[first_with_hash(e, required[r])].0),
    decreases n,
{
    let earlier = plan_prefix(e, required, n - 1);
    let plan = plan_prefix(e, required, n);
    let hash = required[n - 1];
    let target = e[first_with_hash(e, required[r])].0;
    if r < n - 1 {
        lemma_plan_complete(e, required, n - 1, r);
        let k = choose|k: int| 0 <= k < earlier.len() && earlier[k] == target;
        assert(plan[k] == target);
    } else if required.take(n - 1).contains(hash) {
        let prefix = required.take(n - 1);
        let q = choose|q: int| 0 <= q < prefix.len() && prefix[q] == hash;
        assert(required[q] == hash);
        lemma_plan_complete(e, required, n - 1, q);
        let k = choose|k: int| 0 <= k < earlier.len() && earlier[k] == target;
        assert(plan[k] == target);
    } else {
        assert(plan[plan.len() - 1] == target);
    }
}

/// Every planned path was recorded with a digest that occurs among the first
/// `n` required ones.
proof fn lemma_plan_hashes(e: Seq<Entry>, required: Seq<Seq<char>>, n: int, k: int)
    requires
        0 <= n <= required.len(),
        0 <= k < plan_prefix(e, required, n).len(),
    ensures
        exists|i: int, r: int|
            0 <= i < e.len() && 0 <= r < n && (#[trigger] e[i]).0 == plan_prefix(e, required, n)[k]
                && e[i].1 == #[trigger] required[r],
{
    lemma_plan_sound(e, required, n);
    let plan = plan_prefix(e, required, n);
    assert(is_required_path(e, required, n, plan[k]));
    let r = choose|r: int|
        0 <= r < n && has_hash(e, #[trigger] required[r]) && plan[k] == e[first_with_hash(
            e,
            required[r],
        )].0;
    lemma_first_with_hash(e, required[r]);
    let i = first_with_hash(e, required[r]);
    assert(e[i].0 == plan[k] && e[i].1 == required[r]);
}

/// No path is planned twice.
pub proof fn lemma_plan_no_duplicates(e: Seq<Entry>, required: Seq<Seq<char>>, n: int)
    requires
        distinct_paths(e),
        0 <= n <= required.len(),
    ensures
        forall|a: int, b: int|
            0 <= a < b < plan_prefix(e, required, n).len() ==> plan_prefix(e, required, n)[a]
                != plan_prefix(e, required, n)[b],
    decreases n,
{
    if n > 0 {
        lemma_plan_no_duplicates(e, required, n - 1);
        let earlier = plan_prefix(e, required, n - 1);
        let plan = plan_prefix(e, required, n);
        let hash = required[n - 1];
        if plan.len() > earlier.len() {
            lemma_first_with_hash(e, hash);
            let f = first_with_hash(e, hash);
            assert forall|a: int| 0 <= a < earlier.len() implies earlier[a] != e[f].0 by {
                lemma_plan_hashes(e, required, n - 1, a);
                let (i, r) = choose|i: int, r: int|
                    0 <= i < e.len() && 0 <= r < n - 1 && (#[trigger] e[i]).0 == earlier[a]
                        && e[i].1 == #[trigger] required[r];
                if earlier[a] == e[f].0 {
                    if i < f {
                        assert(e[i].0 != e[f].0);
                    } else if f < i {
                        assert(e[f].0 != e[i].0);
                    }
                    assert(required.take(n - 1)[r] == hash);
                    assert(false);
                }
            }
        }
    }
}

/// Where the provider needs nothing, nothing is planned.
pub proof fn lemma_plan_of_nothing(e: Seq<Entry>)
    ensures
        upload_plan(e, Seq::empty()) == Seq::<Seq<char>>::empty(),
{
}

/// Where the provider needs every digest of a manifest whose artifacts all
/// differ in content, every path of the manifest is planned.
pub proof fn lemma_plan_of_everything(e: Seq<Entry>, required: Seq<Seq<char>>, i: int)
    requires
        0 <= i < e.len(),
        forall|a: int, b: int| 0 <= a < b < e.len() ==> (#[trigger] e[a]).1 != (#[trigger] e[b]).1,
        forall|a: int| 0 <= a < e.len() ==> required.contains((#[trigger] e[a]).1),
    ensures
        upload_plan(e, required).contains(e[i].0),
{
    assert(required.contains(e[i].1));
    let r = choose|r: int| 0 <= r < required.len() && required[r] == e[i].1;
    assert(has_hash(e, required[r]));
    lemma_first_with_hash(e, required[r]);
    let f = first_with_hash(e, required[r]);
    if f < i {
        assert(e[f].1 != e[i].1);
    } else if i < f {
        assert(e[i].1 != e[f].1);
    }
    lemma_plan_complete(e, required, required.len() as int, r);
}

/// The first path that the manifest records with the digest `hash`.
pub fn first_path_with_hash<'a>(manifest: &'a FileHashes, hash: &str) -> (r: Option<&'a String>)
    ensures
        r is Some <==> has_hash(manifest.entries(), hash@),
        r is Some ==> r->0@ == manifest.entries()[first_with_hash(manifest.entries(), hash@)].0,
{
    let mut i: usize = 0;
    while i < manifest.files.len()
        invariant
            i <= manifest.files.len(),
            forall|j: int| 0 <= j < i ==> (#[trigger] manifest.entries()[j]).1 != hash@,
        decreases manifest.files.len() - i,
    {
        if same_text(manifest.files[i].1.as_str(), hash) {
            proof {
                assert(manifest.entries()[i as int].1 == hash@);
                assert(is_first_with_hash(manifest.entries(), hash@, i as int));
                lemma_first_with_hash(manifest.entries(), hash@);
            }
            return Some(&manifest.files[i].0);
        }
        assert(manifest.entries()[i as int].1 != hash@);
        i += 1;
    }
    None
}

/// Whether `text` occurs among the first `n` strings of `list`.
fn occurs_before(list: &Vec<String>, n: usize, text: &str) -> (r: bool)
    requires
        n <= list.len(),
    ensures
        r == strings_view(list@).take(n as int).contains(text@),
{
    let ghost seen = strings_view(list@).take(n as int);
    let mut j: usize = 0;
    while j < n
        invariant
            j <= n <= list.len(),
            seen == strings_view(list@).take(n as int),
            forall|k: int| 0 <= k < j ==> seen[k] != text@,
        decreases n - j,
    {
        if same_text(list[j].as_str(), text) {
            assert(seen[j as int] == text@);
            return true;
        }
        j += 1;
    }
    false
}

/// The paths to upload, given the manifest that was submitted and the
/// digests that the provider declared as required.
pub fn plan_uploads(manifest: &FileHashes, required: &Vec<String>) -> (plan: Vec<String>)
    ensures
        strings_view(plan@) == upload_plan(manifest.entries(), strings_view(required@)),
{
    let ghost e = manifest.entries();
    let ghost req = strings_view(required@);
    let mut plan: Vec<String> = Vec::new();
    let mut i: usize = 0;
    proof {
        assert(strings_view(plan@) =~= plan_prefix(e, req, 0));
    }
    while i < required.len()
        invariant
            i <= required.len(),
            e == manifest.entries(),
            req == strings_view(required@),
            strings_view(plan@) == plan_prefix(e, req, i as int),
        decreases required.len() - i,
    {
        let hash = required[i].as_str();
        assert(hash@ == req[i as int]);
        if !occurs_before(required, i, hash) {
            match first_path_with_hash(manifest, hash) {
                Some(path) => {
                    let ghost before = strings_view(plan@);
                    plan.push(path.clone());
                    assert(strings_view(plan@) =~= before.push(path@));
                },
                None => {},
            }
        }
        i += 1;
    }
    plan
}

/// Why a deploy failed before anything was uploaded.
#[derive(Debug)]
pub enum DeployError {
    /// The site's directory, named here, holds no root document.
    MissingRootDocument(String),
    /// The rendered output lacks the page of the post with this file name.
    MissingPost(String),
    /// The rendered output could not be read.
    FileSystem(String),
    /// The negotiation failed: the provider declined it, could not be reached,
    /// or replied with something other than a list of required digests.
    Negotiation(ApiError),
    /// A step was reported that the current state does not wait for.
    OutOfOrder,
}

/// A [`DeployError`] as the contracts see it.
pub enum DeployErrorView {
    MissingRootDocument(Seq<char>),
    MissingPost(Seq<char>),
    FileSystem(Seq<char>),
    Negotiation(ApiErrorView),
    OutOfOrder,
}

impl View for DeployError {
    type V = DeployErrorView;

    open spec fn view(&self) -> DeployErrorView {
        match *self {
            DeployError::MissingRootDocument(site_path) => DeployErrorView::MissingRootDocument(
                site_path@,
            ),
            DeployError::MissingPost(name) => DeployErrorView::MissingPost(name@),
            DeployError::FileSystem(reason) => DeployErrorView::FileSystem(reason@),
            DeployError::Negotiation(error) => DeployErrorView::Negotiation(error@),
            DeployError::OutOfOrder => DeployErrorView::OutOfOrder,
        }
    }
}

/// What a deploy that got past the negotiation did: the paths it uploaded and
/// the paths whose upload failed, each in the order of the attempts.
#[derive(Debug)]
pub struct DeployResult {
    pub uploaded: Vec<String>,
    pub failed: Vec<String>,
}

impl DeployResult {
    /// Whether every required artifact was uploaded.
    pub fn success(&self) -> (r: bool)
        ensures
            r == (self.failed@.len() == 0),
    {
        self.failed.len() == 0
    }
}

/// Whether `i` is the first position of `expected` whose name is not among
/// `rendered`.
pub open spec fn is_first_missing(
    expected: Seq<Seq<char>>,
    rendered: Seq<Seq<char>>,
    i: int,
) -> bool {
    &&& 0 <= i < expected.len()
    &&& !rendered.contains(expected[i])
    &&& forall|j: int| 0 <= j < i ==> rendered.contains(#[trigger] expected[j])
}

/// The first position of `expected` whose name is not among `rendered`, where
/// there is one.
pub open spec fn first_missing(expected: Seq<Seq<char>>, rendered: Seq<Seq<char>>) -> int {
    choose|i: int| is_first_missing(expected, rendered, i)
}

/// What the rendered output in the directory `site_path` lacks, if anything:
/// the root document, or else the first expected post page that was not
/// rendered.
pub open spec fn missing_artifact(
    site_path: Seq<char>,
    has_index: bool,
    expected: Seq<Seq<char>>,
    rendered: Seq<Seq<char>>,
) -> Option<DeployErrorView> {
    if !has_index {
        Some(DeployErrorView::MissingRootDocument(site_path))
    } else if exists|i: int| is_first_missing(expected, rendered, i) {
        Some(DeployErrorView::MissingPost(expected[first_missing(expected, rendered)]))
    } else {
        None
    }
}

/// Checks that the root document and one rendered page per post exist.
pub fn check_rendered(
    site_path: &str,
    has_index: bool,
    expected: &Vec<String>,
    rendered: &Vec<String>,
) -> (r: Option<DeployError>)
    ensures
        match r {
            Some(error) => Some(error@),
            None => None,
        } == missing_artifact(
            site_path@,
            has_index,
            strings_view(expected@),
            strings_view(rendered@),
        ),
        r is None <==> has_index && forall|i: int|
            0 <= i < expected.len() ==> strings_view(rendered@).contains(
                #[trigger] strings_view(expected@)[i],
            ),
{
    let ghost exp = strings_view(expected@);
    let ghost ren = strings_view(rendered@);
    if !has_index {
        return Some(DeployError::MissingRootDocument(site_path.to_owned()));
    }
    let mut i: usize = 0;
    while i < expected.len()
        invariant
            i <= expected.len(),
            has_index,
            exp == strings_view(expected@),
            ren == strings_view(rendered@),
            forall|j: int| 0 <= j < i ==> ren.contains(#[trigger] exp[j]),
        decreases expected.len() - i,
    {
        assert(ren.take(rendered.len() as int) =~= ren);
        assert(exp[i as int] == expected[i as int]@);
        if !occurs_before(rendered, rendered.len(), expected[i].as_str()) {
            let name = expected[i].clone();
            proof {
                assert(is_first_missing(exp, ren, i as int));
                let c = first_missing(exp, ren);
                if c < i {
                    assert(ren.contains(exp[c]));
                } else if i < c {
                    assert(ren.contains(exp[i as int]));
                }
                assert(c == i);
                assert(name@ == exp[c]);
            }
            return Some(DeployError::MissingPost(name));
        }
        i += 1;
    }
    proof {
        assert forall|c: int| !is_first_missing(exp, ren, c) by {
            if 0 <= c < exp.len() {
                assert(ren.contains(exp[c]));
            }
        }
    }
    None
}

/// Where a deploy stands.
#[derive(Debug)]
pub enum DeployState {
    /// Nothing has been rendered yet.
    Start,
    /// The site's directory, named here, holds the root document and every
    /// post page.
    Rendered { site_path: String },
    /// The manifest of the rendered output has been computed.
    Manifested { manifest: FileHashes },
    /// The provider has said what it needs; `plan` lists the paths to upload,
    /// and the first of them that is in neither `uploaded` nor `failed` is
    /// being uploaded.
    Negotiated { deploy_id: String, plan: Vec<String>, uploaded: Vec<String>, failed: Vec<String> },
    /// Every planned upload has been attempted.
    Uploaded { result: DeployResult },
    /// The deploy is over and its result has been reported.
    Complete { result: DeployResult },
    /// The deploy was abandoned before any upload.
    Failed { error: DeployError },
}

/// A [`DeployState`] as the contracts see it.
pub enum DeployStateView {
    Start,
    Rendered { site_path: Seq<char> },
    Manifested { entries: Seq<Entry> },
    Negotiated {
        deploy_id: Seq<char>,
        plan: Seq<Seq<char>>,
        uploaded: Seq<Seq<char>>,
        failed: Seq<Seq<char>>,
    },
    Uploaded { uploaded: Seq<Seq<char>>, failed: Seq<Seq<char>> },
    Complete { uploaded: Seq<Seq<char>>, failed: Seq<Seq<char>> },
    Failed { error: DeployErrorView },
}

impl View for DeployState {
    type V = DeployStateView;

    open spec fn view(&self) -> DeployStateView {
        match *self {
            DeployState::Start => DeployStateView::Start,
            DeployState::Rendered { site_path } => DeployStateView::Rendered {
                site_path: site_path@,
            },
            DeployState::Manifested { manifest } => DeployStateView::Manifested {
                entries: manifest.entries(),
            },
            DeployState::Negotiated { deploy_id, plan, uploaded, failed } => DeployStateView::Negotiated {
                deploy_id: deploy_id@,
                plan: strings_view(plan@),
                uploaded: strings_view(uploaded@),
                failed: strings_view(failed@),
            },
            DeployState::Uploaded { result } => DeployStateView::Uploaded {
                uploaded: strings_view(result.uploaded@),
                failed: strings_view(result.failed@),
            },
            DeployState::Complete { result } => DeployStateView::Complete {
                uploaded: strings_view(result.uploaded@),
                failed: strings_view(result.failed@),
            },
            DeployState::Failed { error } => DeployStateView::Failed { error: error@ },
        }
    }
}

/// What the driver of a deploy reports back after it has acted.
#[derive(Debug)]
pub enum DeployEvent {
    /// Rendering is over: whether the root document exists, the file names of
    /// the post pages that should exist, and of those that do.
    RenderFinished { site_path: String, has_index: bool, expected: Vec<String>, rendered: Vec<String> },
    /// The rendered output has been read: the bytes of the root document and
    /// the files of the posts directory.
    ArtifactsRead { index: Option<Vec<u8>>, posts: Vec<Artifact> },
    /// The rendered output could not be read.
    ReadFailed { reason: String },
    /// The provider accepted the manifest and requires these digests.
    NegotiationAccepted { deploy_id: String, required: Vec<String> },
    /// The negotiation failed.
    NegotiationFailed { error: DeployError },
    /// The upload that was asked for is over, and whether it succeeded.
    UploadFinished { ok: bool },
    /// The driver has taken note that the uploads are over.
    Acknowledged,
}

/// A [`DeployEvent`] as the contracts see it.
pub enum DeployEventView {
    RenderFinished {
        site_path: Seq<char>,
        has_index: bool,
        expected: Seq<Seq<char>>,
        rendered: Seq<Seq<char>>,
    },
    ArtifactsRead { index: Option<Seq<u8>>, posts: Seq<ArtifactModel> },
    ReadFailed { reason: Seq<char> },
    NegotiationAccepted { deploy_id: Seq<char>, required: Seq<Seq<char>> },
    NegotiationFailed { error: DeployErrorView },
    UploadFinished { ok: bool },
    Acknowledged,
}

impl View for DeployEvent {
    type V = DeployEventView;

    open spec fn view(&self) -> DeployEventView {
        match *self {
            DeployEvent::RenderFinished { site_path, has_index, expected, rendered } => {
                DeployEventView::RenderFinished {
                    site_path: site_path@,
                    has_index,
                    expected: strings_view(expected@),
                    rendered: strings_view(rendered@),
                }
            },
            DeployEvent::ArtifactsRead { index, posts } => DeployEventView::ArtifactsRead {
                index: match index {
                    Some(bytes) => Some(bytes@),
                    None => None,
                },
                posts: artifacts_view(posts@),
            },
            DeployEvent::ReadFailed { reason } => DeployEventView::ReadFailed { reason: reason@ },
            DeployEvent::NegotiationAccepted { deploy_id, required } => {
                DeployEventView::NegotiationAccepted {
                    deploy_id: deploy_id@,
                    required: strings_view(required@),
                }
            },
            DeployEvent::NegotiationFailed { error } => DeployEventView::NegotiationFailed {
                error: error@,
            },
            DeployEvent::UploadFinished { ok } => DeployEventView::UploadFinished { ok },
            DeployEvent::Acknowledged => DeployEventView::Acknowledged,
        }
    }
}

/// What the driver of a deploy is to do next.
#[derive(Debug)]
pub enum DeployAction {
    /// Read the root document and the posts directory of the rendered output.
    ReadArtifacts,
    /// Submit the manifest held by the state to the provider.
    Negotiate,
    /// Upload the artifact recorded under this manifest path.
    Upload { deploy_id: String, path: String },
    /// Every upload has been attempted: acknowledge.
    Conclude,
    /// The deploy is complete: report the result held by the state.
    Report,
    /// The deploy has failed: report the error held by the state.
    Abort,
}

/// A [`DeployAction`] as the contracts see it.
pub enum DeployActionView {
    ReadArtifacts,
    Negotiate,
    Upload { deploy_id: Seq<char>, path: Seq<char> },
    Conclude,
    Report,
    Abort,
}

impl View for DeployAction {
    type V = DeployActionView;

    open spec fn view(&self) -> DeployActionView {
        match *self {
            DeployAction::ReadArtifacts => DeployActionView::ReadArtifacts,
            DeployAction::Negotiate => DeployActionView::Negotiate,
            DeployAction::Upload { deploy_id, path } => DeployActionView::Upload {
                deploy_id: deploy_id@,
                path: path@,
            },
            DeployAction::Conclude => DeployActionView::Conclude,
            DeployAction::Report => DeployActionView::Report,
            DeployAction::Abort => DeployActionView::Abort,
        }
    }
}

/// The state and the action once `uploaded` and `failed` list the attempts
/// made so far on `plan`: the next planned path is uploaded, or, when none is
/// left, the uploads are over.
pub open spec fn continue_uploads(
    deploy_id: Seq<char>,
    plan: Seq<Seq<char>>,
    uploaded: Seq<Seq<char>>,
    failed: Seq<Seq<char>>,
) -> (DeployStateView, DeployActionView) {
    let planned = plan.len();
    let done = uploaded.len() + failed.len();
    if done < planned {
        (
            DeployStateView::Negotiated { deploy_id, plan, uploaded, failed },
            DeployActionView::Upload { deploy_id, path: plan[done as int] },
        )
    } else {
        (DeployStateView::Uploaded { uploaded, failed }, DeployActionView::Conclude)
    }
}

/// The deploy's transition function: the state that follows `state` on
/// `event`, and what the driver is to do then. Steps are strictly ordered:
/// an event that the state does not wait for fails the deploy, and the two
/// final states never change.
pub open spec fn deploy_next(state: DeployStateView, event: DeployEventView) -> (
    DeployStateView,
    DeployActionView,
) {
    match (state, event) {
        (DeployStateView::Complete { .. }, _) => (state, DeployActionView::Report),
        (DeployStateView::Failed { .. }, _) => (state, DeployActionView::Abort),
        (
            DeployStateView::Start,
            DeployEventView::RenderFinished { site_path, has_index, expected, rendered },
        ) => match missing_artifact(site_path, has_index, expected, rendered) {
            Some(error) => (DeployStateView::Failed { error }, DeployActionView::Abort),
            None => (DeployStateView::Rendered { site_path }, DeployActionView::ReadArtifacts),
        },
        (
            DeployStateView::Rendered { site_path },
            DeployEventView::ArtifactsRead { index, posts },
        ) => match index {
            Some(bytes) => (
                DeployStateView::Manifested { entries: manifest_entries(bytes, posts) },
                DeployActionView::Negotiate,
            ),
            None => (
                DeployStateView::Failed { error: DeployErrorView::MissingRootDocument(site_path) },
                DeployActionView::Abort,
            ),
        },
        (DeployStateView::Rendered { .. }, DeployEventView::ReadFailed { reason }) => (
            DeployStateView::Failed { error: DeployErrorView::FileSystem(reason) },
            DeployActionView::Abort,
        ),
        (
            DeployStateView::Manifested { entries },
            DeployEventView::NegotiationAccepted { deploy_id, required },
        ) => continue_uploads(
            deploy_id,
            upload_plan(entries, required),
            Seq::empty(),
            Seq::empty(),
        ),
        (DeployStateView::Manifested { .. }, DeployEventView::NegotiationFailed { error }) => (
            DeployStateView::Failed { error },
            DeployActionView::Abort,
        ),
        (
            DeployStateView::Negotiated { deploy_id, plan, uploaded, failed },
            DeployEventView::UploadFinished { ok },
        ) => {
            let path = plan[(uploaded.len() + failed.len()) as int];
            if ok {
                continue_uploads(deploy_id, plan, uploaded.push(path), failed)
            } else {
                continue_uploads(deploy_id, plan, uploaded, failed.push(path))
            }
        },
        (DeployStateView::Uploaded { uploaded, failed }, DeployEventView::Acknowledged) => (
            DeployStateView::Complete { uploaded, failed },
            DeployActionView::Report,
        ),
        _ => (DeployStateView::Failed { error: DeployErrorView::OutOfOrder }, DeployActionView::Abort),
    }
}

impl DeployState {
    /// The state's invariant: a manifest has unique paths, and while uploads
    /// are under way one planned path is still to be attempted.
    pub open spec fn wf(&self) -> bool {
        match *self {
            DeployState::Manifested { manifest } => manifest.wf(),
            DeployState::Negotiated { plan, uploaded, failed, .. } => uploaded@.len() + failed@.len()
                < plan@.len(),
            _ => true,
        }
    }

    /// A deploy that has not begun.
    pub fn new() -> (r: DeployState)
        ensures
            r@ == DeployStateView::Start,
            r.wf(),
    {
        DeployState::Start
    }

    /// Takes one step of the deploy: consumes what the driver reports and
    /// says what it is to do next.
    pub fn step(self, event: DeployEvent) -> (r: (DeployState, DeployAction))
        requires
            self.wf(),
        ensures
            r.0.wf(),
            r.0@ == deploy_next(self@, event@).0,
            r.1@ == deploy_next(self@, event@).1,
    {
        match self {
            DeployState::Complete { result } => (DeployState::Complete { result }, DeployAction::Report),
            DeployState::Failed { error } => (DeployState::Failed { error }, DeployAction::Abort),
            DeployState::Start => match event {
                DeployEvent::RenderFinished { site_path, has_index, expected, rendered } => {
                    match check_rendered(site_path.as_str(), has_index, &expected, &rendered) {
                        Some(error) => (DeployState::Failed { error }, DeployAction::Abort),
                        None => (DeployState::Rendered { site_path }, DeployAction::ReadArtifacts),
                    }
                },
                _ => out_of_order(),
            },
            DeployState::Rendered { site_path } => match event {
                DeployEvent::ArtifactsRead { index, posts } => {
                    let hashed = match &index {
                        Some(bytes) => Netlify::generate_sha1_for_posts(
                            site_path.as_str(),
                            Some(bytes.as_slice()),
                            &posts,
                        ),
                        None => Netlify::generate_sha1_for_posts(site_path.as_str(), None, &posts),
                    };
                    match hashed {
                        Ok(manifest) => (DeployState::Manifested { manifest }, DeployAction::Negotiate),
                        Err(_) => (
                            DeployState::Failed { error: DeployError::MissingRootDocument(site_path) },
                            DeployAction::Abort,
                        ),
                    }
                },
                DeployEvent::ReadFailed { reason } => (
                    DeployState::Failed { error: DeployError::FileSystem(reason) },
                    DeployAction::Abort,
                ),
                _ => out_of_order(),
            },
            DeployState::Manifested { manifest } => match event {
                DeployEvent::NegotiationAccepted { deploy_id, required } => {
                    let plan = plan_uploads(&manifest, &required);
                    let uploaded: Vec<String> = Vec::new();
                    let failed: Vec<String> = Vec::new();
                    proof {
                        assert(strings_view(uploaded@) =~= Seq::<Seq<char>>::empty());
                        assert(strings_view(failed@) =~= Seq::<Seq<char>>::empty());
                    }
                    proceed(deploy_id, plan, uploaded, failed)
                },
                DeployEvent::NegotiationFailed { error } => (
                    DeployState::Failed { error },
                    DeployAction::Abort,
                ),
                _ => out_of_order(),
            },
            DeployState::Negotiated { deploy_id, plan, uploaded, failed } => match event {
                DeployEvent::UploadFinished { ok } => {
                    let mut uploaded = uploaded;
                    let mut failed = failed;
                    let ghost before_uploaded = strings_view(uploaded@);
                    let ghost before_failed = strings_view(failed@);
                    let planned = plan.len();
                    let path = plan[uploaded.len() + failed.len()].clone();
                    assert(path@ == strings_view(plan@)[(uploaded@.len() + failed@.len()) as int]);
                    if ok {
                        uploaded.push(path);
                        assert(strings_view(uploaded@) =~= before_uploaded.push(path@));
                    } else {
                        failed.push(path);
                        assert(strings_view(failed@) =~= before_failed.push(path@));
                    }
                    proceed(deploy_id, plan, uploaded, failed)
                },
                _ => out_of_order(),
            },
            DeployState::Uploaded { result } => match event {
                DeployEvent::Acknowledged => (DeployState::Complete { result }, DeployAction::Report),
                _ => out_of_order(),
            },
        }
    }
}

/// The failure of a deploy whose driver reported a step out of turn.
fn out_of_order() -> (r: (DeployState, DeployAction))
    ensures
        r.0@ == (DeployStateView::Failed { error: DeployErrorView::OutOfOrder }),
        r.1@ == DeployActionView::Abort,
        r.0.wf(),
{
    (DeployState::Failed { error: DeployError::OutOfOrder }, DeployAction::Abort)
}

/// Goes on with the next planned upload, or ends the uploads.
fn proceed(deploy_id: String, plan: Vec<String>, uploaded: Vec<String>, failed: Vec<String>) -> (r:
    (DeployState, DeployAction))
    requires
        uploaded@.len() + failed@.len() <= plan@.len(),
    ensures
        r.0.wf(),
        r.0@ == continue_uploads(
            deploy_id@,
            strings_view(plan@),
            strings_view(uploaded@),
            strings_view(failed@),
        ).0,
        r.1@ == continue_uploads(
            deploy_id@,
            strings_view(plan@),
            strings_view(uploaded@),
            strings_view(failed@),
        ).1,
{
    let planned = plan.len();
    let done = uploaded.len() + failed.len();
    if done < planned {
        let path = plan[done].clone();
        let deploy = deploy_id.clone();
        (
            DeployState::Negotiated { deploy_id, plan, uploaded, failed },
            DeployAction::Upload { deploy_id: deploy, path },
        )
    } else {
        (DeployState::Uploaded { result: DeployResult { uploaded, failed } }, DeployAction::Conclude)
    }
}

/// Of the first `k` planned paths, those whose upload ended as `ok` says,
/// where `outcomes[i]` tells whether the upload of `plan[i]` succeeded.
pub open spec fn attempted(plan: Seq<Seq<char>>, outcomes: Seq<bool>, k: int, ok: bool) -> Seq<
    Seq<char>,
>
    decreases k,
{
    if k <= 0 {
        Seq::empty()
    } else if outcomes[k - 1] == ok {
        attempted(plan, outcomes, k - 1, ok).push(plan[k - 1])
    } else {
        attempted(plan, outcomes, k - 1, ok)
    }
}

/// The state and the action of a deploy once the first `k` planned uploads
/// have ended as `outcomes` says.
pub open spec fn after_uploads(
    deploy_id: Seq<char>,
    plan: Seq<Seq<char>>,
    outcomes: Seq<bool>,
    k: int,
) -> (DeployStateView, DeployActionView) {
    continue_uploads(
        deploy_id,
        plan,
        attempted(plan, outcomes, k, true),
        attempted(plan, outcomes, k, false),
    )
}

/// Each of the first `k` planned paths was attempted once: it is among the
/// uploaded paths or among the failed ones.
pub proof fn lemma_attempted(plan: Seq<Seq<char>>, outcomes: Seq<bool>, k: int)
    requires
        0 <= k <= plan.len(),
        k <= outcomes.len(),
    ensures
        attempted(plan, outcomes, k, true).len() + attempted(plan, outcomes, k, false).len() == k,
        forall|i: int|
            0 <= i < k ==> attempted(plan, outcomes, k, outcomes[i]).contains(#[trigger] plan[i]),
        forall|p: Seq<char>, ok: bool|
            #[trigger] attempted(plan, outcomes, k, ok).contains(p) ==> plan.take(k).contains(p),
    decreases k,
{
    if k > 0 {
        lemma_attempted(plan, outcomes, k - 1);
        assert forall|i: int| 0 <= i < k implies attempted(plan, outcomes, k, outcomes[i]).contains(
            #[trigger] plan[i],
        ) by {
            let now = attempted(plan, outcomes, k, outcomes[i]);
            if i < k - 1 {
                let before = attempted(plan, outcomes, k - 1, outcomes[i]);
                let j = choose|j: int| 0 <= j < before.len() && before[j] == plan[i];
                assert(now[j] == plan[i]);
            } else {
                assert(now[now.len() - 1] == plan[i]);
            }
        }
        assert forall|p: Seq<char>, ok: bool| #[trigger]
            attempted(plan, outcomes, k, ok).contains(p) implies plan.take(k).contains(p) by {
            let now = attempted(plan, outcomes, k, ok);
            let before = attempted(plan, outcomes, k - 1, ok);
            let j = choose|j: int| 0 <= j < now.len() && now[j] == p;
            if j < before.len() {
                assert(before[j] == p);
                assert(before.contains(p));
                let shorter = plan.take(k - 1);
                let q = choose|q: int| 0 <= q < shorter.len() && shorter[q] == p;
                assert(plan.take(k)[q] == p);
            } else {
                assert(plan.take(k)[k - 1] == p);
            }
        }
    }
}

/// The upload phase attempts exactly the planned paths, in order, whatever
/// the outcome of each, and each into the deploy that the negotiation
/// opened: after `k` attempts the deploy asks for the upload of `plan[k]`, a
/// failure included, and after the last one it holds every planned path as
/// uploaded or as failed.
pub proof fn lemma_upload_phase(
    deploy_id: Seq<char>,
    plan: Seq<Seq<char>>,
    outcomes: Seq<bool>,
    k: int,
)
    requires
        0 <= k < plan.len(),
        k < outcomes.len(),
    ensures
        after_uploads(deploy_id, plan, outcomes, k).0 == (DeployStateView::Negotiated {
            deploy_id,
            plan,
            uploaded: attempted(plan, outcomes, k, true),
            failed: attempted(plan, outcomes, k, false),
        }),
        after_uploads(deploy_id, plan, outcomes, k).1 == (DeployActionView::Upload {
            deploy_id,
            path: plan[k],
        }),
        deploy_next(
            after_uploads(deploy_id, plan, outcomes, k).0,
            DeployEventView::UploadFinished { ok: outcomes[k] },
        ) == after_uploads(deploy_id, plan, outcomes, k + 1),
        k + 1 == plan.len() ==> after_uploads(deploy_id, plan, outcomes, k + 1) == (
            DeployStateView::Uploaded {
                uploaded: attempted(plan, outcomes, k + 1, true),
                failed: attempted(plan, outcomes, k + 1, false),
            },
            DeployActionView::Conclude,
        ),
{
    lemma_attempted(plan, outcomes, k);
    lemma_attempted(plan, outcomes, k + 1);
}

/// An accepted negotiation starts the upload phase on the plan made from the
/// manifest and the required digests, and on nothing else.
pub proof fn lemma_negotiation_starts_uploads(
    entries: Seq<Entry>,
    deploy_id: Seq<char>,
    required: Seq<Seq<char>>,
    outcomes: Seq<bool>,
)
    ensures
        deploy_next(
            DeployStateView::Manifested { entries },
            DeployEventView::NegotiationAccepted { deploy_id, required },
        ) == after_uploads(deploy_id, upload_plan(entries, required), outcomes, 0),
{
}

/// Where the provider requires nothing, the deploy uploads nothing.
pub proof fn lemma_nothing_required(entries: Seq<Entry>, deploy_id: Seq<char>)
    ensures
        deploy_next(
            DeployStateView::Manifested { entries },
            DeployEventView::NegotiationAccepted { deploy_id, required: Seq::empty() },
        ) == (
            DeployStateView::Uploaded { uploaded: Seq::empty(), failed: Seq::empty() },
            DeployActionView::Conclude,
        ),
{
}

/// A declined negotiation fails the deploy, and a failed deploy never asks
/// for an upload.
pub proof fn lemma_declined_negotiation(
    entries: Seq<Entry>,
    error: DeployErrorView,
    later: DeployEventView,
)
    ensures
        deploy_next(
            DeployStateView::Manifested { entries },
            DeployEventView::NegotiationFailed { error },
        ) == (DeployStateView::Failed { error }, DeployActionView::Abort),
        deploy_next(DeployStateView::Failed { error }, later) == (
            DeployStateView::Failed { error },
            DeployActionView::Abort,
        ),
{
}

/// An upload is only ever asked for once a negotiation has succeeded, and
/// then for a path of the plan made from it and into the deploy that it
/// opened.
pub proof fn lemma_upload_needs_negotiation(state: DeployStateView, event: DeployEventView)
    requires
        deploy_next(state, event).1 is Upload,
    ensures
        (state is Manifested && event is NegotiationAccepted) || (state is Negotiated
            && event is UploadFinished),
        deploy_next(state, event).0 is Negotiated,
        deploy_next(state, event).0->plan.contains(deploy_next(state, event).1->path),
        deploy_next(state, event).0->deploy_id == deploy_next(state, event).1->deploy_id,
        state is Manifested ==> deploy_next(state, event).1->deploy_id == event->deploy_id,
        state is Negotiated ==> deploy_next(state, event).1->deploy_id == state->deploy_id,
{
    let next = deploy_next(state, event);
    match next.0 {
        DeployStateView::Negotiated { deploy_id, plan, uploaded, failed } => {
            assert(plan[(uploaded.len() + failed.len()) as int] == next.1->path);
        },
        _ => {},
    }
}

/// What the provider's reply to a submitted manifest means for the deploy:
/// a reply that names the deploy and lists the digests it requires opens the
/// upload phase, and anything else fails the negotiation.
pub open spec fn negotiation_outcome(reply: Result<SiteDetails, ApiError>) -> DeployEventView {
    match reply {
        Ok(site) => match (site.id, site.required) {
            (Some(deploy_id), Some(required)) => DeployEventView::NegotiationAccepted {
                deploy_id: deploy_id@,
                required: strings_view(required@),
            },
            _ => DeployEventView::NegotiationFailed {
                error: DeployErrorView::Negotiation(ApiErrorView::Protocol),
            },
        },
        Err(error) => DeployEventView::NegotiationFailed {
            error: DeployErrorView::Negotiation(error@),
        },
    }
}

/// Turns the provider's reply to a submitted manifest into the event that
/// the deploy waits for.
pub fn negotiation_event(reply: Result<SiteDetails, ApiError>) -> (r: DeployEvent)
    ensures
        r@ == negotiation_outcome(reply),
{
    match reply {
        Ok(site) => match (site.id, site.required) {
            (Some(deploy_id), Some(required)) => DeployEvent::NegotiationAccepted {
                deploy_id,
                required,
            },
            _ => DeployEvent::NegotiationFailed {
                error: DeployError::Negotiation(ApiError::Protocol),
            },
        },
        Err(error) => DeployEvent::NegotiationFailed { error: DeployError::Negotiation(error) },
    }
}

} // verus!
