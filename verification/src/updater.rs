//! The update run as a state machine: the caller performs the outside work
//! (requests, downloads, extraction) and reports what came of it; the engine
//! decides what happens next.

use vstd::pervasive::unreached;
use vstd::prelude::*;
use vstd::string::*;

use crate::catalog::{
    all_wf, applicable_patches, catalog_entries, newer_than, patch_views, read_entries,
    sort_by_version, sorted_by_version, PatchInfo, PatchInfoView,
};
use crate::download::{file_name_of, is_success_status, patch_file_name, status_is_success};
use crate::error::{ErrorView, Failure, UpdaterError};
use crate::install::{
    entry_views, extraction_plan, lemma_plan_step, plan_upto, step_views, ArchiveEntry,
    ExtractStep, Extraction,
};
use crate::progress::UpdateProgress;
use crate::version::{semver_parse, Version, VersionView};

verus! {

/// What the engine takes from the configuration of the application: where
/// the catalog is, and which version is installed.
#[derive(Debug)]
pub struct UpdateConfig {
    pub update_url: Option<String>,
    pub version: Option<String>,
}

/// Where a run stands.
#[derive(Debug, Clone, Copy, PartialEq, Eq, Structural)]
pub enum Stage {
    Idle,
    CheckingCatalog,
    Downloading,
    Installing,
    Done,
    Failed,
}

/// What the request for the catalog came to: no answer at all, or an answer
/// with its status code, its status line and its body, or the reason why the
/// body could not be read.
#[derive(Debug)]
pub enum CatalogReply {
    Unreachable { detail: String },
    Answered { status: u16, status_text: String, body: Result<String, String> },
}

impl CatalogReply {
    /// The text of the catalog that the reply delivers, or the error that it
    /// amounts to: a failed request, a status other than success, an
    /// unreadable body, in this order.
    pub open spec fn catalog_text(self) -> Result<Seq<char>, ErrorView> {
        match self {
            CatalogReply::Unreachable { detail } => Err(Failure::FetchCatalog(detail).error()),
            CatalogReply::Answered { status, status_text, body } => {
                if !is_success_status(status) {
                    Err(Failure::ServerStatus(status_text).error())
                } else {
                    match body {
                        Ok(text) => Ok(text@),
                        Err(detail) => Err(Failure::ReadResponse(detail).error()),
                    }
                }
            },
        }
    }
}

/// What to download and under which name to store it.
#[derive(Debug)]
pub struct DownloadRequest {
    pub url: String,
    pub file_name: String,
    pub version: String,
}

/// The mathematical value of a download request.
pub struct DownloadRequestView {
    pub url: Seq<char>,
    pub file_name: Seq<char>,
    pub version: Seq<char>,
}

impl View for DownloadRequest {
    type V = DownloadRequestView;

    open spec fn view(&self) -> DownloadRequestView {
        DownloadRequestView { url: self.url@, file_name: self.file_name@, version: self.version@ }
    }
}

/// The request that fetches a patch: from its URL, into the file named
/// after its version.
pub open spec fn request_for(patch: PatchInfoView) -> DownloadRequestView {
    DownloadRequestView {
        url: patch.download_url,
        file_name: file_name_of(patch.version.text()),
        version: patch.version.text(),
    }
}

/// What the caller reports to the engine.
#[derive(Debug)]
pub enum UpdateEvent {
    Start,
    CatalogFetched(CatalogReply),
    PatchDownloaded(Result<(), Failure>),
    PatchInstalled(Result<(), Failure>),
}

/// What the engine asks the caller to do next. `Finish` ends the run with
/// the new version text or with the error.
#[derive(Debug)]
pub enum UpdateAction {
    FetchCatalog { url: String },
    DownloadPatch(DownloadRequest),
    InstallPatch { file_name: String },
    Finish(Result<String, UpdaterError>),
}

/// The answer of the engine to an event: the progress events to hand on, in
/// order, and then the action to perform.
#[derive(Debug)]
pub struct UpdateStep {
    pub progress: Vec<UpdateProgress>,
    pub action: UpdateAction,
}

/// The mathematical value of the engine's state.
pub struct UpdaterView {
    pub update_url: Option<Seq<char>>,
    pub version: Option<Seq<char>>,
    pub stage: Stage,
    pub baseline: Option<VersionView>,
    pub applicable: Seq<PatchInfoView>,
    pub applied: int,
}

/// The update engine. It holds the configuration, the version that was
/// installed when the run started, the patches that the run applies, and how
/// many of them are installed.
#[derive(Debug)]
pub struct Updater {
    config: UpdateConfig,
    stage: Stage,
    baseline: Option<Version>,
    applicable: Vec<PatchInfo>,
    applied: usize,
}

impl View for Updater {
    type V = UpdaterView;

    closed spec fn view(&self) -> UpdaterView {
        UpdaterView {
            update_url: match self.config.update_url {
                Some(url) => Some(url@),
                None => None,
            },
            version: match self.config.version {
                Some(text) => Some(text@),
                None => None,
            },
            stage: self.stage,
            baseline: match self.baseline {
                Some(version) => Some(version@),
                None => None,
            },
            applicable: patch_views(self.applicable@),
            applied: self.applied as int,
        }
    }
}

impl UpdaterView {
    /// The invariant of the state: the patches of the run are ascending by
    /// version and newer than the version that was installed when the run
    /// started, and an idle engine has none; the count of installed patches
    /// does not exceed their number; while a patch is being downloaded or
    /// installed there is one left; and the catalog is asked for only where
    /// its address and the installed version are known.
    pub open spec fn wf(self) -> bool {
        &&& sorted_by_version(self.applicable)
        &&& forall|i: int|
            0 <= i < self.applicable.len() ==> (#[trigger] self.applicable[i]).version.labels_valid()
        &&& self.stage == Stage::Idle ==> self.applicable.len() == 0
        &&& self.applicable.len() > 0 ==> self.baseline is Some
        &&& forall|i: int|
            0 <= i < self.applicable.len() ==> (#[trigger] self.applicable[i]).version.gt(
                self.baseline->0,
            )
        &&& 0 <= self.applied <= self.applicable.len()
        &&& (self.stage == Stage::Downloading || self.stage == Stage::Installing)
            ==> self.applied < self.applicable.len()
        &&& self.stage == Stage::CheckingCatalog ==> self.update_url is Some
        &&& self.stage == Stage::CheckingCatalog ==> self.baseline is Some
        &&& self.baseline matches Some(installed) ==> installed.labels_valid()
    }

    /// The patch that the run is busy with.
    pub open spec fn current(self) -> PatchInfoView {
        self.applicable[self.applied]
    }

    /// The state after the run has failed: nothing but the stage changes.
    pub open spec fn failed(self) -> UpdaterView {
        UpdaterView { stage: Stage::Failed, ..self }
    }

    /// The run ends in failure with `error`: nothing but the stage changes,
    /// and the step finishes the run with the error.
    pub open spec fn fails_with(self, error: ErrorView, after: UpdaterView, step: UpdateStep)
        -> bool {
        &&& after == self.failed()
        &&& step.action matches UpdateAction::Finish(Err(e)) && e@ == error
    }

    /// What `Start` leads to: `CheckingForUpdates` is reported; then the
    /// catalog is asked for at the configured address and the installed
    /// version is remembered, or the run fails for want of either.
    pub open spec fn starts(self, after: UpdaterView, step: UpdateStep) -> bool {
        &&& step.progress.len() == 1
        &&& step.progress[0] is CheckingForUpdates
        &&& match self.start_point() {
            Ok((installed, url)) => {
                &&& after == (UpdaterView {
                    stage: Stage::CheckingCatalog,
                    baseline: Some(installed),
                    ..self
                })
                &&& step.action matches UpdateAction::FetchCatalog { url: address } && address@
                    == url
            },
            Err(error) => self.fails_with(error, after, step),
        }
    }

    /// What the reply to the request for the catalog leads to. A reply that
    /// delivers no catalog fails the run with its error, and a catalog
    /// without patches with `NoUpdatesAvailable`; neither reports anything.
    /// Otherwise the whole catalog, ascending by version, is reported as
    /// `UpdatesAvailable`. Its patches newer than the installed version
    /// become the patches of the run, ascending, and the first of them is
    /// asked for; if none is newer the run fails with `NoUpdatesAvailable`.
    pub open spec fn reads_catalog(self, reply: CatalogReply, after: UpdaterView, step: UpdateStep)
        -> bool {
        match reply.catalog_text() {
            Err(error) => step.progress.len() == 0 && self.fails_with(error, after, step),
            Ok(text) => {
                if catalog_entries(text).len() == 0 {
                    step.progress.len() == 0 && self.fails_with(
                        ErrorView::NoUpdatesAvailable,
                        after,
                        step,
                    )
                } else {
                    &&& step.progress.len() == 1
                    &&& step.progress[0] matches UpdateProgress::UpdatesAvailable(catalog)
                    &&& sorted_by_version(patch_views(catalog@))
                    &&& patch_views(catalog@).to_multiset() == catalog_entries(text).to_multiset()
                    &&& {
                        let newer = patch_views(catalog@).filter(newer_than(self.baseline->0));
                        if newer.len() == 0 {
                            self.fails_with(ErrorView::NoUpdatesAvailable, after, step)
                        } else {
                            &&& after.stage == Stage::Downloading
                            &&& after.update_url == self.update_url
                            &&& after.version == self.version
                            &&& after.baseline == self.baseline
                            &&& after.applied == 0
                            &&& after.applicable.to_multiset() == newer.to_multiset()
                            &&& sorted_by_version(after.applicable)
                            &&& step.action matches UpdateAction::DownloadPatch(request)
                                && request@ == request_for(after.applicable[0])
                        }
                    }
                }
            },
        }
    }

    /// What the outcome of a download leads to: the installation of the
    /// archive that was stored under the name of the patch, or the failure
    /// of the run with the error of the download. Nothing is reported.
    pub open spec fn downloads(
        self,
        outcome: Result<(), Failure>,
        after: UpdaterView,
        step: UpdateStep,
    ) -> bool {
        &&& step.progress.len() == 0
        &&& match outcome {
            Ok(_) => {
                &&& after == (UpdaterView { stage: Stage::Installing, ..self })
                &&& step.action matches UpdateAction::InstallPatch { file_name } && file_name@
                    == file_name_of(self.current().version.text())
            },
            Err(failure) => self.fails_with(failure.error(), after, step),
        }
    }

    /// What the outcome of an installation leads to. After a success the
    /// version of the patch is the installed one and the patch is counted;
    /// then the next patch is asked for, or, after the last, `Complete` is
    /// reported and the run finishes with the new version. After a failure
    /// the run fails with its error, and the installed version and the
    /// count stay as they were.
    pub open spec fn installs(
        self,
        outcome: Result<(), Failure>,
        after: UpdaterView,
        step: UpdateStep,
    ) -> bool {
        match outcome {
            Ok(_) => {
                let installed = self.current().version.text();
                &&& after.update_url == self.update_url
                &&& after.version == Some(installed)
                &&& after.baseline == self.baseline
                &&& after.applicable == self.applicable
                &&& after.applied == self.applied + 1
                &&& if after.applied < after.applicable.len() {
                    &&& after.stage == Stage::Downloading
                    &&& step.progress.len() == 0
                    &&& step.action matches UpdateAction::DownloadPatch(request) && request@
                        == request_for(after.current())
                } else {
                    &&& after.stage == Stage::Done
                    &&& step.progress.len() == 1
                    &&& step.progress[0] is Complete
                    &&& step.action matches UpdateAction::Finish(Ok(version)) && version@
                        == installed
                }
            },
            Err(failure) => step.progress.len() == 0 && self.fails_with(
                failure.error(),
                after,
                step,
            ),
        }
    }

    /// The transition of the engine: how the state `after` and the answer
    /// `step` follow from the state `self` and the reported `event`.
    pub open spec fn steps_to(self, event: UpdateEvent, after: UpdaterView, step: UpdateStep)
        -> bool {
        match event {
            UpdateEvent::Start => self.starts(after, step),
            UpdateEvent::CatalogFetched(reply) => self.reads_catalog(reply, after, step),
            UpdateEvent::PatchDownloaded(outcome) => self.downloads(outcome, after, step),
            UpdateEvent::PatchInstalled(outcome) => self.installs(outcome, after, step),
        }
    }

    /// What a run can start with: the installed version and the address of
    /// the catalog. The version is looked at first: a missing or unreadable
    /// version is a `VersionParseError`, and only then a missing address is
    /// `NoUpdateUrlConfigured`.
    pub open spec fn start_point(self) -> Result<(VersionView, Seq<char>), ErrorView> {
        match self.version {
            None => Err(ErrorView::VersionParseError("No version in config"@)),
            Some(text) => match semver_parse(text) {
                Err(message) => Err(ErrorView::VersionParseError(message)),
                Ok(installed) => match self.update_url {
                    None => Err(ErrorView::NoUpdateUrlConfigured),
                    Some(url) => Ok((installed, url)),
                },
            },
        }
    }
}

impl Updater {
    /// The invariant of the engine: that of its value.
    pub open spec fn wf(&self) -> bool {
        self@.wf()
    }

    /// Whether `event` is the report that the engine waits for in its stage.
    pub open spec fn expects(&self, event: UpdateEvent) -> bool {
        match event {
            UpdateEvent::Start => self@.stage == Stage::Idle,
            UpdateEvent::CatalogFetched(_) => self@.stage == Stage::CheckingCatalog,
            UpdateEvent::PatchDownloaded(_) => self@.stage == Stage::Downloading,
            UpdateEvent::PatchInstalled(_) => self@.stage == Stage::Installing,
        }
    }

    /// An idle engine for the given configuration.
    pub fn new(config: UpdateConfig) -> (updater: Updater)
        ensures
            updater.wf(),
            updater@ == (UpdaterView {
                update_url: match config.update_url {
                    Some(url) => Some(url@),
                    None => None,
                },
                version: match config.version {
                    Some(text) => Some(text@),
                    None => None,
                },
                stage: Stage::Idle,
                baseline: None,
                applicable: Seq::<PatchInfoView>::empty(),
                applied: 0,
            }),
    {
        let updater = Updater {
            config,
            stage: Stage::Idle,
            baseline: None,
            applicable: Vec::new(),
            applied: 0,
        };
        assert(patch_views(updater.applicable@) =~= Seq::<PatchInfoView>::empty());
        updater
    }

    /// Where the run stands.
    pub fn stage(&self) -> (stage: Stage)
        ensures
            stage == self@.stage,
    {
        self.stage
    }

    /// The installed version as the engine knows it: that of the
    /// configuration, replaced by the version of each patch as soon as the
    /// patch is installed.
    pub fn installed_version(&self) -> (version: Option<&String>)
        ensures
            match version {
                Some(text) => self@.version == Some(text@),
                None => self@.version is None,
            },
    {
        self.config.version.as_ref()
    }

    /// How many patches of the run are installed.
    pub fn applied_count(&self) -> (count: usize)
        ensures
            count == self@.applied,
    {
        self.applied
    }

    /// The patches that the run applies, ascending by version.
    pub fn applicable(&self) -> (patches: &Vec<PatchInfo>)
        ensures
            patch_views(patches@) == self@.applicable,
    {
        &self.applicable
    }

    /// The address of the catalog. Fails with `NoUpdateUrlConfigured`
    /// exactly when the configuration has none.
    pub fn catalog_url(&self) -> (url: Result<&String, UpdaterError>)
        ensures
            match url {
                Ok(address) => self@.update_url == Some(address@),
                Err(error) => self@.update_url is None && error@
                    == ErrorView::NoUpdateUrlConfigured,
            },
    {
        match &self.config.update_url {
            Some(address) => Ok(address),
            None => Err(UpdaterError::NoUpdateUrlConfigured),
        }
    }

    /// Whether `event` is the report that the engine waits for.
    pub fn accepts(&self, event: &UpdateEvent) -> (yes: bool)
        ensures
            yes == self.expects(*event),
    {
        match event {
            UpdateEvent::Start => self.stage == Stage::Idle,
            UpdateEvent::CatalogFetched(_) => self.stage == Stage::CheckingCatalog,
            UpdateEvent::PatchDownloaded(_) => self.stage == Stage::Downloading,
            UpdateEvent::PatchInstalled(_) => self.stage == Stage::Installing,
        }
    }

    /// Reads the catalog out of the reply to the request for it. Without a
    /// configured address the result is `NoUpdateUrlConfigured`, whatever the
    /// reply; a reply that delivers no text is a `NetworkError`; a text that
    /// names no patch is `NoUpdatesAvailable`; otherwise the result is the
    /// patches that the text names, ascending by version.
    pub fn check_for_updates(&self, reply: &CatalogReply) -> (result: Result<
        Vec<PatchInfo>,
        UpdaterError,
    >)
        ensures
            match result {
                Ok(patches) => {
                    &&& self@.update_url is Some
                    &&& reply.catalog_text() matches Ok(text)
                    &&& patches.len() > 0
                    &&& patches.len() == catalog_entries(text).len()
                    &&& all_wf(patches@)
                    &&& sorted_by_version(patch_views(patches@))
                    &&& patch_views(patches@).to_multiset() == catalog_entries(text).to_multiset()
                },
                Err(error) => {
                    if self@.update_url is None {
                        error@ == ErrorView::NoUpdateUrlConfigured
                    } else {
                        match reply.catalog_text() {
                            Err(fault) => error@ == fault,
                            Ok(text) => error@ == ErrorView::NoUpdatesAvailable && catalog_entries(
                                text,
                            ).len() == 0,
                        }
                    }
                },
            },
    {
        if self.config.update_url.is_none() {
            return Err(UpdaterError::NoUpdateUrlConfigured);
        }
        match reply {
            CatalogReply::Unreachable { detail } => Err(
                Failure::FetchCatalog(detail.clone()).into_error(),
            ),
            CatalogReply::Answered { status, status_text, body } => {
                if !status_is_success(*status) {
                    Err(Failure::ServerStatus(status_text.clone()).into_error())
                } else {
                    match body {
                        Ok(text) => {
                            let patches = sort_by_version(read_entries(text.as_str()));
                            if patches.len() == 0 {
                                Err(UpdaterError::NoUpdatesAvailable)
                            } else {
                                Ok(patches)
                            }
                        },
                        Err(detail) => Err(Failure::ReadResponse(detail.clone()).into_error()),
                    }
                }
            },
        }
    }

    /// Says how to download a patch: from its URL, into the file
    /// `patch-<version>.zip` of the staging directory.
    pub fn download_patch(&self, patch: &PatchInfo) -> (request: DownloadRequest)
        requires
            patch.wf(),
        ensures
            request@ == request_for(patch@),
    {
        DownloadRequest {
            url: patch.download_url.clone(),
            file_name: patch_file_name(&patch.version),
            version: patch.version.to_string(),
        }
    }

    /// Plans the installation of a downloaded archive from the list of its
    /// entries: one step for each entry whose path stays inside the
    /// extraction root, in archive order, and none for the others.
    pub fn apply_patch(&self, archive: &str, entries: &Vec<ArchiveEntry>) -> (steps: Vec<
        ExtractStep,
    >)
        ensures
            step_views(steps@) == extraction_plan(entry_views(entries@), archive@),
    {
        let total = entries.len();
        let mut extraction = Extraction::new(archive, total);
        let mut steps: Vec<ExtractStep> = Vec::new();
        let ghost views = entry_views(entries@);
        proof {
            assert(plan_upto(views, archive@, 0) =~= step_views(steps@)) by {
                assert(Seq::new(0nat, |i: int| i) =~= Seq::<int>::empty());
            }
        }
        let mut i: usize = 0;
        while i < total
            invariant
                total == entries.len(),
                i <= total,
                extraction.wf(),
                extraction.position() == i,
                extraction.total() == total,
                extraction.archive() == archive@,
                views == entry_views(entries@),
                step_views(steps@) == plan_upto(views, archive@, i as int),
            decreases total - i,
        {
            let ghost planned = step_views(steps@);
            proof {
                lemma_plan_step(views, archive@, i as int);
                assert(views[i as int] == entries@[i as int]@);
            }
            match extraction.step(&entries[i]) {
                Some(step) => {
                    steps.push(step);
                    assert(step_views(steps@) =~= planned.push(step@));
                },
                None => {},
            }
            i = i + 1;
        }
        steps
    }

    /// Ends the run with an error.
    fn fail(&mut self, error: UpdaterError, progress: Vec<UpdateProgress>) -> (step: UpdateStep)
        requires
            old(self).wf(),
        ensures
            final(self).wf(),
            final(self)@ == old(self)@.failed(),
            step.progress == progress,
            step.action matches UpdateAction::Finish(Err(e)) && e == error,
    {
        self.stage = Stage::Failed;
        UpdateStep { progress, action: UpdateAction::Finish(Err(error)) }
    }

    /// Takes a run one step further. The engine is told what came of the
    /// action it asked for, and answers with the progress events to hand on
    /// and the next action.
    ///
    /// * `Start`, when idle, reports `CheckingForUpdates` and asks for the
    ///   catalog; without a readable installed version or without an address
    ///   the run fails at once.
    /// * `CatalogFetched` reads the catalog, reports it whole as
    ///   `UpdatesAvailable`, keeps the patches newer than the installed
    ///   version and asks for the first of them. A reply without catalog, a
    ///   catalog without patches and a catalog without newer patches end the
    ///   run; the last two with `NoUpdatesAvailable`.
    /// * `PatchDownloaded` asks for the installation of the archive, or ends
    ///   the run with the error of the failure.
    /// * `PatchInstalled` makes the version of the patch the installed one,
    ///   and asks for the next patch or, after the last, reports `Complete`
    ///   and finishes with the new version. A failure ends the run, and the
    ///   installed version stays what it was before this patch.
    pub fn update(&mut self, event: UpdateEvent) -> (step: UpdateStep)
        requires
            old(self).wf(),
            old(self).expects(event),
        ensures
            final(self).wf(),
            old(self)@.steps_to(event, final(self)@, step),
    {
        proof {
            assert(patch_views(self.applicable@).len() == self.applicable.len());
            assert forall|i: int| 0 <= i < self.applicable@.len() implies (
            #[trigger] self.applicable@[i]).wf() by {
                assert(patch_views(self.applicable@)[i] == self.applicable@[i]@);
            }
        }
        match event {
            UpdateEvent::Start => {
                let mut progress: Vec<UpdateProgress> = Vec::new();
                progress.push(UpdateProgress::CheckingForUpdates);
                let installed = match &self.config.version {
                    None => {
                        let error = UpdaterError::VersionParseError(
                            String::from_str("No version in config"),
                        );
                        return self.fail(error, progress);
                    },
                    Some(text) => match Version::parse(text.as_str()) {
                        Ok(installed) => installed,
                        Err(error) => {
                            return self.fail(error, progress);
                        },
                    },
                };
                let url = match &self.config.update_url {
                    None => {
                        return self.fail(UpdaterError::NoUpdateUrlConfigured, progress);
                    },
                    Some(url) => url.clone(),
                };
                self.baseline = Some(installed);
                self.stage = Stage::CheckingCatalog;
                UpdateStep { progress, action: UpdateAction::FetchCatalog { url } }
            },
            UpdateEvent::CatalogFetched(reply) => {
                let catalog = match self.check_for_updates(&reply) {
                    Ok(catalog) => catalog,
                    Err(error) => {
                        return self.fail(error, Vec::new());
                    },
                };
                let applicable = match &self.baseline {
                    Some(installed) => applicable_patches(installed, &catalog),
                    None => unreached(),
                };
                let mut progress: Vec<UpdateProgress> = Vec::new();
                progress.push(UpdateProgress::UpdatesAvailable(catalog));
                if applicable.len() == 0 {
                    return self.fail(UpdaterError::NoUpdatesAvailable, progress);
                }
                let request = self.download_patch(&applicable[0]);
                proof {
                    assert forall|i: int| 0 <= i < applicable@.len() implies (
                    #[trigger] patch_views(applicable@)[i]).version.labels_valid() by {
                        assert(applicable@[i].wf());
                    }
                }
                self.applicable = applicable;
                self.applied = 0;
                self.stage = Stage::Downloading;
                UpdateStep { progress, action: UpdateAction::DownloadPatch(request) }
            },
            UpdateEvent::PatchDownloaded(outcome) => {
                match outcome {
                    Ok(_) => {
                        let file_name = patch_file_name(&self.applicable[self.applied].version);
                        self.stage = Stage::Installing;
                        UpdateStep {
                            progress: Vec::new(),
                            action: UpdateAction::InstallPatch { file_name },
                        }
                    },
                    Err(failure) => {
                        let error = failure.into_error();
                        self.fail(error, Vec::new())
                    },
                }
            },
            UpdateEvent::PatchInstalled(outcome) => {
                match outcome {
                    Ok(_) => {
                        let installed = self.applicable[self.applied].version.to_string();
                        self.config.version = Some(installed.clone());
                        self.applied = self.applied + 1;
                        if self.applied < self.applicable.len() {
                            let request = self.download_patch(&self.applicable[self.applied]);
                            self.stage = Stage::Downloading;
                            UpdateStep {
                                progress: Vec::new(),
                                action: UpdateAction::DownloadPatch(request),
                            }
                        } else {
                            self.stage = Stage::Done;
                            let mut progress: Vec<UpdateProgress> = Vec::new();
                            progress.push(UpdateProgress::Complete);
                            UpdateStep { progress, action: UpdateAction::Finish(Ok(installed)) }
                        }
                    },
                    Err(failure) => {
                        let error = failure.into_error();
                        self.fail(error, Vec::new())
                    },
                }
            },
        }
    }
}

/// No update without a newer patch: where none of the patches that the
/// catalog names is newer than the installed version, reading the catalog
/// ends the run with `NoUpdatesAvailable`, however many patches it names.
pub proof fn lemma_nothing_newer_is_no_update(
    before: UpdaterView,
    reply: CatalogReply,
    after: UpdaterView,
    step: UpdateStep,
)
    requires
        before.reads_catalog(reply, after, step),
        reply.catalog_text() matches Ok(text) && forall|i: int|
            0 <= i < catalog_entries(text).len() ==> !(#[trigger] catalog_entries(
                text,
            )[i]).version.gt(before.baseline->0),
    ensures
        before.fails_with(ErrorView::NoUpdatesAvailable, after, step),
{
    broadcast use vstd::seq_lib::group_to_multiset_ensures;

    let text = reply.catalog_text()->Ok_0;
    let entries = catalog_entries(text);
    if entries.len() > 0 {
        let catalog = step.progress[0]->UpdatesAvailable_0;
        let listed = patch_views(catalog@);
        let test = newer_than(before.baseline->0);
        assert forall|i: int| 0 <= i < listed.len() implies !test(#[trigger] listed[i]) by {
            assert(listed.contains(listed[i]));
            assert(entries.to_multiset().count(listed[i]) > 0);
            assert(entries.contains(listed[i]));
        }
        assert(listed.all(|patch: PatchInfoView| !test(patch)));
        listed.lemma_all_neg_filter_empty(test);
    }
}

/// A failed installation counts nothing: the installed version and the
/// number of installed patches are after the failure what they were before.
pub proof fn lemma_failed_installation_keeps_version(
    before: UpdaterView,
    failure: Failure,
    after: UpdaterView,
    step: UpdateStep,
)
    requires
        before.installs(Err(failure), after, step),
    ensures
        after.version == before.version,
        after.applied == before.applied,
        step.action matches UpdateAction::Finish(Err(error)) && error@ == failure.error(),
{
}

/// An archive that cannot be opened is an extraction error: whether the
/// file cannot be opened or what is in it is no archive, the run fails with
/// `ZipExtractionError`, nothing is reported, and nothing is counted as
/// installed.
pub proof fn lemma_unopened_archive_is_extraction_error(
    before: UpdaterView,
    failure: Failure,
    after: UpdaterView,
    step: UpdateStep,
)
    requires
        failure is OpenPatchFile || failure is OpenArchive,
        before.installs(Err(failure), after, step),
    ensures
        step.progress.len() == 0,
        step.action matches UpdateAction::Finish(Err(error)) && error@ is ZipExtractionError,
        after.version == before.version,
        after.applied == before.applied,
{
}

} // verus!
