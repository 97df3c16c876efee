//! Decisions of the core installer: whether the descriptor and the core
//! archive of a version must be fetched, from where, and what to report.

use vstd::prelude::*;
use crate::descriptor::VersionManifestJson;
use crate::error::AppError;
use crate::event::{progress_event, stage_label_spec, DeployStage, DownloadProgressEvent, EventView};
use crate::mirror::{apply_mirror, mirrored, MirrorRule};
use crate::resolver::{version_index_url, version_index_url_spec};
use crate::store::{core_archive_path, core_archive_path_spec, descriptor_path, descriptor_path_spec};
use crate::text::{join2, owned};

verus! {

/// What to do about the descriptor of a version.
pub enum DescriptorStep {
    /// It is on disk: nothing is fetched, completion is reported.
    Cached { event: DownloadProgressEvent },
    /// The index is fetched from `index_url`, the descriptor resolved
    /// through it and written to `dest`; `event` is reported first.
    Resolve { index_url: String, dest: String, event: DownloadProgressEvent },
}

/// What to do about the core archive of a version.
pub enum ArchiveStep {
    /// It is on disk: nothing is fetched, completion is reported.
    Cached { event: DownloadProgressEvent },
    /// It is fetched from `url` into `dest`; `start` is reported before the
    /// transfer and `done` after it.
    Fetch { url: String, dest: String, start: DownloadProgressEvent, done: DownloadProgressEvent },
}

/// A core step, abstractly.
pub enum CoreStepView {
    Cached { event: EventView },
    Transfer { url: Seq<char>, dest: Seq<char>, start: EventView, done: Option<EventView> },
}

impl View for DescriptorStep {
    type V = CoreStepView;

    open spec fn view(&self) -> CoreStepView {
        match self {
            DescriptorStep::Cached { event } => CoreStepView::Cached { event: event@ },
            DescriptorStep::Resolve { index_url, dest, event } => CoreStepView::Transfer {
                url: index_url@,
                dest: dest@,
                start: event@,
                done: None,
            },
        }
    }
}

impl View for ArchiveStep {
    type V = CoreStepView;

    open spec fn view(&self) -> CoreStepView {
        match self {
            ArchiveStep::Cached { event } => CoreStepView::Cached { event: event@ },
            ArchiveStep::Fetch { url, dest, start, done } => CoreStepView::Transfer {
                url: url@,
                dest: dest@,
                start: start@,
                done: Some(done@),
            },
        }
    }
}

/// An event of the core stage.
pub open spec fn core_event(instance_id: Seq<char>, file: Seq<char>, current: u64, message: Seq<char>) -> EventView {
    EventView {
        instance_id,
        stage: stage_label_spec(DeployStage::Core),
        file_name: file,
        current,
        total: 100,
        message,
    }
}

/// An event of the core stage.
fn core_progress(instance_id: &str, file: &str, current: u64, message: String) -> (r: DownloadProgressEvent)
    ensures
        r@ == core_event(instance_id@, file@, current, message@),
{
    progress_event(instance_id, DeployStage::Core, file, current, 100, message)
}

/// The descriptor step of a version, given whether its descriptor is on
/// disk.
pub open spec fn descriptor_plan(
    instance_id: Seq<char>,
    version_id: Seq<char>,
    root: Seq<char>,
    present: bool,
    rules: Seq<MirrorRule>,
) -> CoreStepView {
    let file = version_id + ".json"@;
    if present {
        CoreStepView::Cached {
            event: core_event(instance_id, file, 100, "版本清单已存在，跳过下载"@),
        }
    } else {
        CoreStepView::Transfer {
            url: mirrored(version_index_url_spec(), rules),
            dest: descriptor_path_spec(root, version_id),
            start: core_event(instance_id, file, 10, "正在获取版本清单..."@),
            done: None,
        }
    }
}

/// The archive step of a version, given its descriptor and whether its
/// archive is on disk. A missing archive needs the descriptor's URL.
pub open spec fn archive_plan(
    instance_id: Seq<char>,
    version_id: Seq<char>,
    root: Seq<char>,
    d: VersionManifestJson,
    rules: Seq<MirrorRule>,
    present: bool,
) -> Result<CoreStepView, AppError> {
    let file = version_id + ".jar"@;
    if present {
        Ok(CoreStepView::Cached {
            event: core_event(instance_id, file, 100, "核心文件已存在，跳过下载"@),
        })
    } else {
        match d.core_download {
            None => Err(AppError::MissingCoreUrl),
            Some(c) => Ok(CoreStepView::Transfer {
                url: mirrored(c.url@, rules),
                dest: core_archive_path_spec(root, version_id),
                start: core_event(instance_id, file, 50, "正在下载游戏核心..."@),
                done: Some(core_event(instance_id, file, 100, "游戏核心下载完成"@)),
            }),
        }
    }
}

/// Decides the descriptor step of a version.
pub fn descriptor_step(
    instance_id: &str,
    version_id: &str,
    root: &str,
    present: bool,
    rules: &Vec<MirrorRule>,
) -> (r: DescriptorStep)
    ensures
        r@ == descriptor_plan(instance_id@, version_id@, root@, present, rules@),
{
    let file = join2(version_id, ".json");
    if present {
        DescriptorStep::Cached {
            event: core_progress(
                instance_id,
                file.as_str(),
                100,
                owned("版本清单已存在，跳过下载"),
            ),
        }
    } else {
        DescriptorStep::Resolve {
            index_url: version_index_url(rules),
            dest: descriptor_path(root, version_id),
            event: core_progress(
                instance_id,
                file.as_str(),
                10,
                owned("正在获取版本清单..."),
            ),
        }
    }
}

/// Decides the archive step of a version.
pub fn archive_step(
    instance_id: &str,
    version_id: &str,
    root: &str,
    d: &VersionManifestJson,
    rules: &Vec<MirrorRule>,
    present: bool,
) -> (r: Result<ArchiveStep, AppError>)
    ensures
        archive_plan(instance_id@, version_id@, root@, *d, rules@, present) matches Ok(p) ==> (r matches Ok(s)
            && s@ == p),
        archive_plan(instance_id@, version_id@, root@, *d, rules@, present) matches Err(e) ==> (r matches Err(
            f,
        ) && f is MissingCoreUrl && e is MissingCoreUrl),
{
    let file = join2(version_id, ".jar");
    if present {
        return Ok(
            ArchiveStep::Cached {
                event: core_progress(
                    instance_id,
                    file.as_str(),
                    100,
                    owned("核心文件已存在，跳过下载"),
                ),
            },
        );
    }
    match &d.core_download {
        None => Err(AppError::MissingCoreUrl),
        Some(c) => Ok(
            ArchiveStep::Fetch {
                url: apply_mirror(c.url.as_str(), rules),
                dest: core_archive_path(root, version_id),
                start: core_progress(
                    instance_id,
                    file.as_str(),
                    50,
                    owned("正在下载游戏核心..."),
                ),
                done: core_progress(
                    instance_id,
                    file.as_str(),
                    100,
                    owned("游戏核心下载完成"),
                ),
            },
        ),
    }
}

/// Installing the core of a version whose descriptor and archive are both
/// on disk transfers nothing and reports completion at 100 of 100.
pub proof fn lemma_populated_version_transfers_nothing(
    instance_id: Seq<char>,
    version_id: Seq<char>,
    root: Seq<char>,
    d: VersionManifestJson,
    rules: Seq<MirrorRule>,
)
    ensures
        descriptor_plan(instance_id, version_id, root, true, rules) matches CoreStepView::Cached { event }
            && event.current == 100 && event.total == 100,
        archive_plan(instance_id, version_id, root, d, rules, true) matches Ok(
            CoreStepView::Cached { event },
        ) && event.current == 100 && event.total == 100,
{
}

} // verus!
