//! The deployment orchestrator: the stage machine that sequences the core
//! installer and the two dependency phases, and the events it reports.

use vstd::prelude::*;
use crate::batch::{BatchScheduler, Tick, fresh, reported};
use crate::core_installer::{archive_plan, CoreStepView};
use crate::descriptor::VersionManifestJson;
use crate::mirror::MirrorRule;
use crate::error::{AppError, error_text};
use crate::event::{progress_event, stage_label_spec, DeployStage, DownloadProgressEvent, EventView};
use crate::text::{decimal, decimal_spec, join2, join3, owned};

verus! {

/// Transfers in flight at most, in either dependency phase.
pub const MAX_CONCURRENT_DOWNLOADS: u64 = 16;
/// Every library completion is reported.
pub const LIBRARY_REPORT_EVERY: u64 = 1;
/// Every this many asset completions one is reported, and the last.
pub const ASSET_REPORT_EVERY: u64 = 20;

/// The stage that follows `s` when its work ends well (`ok`) or fatally.
pub open spec fn next_stage(s: DeployStage, ok: bool) -> DeployStage {
    if !ok {
        DeployStage::Error
    } else {
        match s {
            DeployStage::Init => DeployStage::Core,
            DeployStage::Core => DeployStage::Libraries,
            DeployStage::Libraries => DeployStage::Assets,
            DeployStage::Assets => DeployStage::Done,
            DeployStage::Done => DeployStage::Done,
            DeployStage::Error => DeployStage::Error,
        }
    }
}

/// The stage that follows `s`.
pub fn advance(s: DeployStage, ok: bool) -> (r: DeployStage)
    ensures
        r == next_stage(s, ok),
{
    if !ok {
        return DeployStage::Error;
    }
    match s {
        DeployStage::Init => DeployStage::Core,
        DeployStage::Core => DeployStage::Libraries,
        DeployStage::Libraries => DeployStage::Assets,
        DeployStage::Assets => DeployStage::Done,
        DeployStage::Done => DeployStage::Done,
        DeployStage::Error => DeployStage::Error,
    }
}

/// Stages are passed strictly in the order core, libraries, assets, done;
/// a fatal error from any stage ends in the error stage, which is final.
pub proof fn lemma_stage_order()
    ensures
        next_stage(DeployStage::Init, true) == DeployStage::Core,
        next_stage(DeployStage::Core, true) == DeployStage::Libraries,
        next_stage(DeployStage::Libraries, true) == DeployStage::Assets,
        next_stage(DeployStage::Assets, true) == DeployStage::Done,
        forall|s: DeployStage| #[trigger] next_stage(s, false) == DeployStage::Error,
        forall|ok: bool| #[trigger] next_stage(DeployStage::Error, ok) == DeployStage::Error,
{
}

/// The scheduler of the library phase.
pub fn library_batch(total: u64) -> (r: BatchScheduler)
    ensures
        r@ == fresh(total as nat, MAX_CONCURRENT_DOWNLOADS as nat, LIBRARY_REPORT_EVERY as nat),
        r@.wf(),
{
    BatchScheduler::new(total, MAX_CONCURRENT_DOWNLOADS, LIBRARY_REPORT_EVERY)
}

/// The scheduler of the asset phase.
pub fn asset_batch(total: u64) -> (r: BatchScheduler)
    ensures
        r@ == fresh(total as nat, MAX_CONCURRENT_DOWNLOADS as nat, ASSET_REPORT_EVERY as nat),
        r@.wf(),
{
    BatchScheduler::new(total, MAX_CONCURRENT_DOWNLOADS, ASSET_REPORT_EVERY)
}

/// What a batch event says: `<what> (<completed>/<total>)`.
pub open spec fn batch_message(what: Seq<char>, completed: u64, total: u64) -> Seq<char> {
    what + " ("@ + decimal_spec(completed as nat) + "/"@ + decimal_spec(total as nat) + ")"@
}

/// What a batch of a stage is doing.
pub open spec fn batch_activity(stage: DeployStage) -> Seq<char> {
    match stage {
        DeployStage::Libraries => "正在下载依赖库"@,
        DeployStage::Assets => "正在下载游戏资源"@,
        _ => "正在下载"@,
    }
}

/// The event for a reported completion of a batch.
pub fn batch_event(instance_id: &str, stage: DeployStage, label: &str, tick: Tick) -> (r: DownloadProgressEvent)
    ensures
        r@ == (EventView {
            instance_id: instance_id@,
            stage: stage_label_spec(stage),
            file_name: label@,
            current: tick.completed,
            total: tick.total,
            message: batch_message(batch_activity(stage), tick.completed, tick.total),
        }),
{
    let what = match stage {
        DeployStage::Libraries => owned("正在下载依赖库"),
        DeployStage::Assets => owned("正在下载游戏资源"),
        _ => owned("正在下载"),
    };
    let mut m = join2(what.as_str(), " (");
    let c = decimal(tick.completed);
    m.append(c.as_str());
    m.append("/");
    let t = decimal(tick.total);
    m.append(t.as_str());
    m.append(")");
    progress_event(instance_id, stage, label, tick.completed, tick.total, m)
}

/// A deployment of one instance and the stage it has reached.
pub struct Deployment {
    pub instance_id: String,
    pub version_id: String,
    pub stage: DeployStage,
}

impl Deployment {
    /// A deployment that has not started.
    pub fn new(instance_id: &str, version_id: &str) -> (r: Deployment)
        ensures
            r.instance_id@ == instance_id@,
            r.version_id@ == version_id@,
            r.stage == DeployStage::Init,
    {
        Deployment { instance_id: owned(instance_id), version_id: owned(version_id), stage: DeployStage::Init }
    }

    /// The instance directories and metadata exist: the core stage starts,
    /// reported at 0 of 100.
    pub fn begin(&mut self) -> (r: DownloadProgressEvent)
        requires
            old(self).stage == DeployStage::Init,
        ensures
            final(self).stage == DeployStage::Core,
            final(self).instance_id == old(self).instance_id,
            final(self).version_id == old(self).version_id,
            r@ == (EventView {
                instance_id: old(self).instance_id@,
                stage: stage_label_spec(DeployStage::Core),
                file_name: Seq::empty(),
                current: 0,
                total: 100,
                message: "正在准备部署 Minecraft "@ + old(self).version_id@ + "..."@,
            }),
    {
        self.stage = advance(self.stage, true);
        let m = join3("正在准备部署 Minecraft ", self.version_id.as_str(), "...");
        proof {
            reveal_strlit("");
            assert(""@ =~= Seq::<char>::empty());
        }
        progress_event(self.instance_id.as_str(), DeployStage::Core, "", 0, 100, m)
    }

    /// The core installer has finished: the library phase starts.
    pub fn core_finished(&mut self)
        requires
            old(self).stage == DeployStage::Core,
        ensures
            final(self).stage == DeployStage::Libraries,
            final(self).instance_id == old(self).instance_id,
            final(self).version_id == old(self).version_id,
    {
        self.stage = advance(self.stage, true);
    }

    /// The library phase has drained: the asset phase starts.
    pub fn libraries_finished(&mut self)
        requires
            old(self).stage == DeployStage::Libraries,
        ensures
            final(self).stage == DeployStage::Assets,
            final(self).instance_id == old(self).instance_id,
            final(self).version_id == old(self).version_id,
    {
        self.stage = advance(self.stage, true);
    }

    /// The asset phase has drained: the deployment is done, reported at
    /// 100 of 100.
    pub fn assets_finished(&mut self) -> (r: DownloadProgressEvent)
        requires
            old(self).stage == DeployStage::Assets,
        ensures
            final(self).stage == DeployStage::Done,
            final(self).instance_id == old(self).instance_id,
            final(self).version_id == old(self).version_id,
            r@ == (EventView {
                instance_id: old(self).instance_id@,
                stage: stage_label_spec(DeployStage::Done),
                file_name: Seq::empty(),
                current: 100,
                total: 100,
                message: "实例创建成功！"@,
            }),
    {
        self.stage = advance(self.stage, true);
        proof {
            reveal_strlit("");
            assert(""@ =~= Seq::<char>::empty());
        }
        progress_event(self.instance_id.as_str(), DeployStage::Done, "", 100, 100, owned("实例创建成功！"))
    }

    /// A fatal error ends the deployment from whatever stage it was in; what
    /// was written stays on disk.
    pub fn fail(&mut self, err: &AppError) -> (r: DownloadProgressEvent)
        ensures
            final(self).stage == DeployStage::Error,
            final(self).instance_id == old(self).instance_id,
            final(self).version_id == old(self).version_id,
            r@ == (EventView {
                instance_id: old(self).instance_id@,
                stage: stage_label_spec(DeployStage::Error),
                file_name: Seq::empty(),
                current: 0,
                total: 100,
                message: error_text(*err),
            }),
    {
        self.stage = advance(self.stage, false);
        proof {
            reveal_strlit("");
            assert(""@ =~= Seq::<char>::empty());
        }
        progress_event(self.instance_id.as_str(), DeployStage::Error, "", 0, 100, err.message())
    }
}

/// A deployment into an empty store reports, in this order: the core
/// stage at 0 of 100, the core archive at 100 of 100 once it is fetched,
/// the last library completion at `k` of `k`, the last asset completion
/// (whatever the throttle), and done at 100 of 100.
pub proof fn lemma_fresh_deployment_report_order(
    instance_id: Seq<char>,
    version_id: Seq<char>,
    root: Seq<char>,
    d: VersionManifestJson,
    rules: Seq<MirrorRule>,
    libraries: nat,
    assets: nat,
)
    requires
        d.core_download is Some,
    ensures
        next_stage(DeployStage::Init, true) == DeployStage::Core,
        archive_plan(instance_id, version_id, root, d, rules, false) matches Ok(
            CoreStepView::Transfer { done: Some(e), .. },
        ) && e.stage == stage_label_spec(DeployStage::Core) && e.current == 100 && e.total == 100,
        next_stage(DeployStage::Core, true) == DeployStage::Libraries,
        reported(libraries, libraries, LIBRARY_REPORT_EVERY as nat),
        next_stage(DeployStage::Libraries, true) == DeployStage::Assets,
        reported(assets, assets, ASSET_REPORT_EVERY as nat),
        next_stage(DeployStage::Assets, true) == DeployStage::Done,
{
}

} // verus!
