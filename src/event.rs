//! Progress notifications sent to the observer.

use vstd::prelude::*;
use crate::text::owned;

verus! {

/// One progress notification of a deployment.
pub struct DownloadProgressEvent {
    pub instance_id: String,
    pub stage: String,
    pub file_name: String,
    pub current: u64,
    pub total: u64,
    pub message: String,
}

/// What an event says, as character sequences.
pub struct EventView {
    pub instance_id: Seq<char>,
    pub stage: Seq<char>,
    pub file_name: Seq<char>,
    pub current: u64,
    pub total: u64,
    pub message: Seq<char>,
}

impl View for DownloadProgressEvent {
    type V = EventView;

    open spec fn view(&self) -> EventView {
        EventView {
            instance_id: self.instance_id@,
            stage: self.stage@,
            file_name: self.file_name@,
            current: self.current,
            total: self.total,
            message: self.message@,
        }
    }
}

/// Stages of a deployment.
#[derive(Clone, Copy, PartialEq, Eq, Structural)]
pub enum DeployStage {
    Init,
    Core,
    Libraries,
    Assets,
    Done,
    Error,
}

/// The name under which the observer knows a stage.
pub open spec fn stage_label_spec(s: DeployStage) -> Seq<char> {
    match s {
        DeployStage::Init => "INIT"@,
        DeployStage::Core => "VANILLA_CORE"@,
        DeployStage::Libraries => "LIBRARIES"@,
        DeployStage::Assets => "ASSETS"@,
        DeployStage::Done => "DONE"@,
        DeployStage::Error => "ERROR"@,
    }
}

/// The name under which the observer knows a stage.
pub fn stage_label(s: DeployStage) -> (r: String)
    ensures
        r@ == stage_label_spec(s),
{
    match s {
        DeployStage::Init => owned("INIT"),
        DeployStage::Core => owned("VANILLA_CORE"),
        DeployStage::Libraries => owned("LIBRARIES"),
        DeployStage::Assets => owned("ASSETS"),
        DeployStage::Done => owned("DONE"),
        DeployStage::Error => owned("ERROR"),
    }
}

/// An event of `stage` at `current` of `total`.
pub fn progress_event(
    instance_id: &str,
    stage: DeployStage,
    file_name: &str,
    current: u64,
    total: u64,
    message: String,
) -> (r: DownloadProgressEvent)
    ensures
        r@ == (EventView {
            instance_id: instance_id@,
            stage: stage_label_spec(stage),
            file_name: file_name@,
            current,
            total,
            message: message@,
        }),
{
    DownloadProgressEvent {
        instance_id: owned(instance_id),
        stage: stage_label(stage),
        file_name: owned(file_name),
        current,
        total,
        message,
    }
}

} // verus!
