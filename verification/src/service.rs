//! The service of Windows: how it is registered, stopped and taken away.

use vstd::prelude::*;

verus! {

pub const SERVICE_NAME: &'static str = "MHMonitor";

pub const DISPLAY_NAME: &'static str = "MH Monitor";

pub const DESCRIPTION: &'static str = "Захват кадров (ETW, PresentMon) и датчиков для оверлея MH Monitor без прав администратора.";

/// What the system asks of a running service.
#[derive(Debug, Clone, Copy, PartialEq, Eq, Structural)]
pub enum Control {
    Stop,
    Shutdown,
    Interrogate,
    Other,
}

/// How the service answers.
#[derive(Debug, Clone, Copy, PartialEq, Eq, Structural)]
pub struct ControlAnswer {
    /// The server has to stop.
    pub stop: bool,
    /// The request is one that the service knows.
    pub known: bool,
}

pub fn on_control(control: Control) -> (r: ControlAnswer)
    ensures
        r.stop == (control is Stop || control is Shutdown),
        r.known == !(control is Other),
{
    match control {
        Control::Stop | Control::Shutdown => ControlAnswer { stop: true, known: true },
        Control::Interrogate => ControlAnswer { stop: false, known: true },
        Control::Other => ControlAnswer { stop: false, known: false },
    }
}

/// The code with which the service ends: zero where its server ended well, else the system's own
/// code of the error, or one where it has none.
pub fn exit_code(failed: bool, system_code: Option<i32>) -> (r: u32)
    ensures
        r == (if !failed {
            0u32
        } else {
            match system_code {
                Some(code) => code as u32,
                None => 1,
            }
        }),
{
    if !failed {
        return 0;
    }
    match system_code {
        Some(code) => code as u32,
        None => 1,
    }
}

/// How the service is registered.
#[derive(Debug, PartialEq)]
pub struct Registration {
    pub name: String,
    pub display_name: String,
    pub executable: String,
    pub launch_argument: String,
    pub auto_start: bool,
}

/// The service runs the program that registers it, from the start of the system.
pub fn registration(executable: &str) -> (r: Registration)
    ensures
        r.name@ == SERVICE_NAME@,
        r.display_name@ == DISPLAY_NAME@,
        r.executable@ == executable@,
        r.launch_argument@ == "--service"@,
        r.auto_start,
{
    Registration {
        name: SERVICE_NAME.to_string(),
        display_name: DISPLAY_NAME.to_string(),
        executable: executable.to_string(),
        launch_argument: "--service".to_string(),
        auto_start: true,
    }
}

/// How often a service that stops is asked whether it has.
pub const STOP_POLLS: u32 = 50;

/// Where the removal of a service stands.
#[derive(Debug, Clone, Copy, PartialEq, Eq, Structural)]
pub enum StopStage {
    Begin,
    /// It was told to stop and asked so many times.
    Waiting(u32),
}

#[derive(Debug, Clone, Copy, PartialEq, Eq, Structural)]
pub enum StopAction {
    /// Tell it to stop, then ask.
    Stop,
    /// Sleep a little, then ask again.
    Sleep,
    /// Sleep a little, then delete it all the same.
    SleepAndDelete,
    Delete,
}

/// What follows an answer: a stopped service is deleted, and so is one that does not stop in
/// time.
pub open spec fn stop_next(stage: StopStage, stopped: bool) -> (StopStage, StopAction) {
    match stage {
        StopStage::Begin => if stopped {
            (stage, StopAction::Delete)
        } else {
            (StopStage::Waiting(0), StopAction::Stop)
        },
        StopStage::Waiting(polls) => if stopped {
            (stage, StopAction::Delete)
        } else if polls + 1 >= STOP_POLLS {
            (stage, StopAction::SleepAndDelete)
        } else {
            (StopStage::Waiting((polls + 1) as u32), StopAction::Sleep)
        },
    }
}

pub fn stop_and_delete(stage: StopStage, stopped: bool) -> (r: (StopStage, StopAction))
    ensures
        r == stop_next(stage, stopped),
{
    match stage {
        StopStage::Begin => if stopped {
            (stage, StopAction::Delete)
        } else {
            (StopStage::Waiting(0), StopAction::Stop)
        },
        StopStage::Waiting(polls) => if stopped {
            (stage, StopAction::Delete)
        } else if polls >= STOP_POLLS - 1 {
            (stage, StopAction::SleepAndDelete)
        } else {
            (StopStage::Waiting(polls + 1), StopAction::Sleep)
        },
    }
}

/// How many more times a stage can ask.
pub open spec fn polls_left(stage: StopStage) -> nat {
    match stage {
        StopStage::Begin => (STOP_POLLS + 1) as nat,
        StopStage::Waiting(polls) => if polls < STOP_POLLS {
            (STOP_POLLS - polls) as nat
        } else {
            0
        },
    }
}

/// The waiting ends: each answer leads to the deletion or to fewer questions.
pub proof fn law_waiting_ends(stage: StopStage, stopped: bool)
    ensures
        stop_next(stage, stopped).1 is Delete || stop_next(stage, stopped).1 is SleepAndDelete
            || polls_left(stop_next(stage, stopped).0)
            < polls_left(stage),
        stopped ==> stop_next(stage, stopped).1 is Delete,
{
}

/// The service stops when the system tells it to and when the system ends, and knows every request
/// of these.
pub proof fn law_service_stops_when_told(control: Control, r: ControlAnswer)
    requires
        call_ensures(on_control, (control,), r),
    ensures
        r.stop <==> control is Stop || control is Shutdown,
        r.stop ==> r.known,
        control is Interrogate ==> r.known,
        control is Other ==> !r.known,
{
}

/// A service that ends well ends with zero, and one that failed with something else, as long as the
/// system's own code is something else.
pub proof fn law_failures_have_a_code(failed: bool, code: Option<i32>, r: u32)
    requires
        call_ensures(exit_code, (failed, code), r),
    ensures
        !failed ==> r == 0,
        failed && code is None ==> r == 1,
        failed && code is Some && code->0 >= 0 ==> r == code->0,
{
}

} // verus!
