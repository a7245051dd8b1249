use vstd::prelude::*;

verus! {

broadcast use vstd::string::group_string_axioms;

/// Where the engine is in bringing a brain up.
#[derive(Clone, Copy, PartialEq, Eq, Debug, Structural)]
pub enum Phase {
    Idle,
    Downloading,
    Loading,
    Ready,
    Error,
}

/// What the engine reports to the UI. Progress is kept as the ratio
/// `progress_done / progress_total` (the UI shows it as a fraction).
pub struct Status {
    pub phase: Phase,
    pub model_ready: bool,
    pub model_name: String,
    pub progress_done: u64,
    pub progress_total: u64,
    pub downloaded_bytes: u64,
    pub total_bytes: u64,
    pub message: String,
    pub error: Option<String>,
}

impl Phase {
    /// Loading has come to an end, one way or the other.
    pub fn is_settled(&self) -> (r: bool)
        ensures
            r == (*self == Phase::Ready || *self == Phase::Error),
    {
        match self {
            Phase::Ready | Phase::Error => true,
            _ => false,
        }
    }
}

impl Status {
    /// What every reported status satisfies: the ready flag mirrors the phase,
    /// the progress ratio has a positive denominator, a ready engine carries no
    /// error and complete progress, and a failed one always carries an error.
    pub open spec fn wf(&self) -> bool {
        &&& self.model_ready == (self.phase == Phase::Ready)
        &&& self.progress_total > 0
        &&& self.phase == Phase::Ready ==> self.error is None
        &&& self.phase == Phase::Ready ==> self.progress_done == self.progress_total
        &&& self.phase == Phase::Error ==> self.error is Some
    }

    /// Nothing loaded yet.
    pub fn idle() -> (r: Status)
        ensures
            r.wf(),
            r.phase == Phase::Idle,
            !r.model_ready,
            r.model_name@ == Seq::<char>::empty(),
            r.progress_done == 0,
            r.downloaded_bytes == 0,
            r.total_bytes == 0,
            r.message@ == "No brain loaded"@,
            r.error is None,
    {
        Status {
            phase: Phase::Idle,
            model_ready: false,
            model_name: String::new(),
            progress_done: 0,
            progress_total: 1,
            downloaded_bytes: 0,
            total_bytes: 0,
            message: String::from_str("No brain loaded"),
            error: None,
        }
    }

    /// A driver-originated error status (e.g. load could not be started).
    pub fn error(message: String) -> (r: Status)
        ensures
            r.wf(),
            r.phase == Phase::Error,
            !r.model_ready,
            r.model_name@ == Seq::<char>::empty(),
            r.progress_done == 0,
            r.downloaded_bytes == 0,
            r.total_bytes == 0,
            r.message@ == message@,
            r.error.deep_view() == Some(message@),
    {
        let copy = message.clone();
        Status {
            phase: Phase::Error,
            model_ready: false,
            model_name: String::new(),
            progress_done: 0,
            progress_total: 1,
            downloaded_bytes: 0,
            total_bytes: 0,
            message: copy,
            error: Some(message),
        }
    }

    /// Loading failed: report `message`, with `error` as the detail.
    pub fn fail(&mut self, message: &str, error: String)
        requires
            old(self).wf(),
        ensures
            final(self).wf(),
            final(self).phase == Phase::Error,
            final(self).message@ == message@,
            final(self).error.deep_view() == Some(error@),
            final(self).model_name == old(self).model_name,
            final(self).progress_done == old(self).progress_done,
            final(self).progress_total == old(self).progress_total,
            final(self).downloaded_bytes == old(self).downloaded_bytes,
            final(self).total_bytes == old(self).total_bytes,
    {
        self.phase = Phase::Error;
        self.message = String::from_str(message);
        self.error = Some(error);
        self.model_ready = false;
    }

    /// Bringing a brain up failed at `failure`'s step: report that step's
    /// message with the failure's detail.
    pub fn record_failure(&mut self, failure: LoadFailure)
        requires
            old(self).wf(),
        ensures
            final(self).wf(),
            final(self).phase == Phase::Error,
            final(self).message@ == failure_message(failure),
            final(self).error.deep_view() == Some(failure_detail(failure)),
            final(self).model_name == old(self).model_name,
            final(self).progress_done == old(self).progress_done,
            final(self).progress_total == old(self).progress_total,
            final(self).downloaded_bytes == old(self).downloaded_bytes,
            final(self).total_bytes == old(self).total_bytes,
    {
        match failure {
            LoadFailure::BackendInit(e) => self.fail("Backend init failed", e),
            LoadFailure::LoadBrain(e) => self.fail("Failed to load brain", e),
            LoadFailure::ProjectorInit(e) => self.fail("Vision projector init failed", e),
            LoadFailure::NoVision => self.fail(
                "Brain has no vision",
                String::from_str("mmproj projector reports no vision support"),
            ),
            LoadFailure::ContextInit(e) => self.fail("Context init failed", e),
        }
    }

    /// The requested brain is not in the catalog.
    pub fn unknown_brain(&mut self, brain_id: &str)
        requires
            old(self).wf(),
        ensures
            final(self).wf(),
            final(self).phase == Phase::Error,
            final(self).message@ == "Unknown brain"@,
            final(self).error.deep_view() == Some("no brain '"@ + brain_id@ + "'"@),
            final(self).model_name == old(self).model_name,
            final(self).progress_done == old(self).progress_done,
            final(self).progress_total == old(self).progress_total,
            final(self).downloaded_bytes == old(self).downloaded_bytes,
            final(self).total_bytes == old(self).total_bytes,
    {
        let mut detail = String::from_str("no brain '");
        detail.append(brain_id);
        detail.append("'");
        self.fail("Unknown brain", detail);
    }

    /// A download of `file` (expected to be `size_bytes` long) has begun.
    pub fn begin_download(&mut self, label: &str, file: &str, size_bytes: u64)
        requires
            old(self).wf(),
        ensures
            final(self).wf(),
            final(self).phase == Phase::Downloading,
            final(self).model_name@ == label@,
            final(self).message@ == "Downloading "@ + file@ + "…"@,
            final(self).progress_done == 0,
            final(self).downloaded_bytes == 0,
            final(self).total_bytes == size_bytes,
            final(self).error == old(self).error,
    {
        self.phase = Phase::Downloading;
        self.model_name = String::from_str(label);
        let mut msg = String::from_str("Downloading ");
        msg.append(file);
        msg.append("…");
        self.message = msg;
        self.progress_done = 0;
        self.progress_total = 1;
        self.downloaded_bytes = 0;
        self.total_bytes = size_bytes;
        self.model_ready = false;
    }

    /// `downloaded` of `total` bytes of the current download have arrived;
    /// with no known total the progress stays at zero.
    pub fn record_progress(&mut self, downloaded: u64, total: u64)
        requires
            old(self).wf(),
            old(self).phase == Phase::Downloading,
        ensures
            final(self).wf(),
            final(self).phase == old(self).phase,
            final(self).downloaded_bytes == downloaded,
            final(self).total_bytes == total,
            total > 0 ==> final(self).progress_done == downloaded && final(self).progress_total
                == total,
            total == 0 ==> final(self).progress_done == 0,
            final(self).model_name == old(self).model_name,
            final(self).message == old(self).message,
            final(self).error == old(self).error,
    {
        self.downloaded_bytes = downloaded;
        self.total_bytes = total;
        if total > 0 {
            self.progress_done = downloaded;
            self.progress_total = total;
        } else {
            self.progress_done = 0;
            self.progress_total = 1;
        }
    }

    /// Both files are present; the model is being loaded.
    pub fn begin_loading(&mut self, label: &str)
        requires
            old(self).wf(),
        ensures
            final(self).wf(),
            final(self).phase == Phase::Loading,
            final(self).model_name@ == label@,
            final(self).message@ == "Spinning up the cortex…"@,
            final(self).progress_done == final(self).progress_total,
            final(self).downloaded_bytes == old(self).downloaded_bytes,
            final(self).total_bytes == old(self).total_bytes,
            final(self).error == old(self).error,
    {
        self.phase = Phase::Loading;
        self.model_name = String::from_str(label);
        self.message = String::from_str("Spinning up the cortex…");
        self.progress_done = 1;
        self.progress_total = 1;
        self.model_ready = false;
    }

    /// The brain labelled `label` is loaded and serving.
    pub fn mark_ready(&mut self, label: &str)
        requires
            old(self).wf(),
        ensures
            final(self).wf(),
            final(self).phase == Phase::Ready,
            final(self).model_ready,
            final(self).message@ == label@ + " ready"@,
            final(self).progress_done == final(self).progress_total,
            final(self).error is None,
            final(self).model_name == old(self).model_name,
            final(self).downloaded_bytes == old(self).downloaded_bytes,
            final(self).total_bytes == old(self).total_bytes,
    {
        self.phase = Phase::Ready;
        let mut msg = String::from_str(label);
        msg.append(" ready");
        self.message = msg;
        self.progress_done = 1;
        self.progress_total = 1;
        self.error = None;
        self.model_ready = true;
    }
}

// ---------------------------------------------------------------------------
// Load failures
// ---------------------------------------------------------------------------

/// The step at which bringing a brain up failed, with the error's text.
pub enum LoadFailure {
    /// The llama.cpp backend did not start.
    BackendInit(String),
    /// Downloading or loading the text model failed.
    LoadBrain(String),
    /// The vision projector did not start.
    ProjectorInit(String),
    /// The projector reports that it cannot see.
    NoVision,
    /// The inference context could not be built.
    ContextInit(String),
}

/// The status message reported for a failed step.
pub open spec fn failure_message(f: LoadFailure) -> Seq<char> {
    match f {
        LoadFailure::BackendInit(_) => "Backend init failed"@,
        LoadFailure::LoadBrain(_) => "Failed to load brain"@,
        LoadFailure::ProjectorInit(_) => "Vision projector init failed"@,
        LoadFailure::NoVision => "Brain has no vision"@,
        LoadFailure::ContextInit(_) => "Context init failed"@,
    }
}

/// The error detail reported for a failed step.
pub open spec fn failure_detail(f: LoadFailure) -> Seq<char> {
    match f {
        LoadFailure::BackendInit(e) => e@,
        LoadFailure::LoadBrain(e) => e@,
        LoadFailure::ProjectorInit(e) => e@,
        LoadFailure::NoVision => "mmproj projector reports no vision support"@,
        LoadFailure::ContextInit(e) => e@,
    }
}

// ---------------------------------------------------------------------------
// The worker's protocol
// ---------------------------------------------------------------------------

/// A request that reaches the worker.
#[derive(Clone, Copy, PartialEq, Eq, Debug, Structural)]
pub enum Request {
    Load,
    Generate,
}

/// What the worker does with a request.
#[derive(Clone, Copy, PartialEq, Eq, Debug, Structural)]
pub enum Dispatch {
    /// Load the requested brain.
    StartLoad,
    /// Answer the generation request with `no brain loaded`.
    Refuse,
    /// Run the generation turn.
    Generate,
    /// Drop the loaded brain and load the requested one.
    Reload,
    /// The channel is closed: the worker ends.
    Stop,
}

/// The worker's decision for the next request (`None` once the channel has
/// closed), given whether a brain is loaded and serving.
pub fn dispatch(serving: bool, request: Option<Request>) -> (r: Dispatch)
    ensures
        r == (match request {
            None => Dispatch::Stop,
            Some(Request::Load) => if serving {
                Dispatch::Reload
            } else {
                Dispatch::StartLoad
            },
            Some(Request::Generate) => if serving {
                Dispatch::Generate
            } else {
                Dispatch::Refuse
            },
        }),
{
    match request {
        None => Dispatch::Stop,
        Some(Request::Load) => if serving {
            Dispatch::Reload
        } else {
            Dispatch::StartLoad
        },
        Some(Request::Generate) => if serving {
            Dispatch::Generate
        } else {
            Dispatch::Refuse
        },
    }
}

/// The answer to a generation request that arrives before any brain is loaded.
pub fn no_brain_reply() -> (r: String)
    ensures
        r@ == "no brain loaded"@,
{
    String::from_str("no brain loaded")
}

} // verus!
