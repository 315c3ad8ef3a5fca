use vstd::prelude::*;

verus! {

/// The step of a session's input/output at which an `IoError` arose.
#[derive(Clone, Copy, Debug, PartialEq, Eq, Structural)]
pub enum IoStage {
    /// Cloning a reader from the terminal's controlling side.
    Reader,
    /// Taking the writer of the terminal's controlling side.
    Writer,
    /// Forwarding caller input to the subprocess.
    Write,
    /// Changing the terminal's dimensions.
    Resize,
}

/// What a session operation reports to its caller.
#[derive(Clone, Debug)]
pub enum SessionError {
    /// The pseudo-terminal could not be allocated.
    AllocationFailure(String),
    /// The telnet client could not be started.
    SpawnFailure(String),
    /// The id names no registered session.
    NotFound,
    /// Reading, writing or resizing failed on a known session.
    IoError(IoStage, String),
    /// The registry's lock was poisoned.
    LockFailure,
}

/// The label that precedes the detail of an error raised at `stage`.
pub open spec fn stage_label(stage: IoStage) -> Seq<char> {
    match stage {
        IoStage::Reader => "reader: "@,
        IoStage::Writer => "writer: "@,
        IoStage::Write => "write: "@,
        IoStage::Resize => "resize: "@,
    }
}

/// The text a caller sees for `e`.
pub open spec fn error_text(e: SessionError) -> Seq<char> {
    match e {
        SessionError::AllocationFailure(d) => "openpty: "@ + d@,
        SessionError::SpawnFailure(d) => "spawn telnet: "@ + d@,
        SessionError::NotFound => "pty not found"@,
        SessionError::IoError(stage, d) => stage_label(stage) + d@,
        SessionError::LockFailure => "lock ptys"@,
    }
}

fn labelled(label: &str, detail: &String) -> (r: String)
    ensures
        r@ == label@ + detail@,
{
    let mut r = String::from_str(label);
    r.append(detail.as_str());
    r
}

impl IoStage {
    /// The label that precedes the detail of an error raised at this stage.
    pub fn label(&self) -> (r: &'static str)
        ensures
            r@ == stage_label(*self),
    {
        proof {
            reveal_strlit("reader: ");
            reveal_strlit("writer: ");
            reveal_strlit("write: ");
            reveal_strlit("resize: ");
        }
        match self {
            IoStage::Reader => "reader: ",
            IoStage::Writer => "writer: ",
            IoStage::Write => "write: ",
            IoStage::Resize => "resize: ",
        }
    }
}

impl SessionError {
    /// The descriptive message handed back to the caller.
    pub fn message(&self) -> (r: String)
        ensures
            r@ == error_text(*self),
    {
        match self {
            SessionError::AllocationFailure(d) => labelled("openpty: ", d),
            SessionError::SpawnFailure(d) => labelled("spawn telnet: ", d),
            SessionError::NotFound => String::from_str("pty not found"),
            SessionError::IoError(stage, d) => labelled(stage.label(), d),
            SessionError::LockFailure => String::from_str("lock ptys"),
        }
    }

    /// Whether this error says that the session is gone.
    pub fn is_not_found(&self) -> (r: bool)
        ensures
            r == (*self is NotFound),
    {
        match self {
            SessionError::NotFound => true,
            _ => false,
        }
    }
}

} // verus!
