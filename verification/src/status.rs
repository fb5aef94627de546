use vstd::prelude::*;

verus! {

/// What the application is doing, as shown to the user.
#[derive(Clone, Copy, Debug, PartialEq, Eq, Structural)]
pub enum Status {
    Idle,
    Recording,
    Transcribing,
}

/// The wire name of each status.
pub open spec fn status_name(s: Status) -> Seq<char> {
    match s {
        Status::Idle => "idle"@,
        Status::Recording => "recording"@,
        Status::Transcribing => "transcribing"@,
    }
}

impl Status {
    /// The name under which the status is announced to the user interface.
    pub fn as_str(&self) -> (r: &'static str)
        ensures
            r@ == status_name(*self),
    {
        match self {
            Status::Idle => "idle",
            Status::Recording => "recording",
            Status::Transcribing => "transcribing",
        }
    }
}

/// Different statuses are announced under different names.
pub proof fn lemma_status_names_distinct(a: Status, b: Status)
    requires
        a != b,
    ensures
        status_name(a) != status_name(b),
{
    reveal_strlit("idle");
    reveal_strlit("recording");
    reveal_strlit("transcribing");
    assert(status_name(a).len() != status_name(b).len() || status_name(a)[0] != status_name(b)[0]);
}

} // verus!
