//! How a stream of answers goes on and ends.
use vstd::prelude::*;
use vstd::string::*;

use crate::http_replies::{error_body, frame_of, sse_error_frame};
use crate::json_text::displayed;
use crate::text::texts;

verus! {

/// The frame of a failure.
pub open spec fn failure_frame(message: Seq<char>) -> Seq<char> {
    frame_of(displayed(error_body(message)))
}

/// What is to be sent for one answer.
#[derive(Debug)]
pub struct StreamStep {
    pub frames: Vec<String>,
    /// Whether more answers are wanted once the frames have been sent.
    pub goes_on: bool,
}

/// A stream of answers, as long as it is open.
#[derive(Clone, Copy, Debug)]
pub struct StreamSession {
    connected: bool,
}

/// Whether a stream is still connected after its answers, each of which was delivered or not.
pub open spec fn still_connected(delivered: Seq<bool>) -> bool
    decreases delivered.len(),
{
    delivered.len() == 0 || (still_connected(delivered.drop_last()) && delivered.last())
}

/// A stream counts as served only where every one of its answers was delivered.
pub proof fn served_streams_are_whole(delivered: Seq<bool>)
    ensures
        still_connected(delivered) <==> forall|i: int| 0 <= i < delivered.len() ==> delivered[i],
    decreases delivered.len(),
{
    if delivered.len() > 0 {
        let before = delivered.drop_last();
        served_streams_are_whole(before);
        assert(forall|i: int| 0 <= i < before.len() ==> before[i] == delivered[i]);
        if still_connected(delivered) {
            assert forall|i: int| 0 <= i < delivered.len() implies delivered[i] by {
                if i < before.len() {
                    assert(before[i]);
                }
            }
        }
    }
}

impl StreamSession {
    /// Whether everything could be delivered so far.
    pub closed spec fn is_connected(self) -> bool {
        self.connected
    }

    /// A stream of which nothing has been sent.
    pub fn new() -> (session: Self)
        ensures
            session.is_connected() == still_connected(Seq::empty()),
    {
        StreamSession { connected: true }
    }

    /// What is sent for an answer: its frames, or the failure to encode it, after which no more
    /// answers are wanted.
    pub fn step(encoded: Result<Vec<String>, String>) -> (step: StreamStep)
        ensures
            match encoded {
                Ok(frames) => step.frames == frames && step.goes_on,
                Err(message) => texts(step.frames@) == seq![failure_frame(message@)]
                    && !step.goes_on,
            },
    {
        match encoded {
            Ok(frames) => StreamStep { frames, goes_on: true },
            Err(message) => {
                let mut frames: Vec<String> = Vec::new();
                frames.push(sse_error_frame(message.as_str()));
                proof {
                    assert(texts(frames@) =~= seq![failure_frame(message@)]);
                }
                StreamStep { frames, goes_on: false }
            },
        }
    }

    /// Takes whether all frames of an answer could be sent, and tells whether more are wanted.
    pub fn delivered(&mut self, goes_on: bool, all_sent: bool) -> (wanted: bool)
        ensures
            wanted == (goes_on && all_sent),
            final(self).is_connected() == (old(self).is_connected() && wanted),
            forall|before: Seq<bool>|
                old(self).is_connected() == still_connected(before) ==> final(self).is_connected()
                    == still_connected(#[trigger] before.push(wanted)),
    {
        let wanted = goes_on && all_sent;
        self.connected = self.connected && wanted;
        proof {
            assert forall|before: Seq<bool>|
                old(self).is_connected() == still_connected(before) implies self.is_connected()
                == still_connected(#[trigger] before.push(wanted)) by {
                assert(before.push(wanted).drop_last() =~= before);
            }
        }
        wanted
    }

    /// What is sent in the end: the failure of the request, where it failed, and the mark of the
    /// end.
    pub fn closing(failure: Option<&str>) -> (frames: Vec<String>)
        ensures
            texts(frames@) == (match failure {
                Some(message) => seq![failure_frame(message@), "data: [DONE]\n\n"@],
                None => seq!["data: [DONE]\n\n"@],
            }),
    {
        let mut frames: Vec<String> = Vec::new();
        if let Some(message) = failure {
            frames.push(sse_error_frame(message));
        }
        frames.push("data: [DONE]\n\n".to_owned());
        proof {
            match failure {
                Some(message) => {
                    assert(texts(frames@) =~= seq![
                        failure_frame(message@),
                        "data: [DONE]\n\n"@,
                    ]);
                },
                None => {
                    assert(texts(frames@) =~= seq!["data: [DONE]\n\n"@]);
                },
            }
        }
        frames
    }

    /// Whether the stream counts as served.
    pub fn is_served(&self, failed: bool) -> (served: bool)
        ensures
            served == (!failed && self.is_connected()),
    {
        !failed && self.connected
    }
}

} // verus!
