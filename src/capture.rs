//! The decisions of a capture session: which interfaces to open, and what
//! the read loop does with each thing that a read hands back.

use crate::error::SonarError;
use crate::fingerprint::{spec_fingerprint, PacketInfos};
use crate::interfaces::ALL_INTERFACES;
use crate::table::{saturated, FrequencyTable};
use vstd::prelude::*;

verus! {

/// What a capture session reads from.
#[derive(Clone, Debug)]
pub enum CaptureTarget {
    SingleInterface(String),
    AllInterfaces,
}

/// `name` is one of `available`.
pub open spec fn offered(name: Seq<char>, available: Seq<String>) -> bool {
    exists|i: int| 0 <= i < available.len() && (#[trigger] available[i])@ == name
}

/// Checks a requested interface name against the enumerated ones. "all"
/// selects every interface; any other name must be offered; an unknown name
/// is a configuration error, raised before any capture is attempted.
pub fn select_target(name: &String, available: &Vec<String>) -> (r: Result<
    CaptureTarget,
    SonarError,
>)
    ensures
        name@ == ALL_INTERFACES@ ==> r matches Ok(CaptureTarget::AllInterfaces),
        name@ != ALL_INTERFACES@ && offered(name@, available@) ==> match r {
            Ok(CaptureTarget::SingleInterface(n)) => n@ == name@,
            _ => false,
        },
        name@ != ALL_INTERFACES@ && !offered(name@, available@) ==> r == Err::<
            CaptureTarget,
            SonarError,
        >(SonarError::ConfigurationError),
{
    let all = String::from_str(ALL_INTERFACES);
    if *name == all {
        return Ok(CaptureTarget::AllInterfaces);
    }
    let mut i: usize = 0;
    while i < available.len()
        invariant
            i <= available@.len(),
            name@ != ALL_INTERFACES@,
            forall|j: int| 0 <= j < i ==> (#[trigger] available@[j])@ != name@,
        decreases available@.len() - i,
    {
        if available[i] == *name {
            return Ok(CaptureTarget::SingleInterface(name.clone()));
        }
        i = i + 1;
    }
    Err(SonarError::ConfigurationError)
}

/// The real interfaces among `available`, in order: every name but "all".
pub open spec fn real_interfaces(available: Seq<String>) -> Seq<Seq<char>>
    decreases available.len(),
{
    if available.len() == 0 {
        Seq::empty()
    } else {
        let rest = real_interfaces(available.drop_last());
        if available.last()@ == ALL_INTERFACES@ {
            rest
        } else {
            rest.push(available.last()@)
        }
    }
}

/// The names of the interfaces to open a capture handle on: the one named,
/// or, for "all", every enumerated interface but the pseudo-interface.
pub fn interfaces_to_open(target: &CaptureTarget, available: &Vec<String>) -> (r: Vec<String>)
    ensures
        match target {
            CaptureTarget::SingleInterface(n) => r@.len() == 1 && r@[0]@ == n@,
            CaptureTarget::AllInterfaces => r@.map_values(|s: String| s@) == real_interfaces(
                available@,
            ),
        },
{
    match target {
        CaptureTarget::SingleInterface(n) => {
            let mut r: Vec<String> = Vec::new();
            r.push(n.clone());
            r
        },
        CaptureTarget::AllInterfaces => {
            let all = String::from_str(ALL_INTERFACES);
            let mut r: Vec<String> = Vec::new();
            let mut i: usize = 0;
            while i < available.len()
                invariant
                    i <= available@.len(),
                    all@ == ALL_INTERFACES@,
                    r@.map_values(|s: String| s@) == real_interfaces(
                        available@.subrange(0, i as int),
                    ),
                decreases available@.len() - i,
            {
                let ghost prefix = available@.subrange(0, i as int + 1);
                assert(prefix.drop_last() == available@.subrange(0, i as int));
                if available[i] != all {
                    r.push(available[i].clone());
                }
                assert(r@.map_values(|s: String| s@) == real_interfaces(prefix));
                i = i + 1;
            }
            assert(available@.subrange(0, available@.len() as int) == available@);
            r
        },
    }
}

/// What one read of the capture loop handed back, or that a stop was asked for.
#[derive(Clone, Debug)]
pub enum CaptureEvent {
    /// A frame was read.
    Frame(Vec<u8>),
    /// The read timed out with no traffic: a chance to look for cancellation.
    ReadTimedOut,
    /// A single read failed; transient.
    ReadFailed,
    /// The interface went away.
    InterfaceLost,
    /// The cancellation signal is set.
    CancelRequested,
}

/// Why a capture loop ended.
#[derive(Clone, Copy, Debug, PartialEq, Eq, Structural)]
pub enum StopReason {
    Cancelled,
    InterfaceLost,
}

/// What the capture loop does next.
#[derive(Clone, Copy, Debug, PartialEq, Eq, Structural)]
pub enum CaptureAction {
    KeepReading,
    Stop(StopReason),
}

/// The loop's decision on `event`: cancellation and the loss of the
/// interface end it, each with its own reason; everything else, transient
/// failures included, lets it read on.
pub open spec fn spec_next_action(event: CaptureEvent) -> CaptureAction {
    match event {
        CaptureEvent::CancelRequested => CaptureAction::Stop(StopReason::Cancelled),
        CaptureEvent::InterfaceLost => CaptureAction::Stop(StopReason::InterfaceLost),
        _ => CaptureAction::KeepReading,
    }
}

/// The fingerprint that `event` counts, if any.
pub open spec fn counted_key(event: CaptureEvent) -> Option<PacketInfos> {
    match event {
        CaptureEvent::Frame(frame) => spec_fingerprint(frame@),
        _ => None,
    }
}

/// The loop's decision on `event`, without touching any table.
pub fn next_action(event: &CaptureEvent) -> (r: CaptureAction)
    ensures
        r == spec_next_action(*event),
{
    match event {
        CaptureEvent::CancelRequested => CaptureAction::Stop(StopReason::Cancelled),
        CaptureEvent::InterfaceLost => CaptureAction::Stop(StopReason::InterfaceLost),
        _ => CaptureAction::KeepReading,
    }
}

impl FrequencyTable {
    /// One step of the capture loop: a frame that fingerprints is counted,
    /// everything else leaves the table as it was; the result says whether
    /// the loop reads on.
    pub fn apply_event(&mut self, event: &CaptureEvent) -> (r: CaptureAction)
        requires
            old(self).wf(),
        ensures
            final(self).wf(),
            r == spec_next_action(*event),
            forall|k: PacketInfos|
                #[trigger] final(self).count(k) == saturated(
                    old(self).count(k) + if counted_key(*event) == Some(k) {
                        1nat
                    } else {
                        0nat
                    },
                ),
    {
        match event {
            CaptureEvent::Frame(frame) => {
                self.record_frame(frame.as_slice());
            },
            _ => {
                proof {
                    assert forall|k: PacketInfos|
                        #[trigger] self.count(k) <= crate::table::COUNT_MAX by {
                        self.lemma_count_bounded(k);
                    }
                }
            },
        }
        next_action(event)
    }
}

} // verus!
