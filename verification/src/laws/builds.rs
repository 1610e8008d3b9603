//! Laws of building a tool: what follows from what, and what is recorded.

use vstd::prelude::*;

use crate::digest::{hex_text, sha256, sha256_text};
use crate::lock::LockedTool;
use crate::tool::{
    belongs, build_follows, is_build, BuildError, BuildEvent, BuildOutcome, BuildPlan, BuildStep,
    ResolvedTool,
};

verus! {

/// Bytes in hexadecimal: each is two digits, the high half first.
pub proof fn law_hex(data: Seq<u8>)
    ensures
        hex_text(data).len() == 2 * data.len(),
        forall|i: int|
            0 <= i < data.len() ==> hex_text(data)[2 * i] == "0123456789abcdef"@[#[trigger] data[i]
                as int / 16] && hex_text(data)[2 * i + 1] == "0123456789abcdef"@[data[i] as int % 16],
        sha256_text(data) == hex_text(sha256(data)),
{
    reveal_strlit("0123456789abcdef");
    assert forall|i: int| 0 <= i < data.len() implies hex_text(data)[2 * i]
        == "0123456789abcdef"@[#[trigger] data[i] as int / 16] && hex_text(data)[2 * i + 1]
        == "0123456789abcdef"@[data[i] as int % 16] by {
        lemma_hex_digit(data[i] as int / 16);
        lemma_hex_digit(data[i] as int % 16);
        assert((2 * i) % 2 == 0 && (2 * i) / 2 == i);
        assert((2 * i + 1) % 2 == 1 && (2 * i + 1) / 2 == i);
    }
}

proof fn lemma_hex_digit(n: int)
    requires
        0 <= n < 16,
    ensures
        crate::digest::hex_digit(n) == "0123456789abcdef"@[n],
{
    reveal_strlit("0123456789abcdef");
}

/// A build that ends with a record ends so after its binary was read. The
/// record has everything that was resolved, the toolchain that built it and the
/// digest of the binary; what `go install` was asked for is the record's
/// package and version.
pub proof fn law_record(
    plan: BuildPlan,
    tool: ResolvedTool,
    step: BuildStep,
    event: BuildEvent,
    locked: LockedTool,
)
    requires
        plan.target@ == tool.package@ + "@"@ + tool.version@,
        build_follows(plan, tool, step, event, BuildOutcome::Locked(locked)),
    ensures
        step is ReadBinary,
        plan.target@ == locked.package@ + "@"@ + locked.version@,
        locked.name@ == tool.name@,
        locked.package@ == tool.package@,
        locked.version@ == tool.version@,
        locked.bin@ == tool.bin@,
        locked.module_hash@ == tool.module_hash@,
        locked.built_with@ == plan.go_version@,
        event matches BuildEvent::Bytes(binary) && locked.binary_sha256@ == hex_text(
            sha256(binary@),
        ),
{
}

/// A build fails only where the toolchain's `go` is not there, where `go
/// install` ends without success, or where it produced neither the binary nor
/// exactly one other file; the failure says which and about what.
pub proof fn law_build_failures(
    plan: BuildPlan,
    tool: ResolvedTool,
    step: BuildStep,
    event: BuildEvent,
    e: BuildError,
)
    requires
        build_follows(plan, tool, step, event, BuildOutcome::Failed(e)),
    ensures
        match e {
            BuildError::ToolchainMissing { go_version, go_bin } => step is CheckGo && event
                == BuildEvent::Exists(false) && go_version@ == plan.go_version@ && go_bin@
                == plan.go_bin@,
            BuildError::InstallFailed { target } => step is Build && event == BuildEvent::Exit(
                false,
            ) && target@ == plan.target@,
            BuildError::NoBinary { bin, dir } => step is ListProduced && (event
                matches BuildEvent::Files(files) && files@.len() != 1) && bin@ == tool.bin@ && dir@
                == plan.tmp_gobin@,
        },
{
}

/// Whether a build goes on from one step to the next by an event.
pub open spec fn goes_on(
    plan: BuildPlan,
    tool: ResolvedTool,
    step: BuildStep,
    event: BuildEvent,
    next: BuildStep,
) -> bool {
    build_follows(plan, tool, step, event, BuildOutcome::Next(next))
}

/// The order of a build: look for `go`, then for the tool; where it is there
/// read it; else prepare, build, look for the binary, move it into place, and
/// read it. Where the binary has another name, the one file that was produced
/// is moved.
pub proof fn law_build_order(
    plan: BuildPlan,
    tool: ResolvedTool,
    step: BuildStep,
    event: BuildEvent,
    next: BuildStep,
)
    requires
        goes_on(plan, tool, step, event, next),
    ensures
        step is CheckGo ==> event == BuildEvent::Exists(true) && next is CheckDest,
        step is CheckDest && event == BuildEvent::Exists(true) ==> next is ReadBinary,
        step is CheckDest && event == BuildEvent::Exists(false) ==> next is Prepare,
        step is Prepare ==> next is Build,
        step is Build ==> event == BuildEvent::Exit(true) && next is CheckProduced,
        step is CheckProduced && event == BuildEvent::Exists(true) ==> (next
            matches BuildStep::Move { from } && from@ == plan.produced@),
        step is CheckProduced && event == BuildEvent::Exists(false) ==> next is ListProduced,
        step is ListProduced ==> (event matches BuildEvent::Files(files) && files@.len() == 1 && (
        next matches BuildStep::Move { from } && from@ == files@[0]@)),
        step is Move ==> next is ReadBinary,
        !(step is ReadBinary),
{
}

/// Nothing goes on from the steps that end a build, and nothing ends it before:
/// each event of a step has one outcome.
pub proof fn law_build_outcome_is_settled(
    plan: BuildPlan,
    tool: ResolvedTool,
    step: BuildStep,
    event: BuildEvent,
    r: BuildOutcome,
)
    requires
        build_follows(plan, tool, step, event, r),
    ensures
        r is Locked <==> step is ReadBinary,
        r is Failed <==> (step is CheckGo && event == BuildEvent::Exists(false)) || (step is Build
            && event == BuildEvent::Exit(false)) || (step is ListProduced && (event
            matches BuildEvent::Files(files) && files@.len() != 1)),
{
}

/// Which events a step of a build can have.
pub proof fn law_build_events(step: BuildStep, event: BuildEvent)
    ensures
        step is CheckGo || step is CheckDest || step is CheckProduced ==> (belongs(step, event)
            <==> event is Exists),
        step is Prepare || step is Move ==> (belongs(step, event) <==> event is Done),
        step is Build ==> (belongs(step, event) <==> event is Exit),
        step is ListProduced ==> (belongs(step, event) <==> event is Files),
        step is ReadBinary ==> (belongs(step, event) <==> event is Bytes),
{
}

/// The first step of every build looks for the toolchain's `go`.
pub proof fn law_build_starts_with_go(
    plan: BuildPlan,
    tool: ResolvedTool,
    steps: Seq<BuildStep>,
    events: Seq<BuildEvent>,
)
    requires
        is_build(plan, tool, steps, events),
    ensures
        steps[0] is CheckGo,
{
}

} // verus!
