//! Decisions of the unary command surface: which engine operation a
//! container action names, and the validation pass over a batch of ids.

use vstd::prelude::*;
use vstd::string::*;
use crate::text::str_eq;
use crate::validate::{id_accepted, rejection_msg, validate_docker_id};

verus! {

broadcast use vstd::string::group_string_axioms;

/// The engine operation a container action request names.
#[derive(Clone, Copy, Debug, PartialEq, Eq, Structural)]
pub enum ContainerOp {
    Start,
    Stop,
    Restart,
    Remove,
}

proof fn lemma_action_literals_distinct()
    ensures
        "start"@ != "stop"@,
        "start"@ != "restart"@,
        "start"@ != "remove"@,
        "stop"@ != "restart"@,
        "stop"@ != "remove"@,
        "restart"@ != "remove"@,
{
    reveal_strlit("start");
    reveal_strlit("stop");
    reveal_strlit("restart");
    reveal_strlit("remove");
    assert("start"@.len() == 5);
    assert("stop"@.len() == 4);
    assert("restart"@.len() == 7);
    assert("remove"@.len() == 6);
}

/// Decide a container action request: the id must pass validation and the
/// action must be one of the four known words; anything else is the
/// invalid-action error.
pub fn container_action_decision(id: &str, action: &str) -> (r: Result<ContainerOp, String>)
    ensures
        !id_accepted(id@) ==> (r matches Err(m) && m@ == rejection_msg(id@)),
        id_accepted(id@) ==> match r {
            Ok(op) => {
                &&& (op == ContainerOp::Start <==> action@ == "start"@)
                &&& (op == ContainerOp::Stop <==> action@ == "stop"@)
                &&& (op == ContainerOp::Restart <==> action@ == "restart"@)
                &&& (op == ContainerOp::Remove <==> action@ == "remove"@)
            },
            Err(m) => m@ == "Invalid action"@ && action@ != "start"@ && action@ != "stop"@
                && action@ != "restart"@ && action@ != "remove"@,
        },
{
    if let Err(m) = validate_docker_id(id) {
        return Err(m);
    }
    if str_eq(action, "start") {
        proof {
            lemma_action_literals_distinct();
        }
        Ok(ContainerOp::Start)
    } else if str_eq(action, "stop") {
        proof {
            lemma_action_literals_distinct();
        }
        Ok(ContainerOp::Stop)
    } else if str_eq(action, "restart") {
        proof {
            lemma_action_literals_distinct();
        }
        Ok(ContainerOp::Restart)
    } else if str_eq(action, "remove") {
        proof {
            lemma_action_literals_distinct();
        }
        Ok(ContainerOp::Remove)
    } else {
        Err(String::from_str("Invalid action"))
    }
}

/// Validate every id of a batch, in order; the first rejection decides.
pub fn validate_ids(ids: &Vec<String>) -> (r: Result<(), String>)
    ensures
        r is Ok <==> (forall|i: int| 0 <= i < ids@.len() ==> id_accepted(#[trigger] ids@[i]@)),
        r matches Err(m) ==> exists|i: int|
            0 <= i < ids@.len() && !id_accepted(#[trigger] ids@[i]@) && m@ == rejection_msg(
                ids@[i]@,
            ) && (forall|j: int| 0 <= j < i ==> id_accepted(#[trigger] ids@[j]@)),
{
    let n = ids.len();
    for i in 0..n
        invariant
            n == ids@.len(),
            forall|j: int| 0 <= j < i ==> id_accepted(#[trigger] ids@[j]@),
    {
        let id: &String = &ids[i];
        if let Err(m) = validate_docker_id(id.as_str()) {
            return Err(m);
        }
    }
    Ok(())
}

/// One element of a batch-stats reply: the container's id and either its
/// stats sample or the error that kept it from arriving.
pub struct ContainerStatsResult<T> {
    pub id: String,
    pub success: bool,
    pub data: Option<T>,
    pub error: Option<String>,
}

/// Collate one container's stats outcome: a sample is a success, a failed
/// request carries its message, and a stream that ended without a sample is
/// the no-stats error.
pub fn stats_entry<T>(id: String, outcome: Option<Result<T, String>>) -> (r: ContainerStatsResult<
    T,
>)
    ensures
        r.id == id,
        outcome matches Some(Ok(v)) ==> r.success && r.data == Some(v) && r.error is None,
        outcome matches Some(Err(e)) ==> !r.success && r.data is None && r.error == Some(e),
        outcome is None ==> !r.success && r.data is None && (r.error matches Some(m) && m@
            == "No stats found"@),
        r.success ==> r.error is None,
        !r.success ==> r.data is None && r.error is Some,
{
    match outcome {
        Some(Ok(v)) => ContainerStatsResult { id, success: true, data: Some(v), error: None },
        Some(Err(e)) => ContainerStatsResult { id, success: false, data: None, error: Some(e) },
        None => ContainerStatsResult {
            id,
            success: false,
            data: None,
            error: Some(String::from_str("No stats found")),
        },
    }
}

} // verus!
