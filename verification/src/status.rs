//! The state of the drive service, in words.

use vstd::prelude::*;

verus! {

/// What is said of the drive service after a health check.
pub open spec fn pipe_status(health: Result<(), String>) -> Seq<char> {
    match health {
        Ok(_) => "Ext2Srv pipe: connected."@,
        Err(err) => "Ext2Srv pipe: "@ + err@ + " (is Ext2Srv running?)"@,
    }
}

/// Tells the user how a health check of the drive service went.
pub fn pipe_status_str(health: &Result<(), String>) -> (text: String)
    ensures
        text@ == pipe_status(*health),
{
    match health {
        Ok(_) => "Ext2Srv pipe: connected.".to_owned(),
        Err(err) => {
            let mut text = "Ext2Srv pipe: ".to_owned();
            text.append(err.as_str());
            text.append(" (is Ext2Srv running?)");
            text
        },
    }
}

/// The status of a service that is not reached holds the reason, between words that are the same
/// for every reason; so different reasons give different statuses, and none of them reads as
/// connected.
pub proof fn law_the_status_tells_the_reason(err: String, other: String)
    ensures
        pipe_status(Ok(())) == "Ext2Srv pipe: connected."@,
        pipe_status(Err(err)) == "Ext2Srv pipe: "@ + err@ + " (is Ext2Srv running?)"@,
        err@ != other@ ==> pipe_status(Err(err)) != pipe_status(Err(other)),
        pipe_status(Err(err)) != pipe_status(Ok(())),
{
    reveal_strlit("Ext2Srv pipe: connected.");
    reveal_strlit("Ext2Srv pipe: ");
    reveal_strlit(" (is Ext2Srv running?)");
    let head = "Ext2Srv pipe: "@;
    let tail = " (is Ext2Srv running?)"@;
    let one = pipe_status(Err(err));
    let two = pipe_status(Err(other));
    assert(one.last() == tail.last());
    if one == two {
        assert(err@ == one.subrange(head.len() as int, one.len() - tail.len()));
        assert(other@ == two.subrange(head.len() as int, two.len() - tail.len()));
    }
}

} // verus!
