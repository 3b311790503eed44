//! Replies to block notifications sent for fee-forwarding tracking.
use vstd::prelude::*;

verus! {

broadcast use vstd::string::group_string_axioms;

/// Block notification response.
#[derive(Debug, Clone)]
pub struct BlockNotificationResponse {
    pub success: bool,
    pub message: String,
    pub contributions_found: usize,
}

/// A refusal with its message.
fn failure(message: String) -> (res: BlockNotificationResponse)
    ensures
        !res.success && res.message == message && res.contributions_found == 0,
{
    BlockNotificationResponse { success: false, message, contributions_found: 0 }
}

/// The reply before the block is looked at: without Commons addresses fee
/// forwarding is not configured, and without a database pool nothing can be
/// recorded; otherwise there is no early reply.
pub fn block_precheck(has_commons_addresses: bool, pool_available: bool) -> (res: Option<BlockNotificationResponse>)
    ensures
        !has_commons_addresses ==> (res matches Some(r) && !r.success && r.contributions_found == 0
            && r.message@ == "Fee forwarding not configured (no Commons addresses)"@),
        has_commons_addresses && !pool_available ==> (res matches Some(r) && !r.success && r.contributions_found == 0
            && r.message@ == "Database pool not available"@),
        has_commons_addresses && pool_available ==> res is None,
{
    if !has_commons_addresses {
        return Some(failure(String::from_str("Fee forwarding not configured (no Commons addresses)")));
    }
    if !pool_available {
        return Some(failure(String::from_str("Database pool not available")));
    }
    None
}

/// The reply when the block data does not parse.
pub fn block_parse_failed(error: &str) -> (res: BlockNotificationResponse)
    ensures
        !res.success && res.contributions_found == 0,
        res.message@ == "Failed to parse block: "@ + error@,
{
    let mut m = String::from_str("Failed to parse block: ");
    m.append(error);
    failure(m)
}

/// The reply after processing: the number of fee-forwarding contributions
/// found, or the processing error.
pub fn block_processed(outcome: Result<usize, String>) -> (res: BlockNotificationResponse)
    ensures
        match outcome {
            Ok(n) => res.success && res.contributions_found == n && res.message@ == "Block processed successfully"@,
            Err(e) => !res.success && res.contributions_found == 0 && res.message@ == "Failed to process block: "@ + e@,
        },
{
    match outcome {
        Ok(n) => BlockNotificationResponse {
            success: true,
            message: String::from_str("Block processed successfully"),
            contributions_found: n,
        },
        Err(e) => {
            let mut m = String::from_str("Failed to process block: ");
            m.append(e.as_str());
            failure(m)
        },
    }
}

} // verus!
