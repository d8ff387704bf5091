//! Tip reporter: renders the telemetry submission for the current chain
//! tip. Stateless per submission; the submission is sent at most once per
//! tip observation and never persisted. Sending is the caller's transport
//! concern, and a send failure must never stop chain following.

use vstd::prelude::*;

verus! {

use crate::chainsync::Tip;
use crate::validate::dec_of;
use crate::validate::u64_to_dec;

/// One telemetry target: the pool's identity and where its node listens.
#[derive(Debug)]
pub struct PoolConfig {
    pub name: String,
    pub pool_id: String,
    pub host: String,
    pub port: u16,
}

/// The loaded telemetry configuration: shared credential and node version,
/// plus one entry per target pool.
#[derive(Debug)]
pub struct TelemetryConfig {
    pub api_key: String,
    pub node_version: String,
    pub pools: Vec<PoolConfig>,
}

/// The JSON document submitted for one tip observation.
pub open spec fn submission_json(
    api_key: Seq<char>,
    pool_name: Seq<char>,
    pool_id: Seq<char>,
    node_version: Seq<char>,
    tip: Tip,
) -> Seq<char> {
    "{\"apiKey\": \""@ + api_key + "\", \"poolName\": \""@ + pool_name + "\", \"poolId\": \""@
        + pool_id + "\", \"version\": \""@ + node_version + "\", \"blockNo\": "@ + dec_of(
        tip.block_number as int,
    ) + ", \"slotNo\": "@ + dec_of(tip.slot as int) + ", \"blockHash\": \""@ + tip.hash@ + "\"}"@
}

/// Renders the telemetry submission for one tip observation.
pub fn render_submission(
    api_key: &str,
    pool_name: &str,
    pool_id: &str,
    node_version: &str,
    tip: &Tip,
) -> (r: String)
    ensures
        r@ == submission_json(api_key@, pool_name@, pool_id@, node_version@, *tip),
{
    let mut s = String::from_str("{\"apiKey\": \"");
    s.append(api_key);
    s.append("\", \"poolName\": \"");
    s.append(pool_name);
    s.append("\", \"poolId\": \"");
    s.append(pool_id);
    s.append("\", \"version\": \"");
    s.append(node_version);
    s.append("\", \"blockNo\": ");
    let bn = u64_to_dec(tip.block_number);
    s.append(bn.as_str());
    s.append(", \"slotNo\": ");
    let sn = u64_to_dec(tip.slot);
    s.append(sn.as_str());
    s.append(", \"blockHash\": \"");
    s.append(tip.hash.as_str());
    s.append("\"}");
    proof {
        assert(s@ =~= submission_json(api_key@, pool_name@, pool_id@, node_version@, *tip));
    }
    s
}

} // verus!
