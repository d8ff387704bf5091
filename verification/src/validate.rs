//! Read-only block validator: looks a block up by hash prefix and renders a
//! JSON report with the block's canonical status.

use vstd::prelude::*;

verus! {

use crate::store::Block;
use crate::store::ChainStore;
use crate::store::StoreError;

/// The decimal digit character for `d`.
pub open spec fn dec_digit(d: int) -> char {
    if d == 0 {
        '0'
    } else if d == 1 {
        '1'
    } else if d == 2 {
        '2'
    } else if d == 3 {
        '3'
    } else if d == 4 {
        '4'
    } else if d == 5 {
        '5'
    } else if d == 6 {
        '6'
    } else if d == 7 {
        '7'
    } else if d == 8 {
        '8'
    } else {
        '9'
    }
}

/// The decimal rendering of a non-negative number, without leading zeros
/// (a single zero for 0).
pub open spec fn dec_of(n: int) -> Seq<char>
    decreases n,
{
    if n < 10 {
        seq![dec_digit(n)]
    } else {
        dec_of(n / 10).push(dec_digit(n % 10))
    }
}

fn digit_str(d: u64) -> (r: &'static str)
    requires
        d < 10,
    ensures
        r@ == seq![dec_digit(d as int)],
{
    let r: &'static str = if d == 0 {
        "0"
    } else if d == 1 {
        "1"
    } else if d == 2 {
        "2"
    } else if d == 3 {
        "3"
    } else if d == 4 {
        "4"
    } else if d == 5 {
        "5"
    } else if d == 6 {
        "6"
    } else if d == 7 {
        "7"
    } else if d == 8 {
        "8"
    } else {
        "9"
    };
    proof {
        reveal_strlit("0");
        reveal_strlit("1");
        reveal_strlit("2");
        reveal_strlit("3");
        reveal_strlit("4");
        reveal_strlit("5");
        reveal_strlit("6");
        reveal_strlit("7");
        reveal_strlit("8");
        reveal_strlit("9");
        assert(r@ =~= seq![dec_digit(d as int)]);
    }
    r
}

/// Renders a number in decimal.
pub fn u64_to_dec(n: u64) -> (r: String)
    ensures
        r@ == dec_of(n as int),
    decreases n,
{
    if n < 10 {
        String::from_str(digit_str(n))
    } else {
        let mut s = u64_to_dec(n / 10);
        s.append(digit_str(n % 10));
        proof {
            assert(s@ =~= dec_of(n as int));
        }
        s
    }
}

/// The status word of a row: `ok` while canonical, `orphaned` after a
/// rollback moved the chain past it.
pub open spec fn status_text(orphaned: bool) -> Seq<char> {
    if orphaned {
        "orphaned"@
    } else {
        "ok"@
    }
}

/// The JSON report for a found block, orphaned or not.
pub open spec fn block_report(b: Block) -> Seq<char> {
    "{\n \"status\": \""@ + status_text(b.orphaned) + "\",\n \"block_number\": \""@ + dec_of(
        b.block_number as int,
    ) + "\",\n \"slot_number\": \""@ + dec_of(b.slot_number as int) + "\",\n \"hash\": \""@
        + b.hash@ + "\",\n \"prev_hash\": \""@ + b.prev_hash@ + "\",\n \"leader_vrf\": \""@
        + b.leader_vrf@ + "\"\n}"@
}

/// The JSON report for a failed lookup.
pub open spec fn error_report(msg: Seq<char>) -> Seq<char> {
    "{\n \"status\": \"error\",\n \"errorMessage\": \""@ + msg + "\"\n}"@
}

/// Renders the report for a block found by the lookup.
pub fn render_block_report(b: &Block) -> (r: String)
    ensures
        r@ == block_report(*b),
{
    let mut s = String::from_str("{\n \"status\": \"");
    if b.orphaned {
        s.append("orphaned");
    } else {
        s.append("ok");
    }
    s.append("\",\n \"block_number\": \"");
    let bn = u64_to_dec(b.block_number);
    s.append(bn.as_str());
    s.append("\",\n \"slot_number\": \"");
    let sn = u64_to_dec(b.slot_number);
    s.append(sn.as_str());
    s.append("\",\n \"hash\": \"");
    s.append(b.hash.as_str());
    s.append("\",\n \"prev_hash\": \"");
    s.append(b.prev_hash.as_str());
    s.append("\",\n \"leader_vrf\": \"");
    s.append(b.leader_vrf.as_str());
    s.append("\"\n}");
    proof {
        assert(s@ =~= block_report(*b));
    }
    s
}

/// Renders the report for a failed lookup, quoting the failure text.
pub fn render_error_report(msg: &str) -> (r: String)
    ensures
        r@ == error_report(msg@),
{
    let mut s = String::from_str("{\n \"status\": \"error\",\n \"errorMessage\": \"");
    s.append(msg);
    s.append("\"\n}");
    proof {
        assert(s@ =~= error_report(msg@));
    }
    s
}

/// The lookup failure text when no row matches the prefix.
pub open spec fn no_rows_text() -> Seq<char> {
    "Query returned no rows"@
}

/// Validates a block by hash prefix against the store: reports the first
/// matching row with its status (`ok` or `orphaned`), or an error report
/// naming the empty query result.
pub fn validate_block(store: &ChainStore, hash_prefix: &str) -> (r: String)
    ensures
        (exists|i: int|
            0 <= i < store.rows().len() && hash_prefix@.is_prefix_of(store.rows()[i].hash@))
            ==> exists|i: int|
            {
                &&& 0 <= i < store.rows().len()
                &&& hash_prefix@.is_prefix_of(store.rows()[i].hash@)
                &&& (forall|j: int| 0 <= j < i ==> !hash_prefix@.is_prefix_of(store.rows()[j].hash@))
                &&& r@ == block_report(store.rows()[i])
            },
        (forall|i: int|
            0 <= i < store.rows().len() ==> !hash_prefix@.is_prefix_of(store.rows()[i].hash@))
            ==> r@ == error_report(no_rows_text()),
{
    match store.find_by_hash_prefix(hash_prefix) {
        Ok(block) => render_block_report(&block),
        Err(StoreError::NotFound) => render_error_report("Query returned no rows"),
        Err(StoreError::DuplicateHash) => render_error_report("Query returned no rows"),
    }
}

} // verus!
