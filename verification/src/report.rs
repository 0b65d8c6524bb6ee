//! The final report: the sample ordered by value, each record with its decoded
//! token transfer and its display-scaled amounts.

use crate::decoder::{decode, decoded, TokenTransferInfo};
use crate::encoding::fixed_point;
use crate::primitives::U256;
use crate::record::TransactionRecord;
use crate::trusted::format_units;
use vstd::prelude::*;
use vstd::seq_lib::to_multiset_insert;
use vstd::string::StringExecFns;

verus! {

/// The test "this record's value is `v`".
pub open spec fn has_value(v: nat) -> spec_fn(TransactionRecord) -> bool {
    |tx: TransactionRecord| tx.value@ == v
}

/// The records of `s` whose value is `v`, in the order they have in `s`.
pub open spec fn with_value(s: Seq<TransactionRecord>, v: nat) -> Seq<TransactionRecord> {
    s.filter(has_value(v))
}

/// No record stands before one of smaller value.
pub open spec fn ascending(s: Seq<TransactionRecord>) -> bool {
    forall|i: int, j: int| 0 <= i <= j < s.len() ==> s[i].value@ <= s[j].value@
}

/// `sorted` is `arrived` in report order: ascending by value, and among the
/// records of any one value exactly those of `arrived`, in their arrival order.
pub open spec fn is_report_order(
    sorted: Seq<TransactionRecord>,
    arrived: Seq<TransactionRecord>,
) -> bool {
    &&& ascending(sorted)
    &&& forall|v: nat| #[trigger] with_value(sorted, v) == with_value(arrived, v)
}

/// Putting `tx` in front of the first record that is not smaller keeps report
/// order, for the arrivals with `tx` in front of them.
proof fn lemma_insert_keeps_report_order(
    sorted: Seq<TransactionRecord>,
    arrived: Seq<TransactionRecord>,
    k: int,
    tx: TransactionRecord,
)
    requires
        is_report_order(sorted, arrived),
        0 <= k <= sorted.len(),
        forall|j: int| 0 <= j < k ==> sorted[j].value@ < tx.value@,
        k < sorted.len() ==> tx.value@ <= sorted[k].value@,
    ensures
        is_report_order(sorted.insert(k, tx), seq![tx] + arrived),
{
    let front = sorted.subrange(0, k);
    let back = sorted.subrange(k, sorted.len() as int);
    let after = sorted.insert(k, tx);
    assert(after =~= front + seq![tx] + back);
    assert(sorted =~= front + back);
    assert(ascending(after));
    assert forall|v: nat| #[trigger] with_value(after, v) == with_value(seq![tx] + arrived, v) by {
        let p = has_value(v);
        Seq::filter_distributes_over_add(front + seq![tx], back, p);
        Seq::filter_distributes_over_add(front, seq![tx], p);
        Seq::filter_distributes_over_add(front, back, p);
        Seq::filter_distributes_over_add(seq![tx], arrived, p);
        assert(with_value(sorted, v) == with_value(arrived, v));
        if v == tx.value@ {
            front.lemma_all_neg_filter_empty(p);
            assert(seq![tx].filter(p) + back.filter(p) =~= front.filter(p) + seq![tx].filter(p)
                + back.filter(p));
        } else {
            seq![tx].lemma_all_neg_filter_empty(p);
            assert(front.filter(p) + seq![tx].filter(p) + back.filter(p) =~= front.filter(p)
                + back.filter(p));
        }
    }
}

/// Some record of `s` has value `v` exactly when the records of that value are
/// not none.
proof fn lemma_value_occurs(s: Seq<TransactionRecord>, v: nat)
    ensures
        with_value(s, v).len() > 0 <==> exists|i: int| 0 <= i < s.len() && s[i].value@ == v,
{
    let p = has_value(v);
    if with_value(s, v).len() > 0 {
        let x = with_value(s, v)[0];
        s.lemma_filter_pred(p, 0);
        s.lemma_filter_contains_rev(p, x);
    }
    if exists|i: int| 0 <= i < s.len() && s[i].value@ == v {
        let i = choose|i: int| 0 <= i < s.len() && s[i].value@ == v;
        s.lemma_filter_contains(p, i);
    }
}

/// Two ascending sequences that agree, value by value, on the records of that
/// value and their order are the same sequence.
proof fn lemma_ascending_groups_determine(a: Seq<TransactionRecord>, b: Seq<TransactionRecord>)
    requires
        ascending(a),
        ascending(b),
        forall|v: nat| #[trigger] with_value(a, v) == with_value(b, v),
    ensures
        a == b,
    decreases a.len(),
{
    if a.len() == 0 {
        // A record of `b` would show among the records of its value in `a`.
        if b.len() > 0 {
            let w = b[0].value@;
            lemma_value_occurs(b, w);
            lemma_value_occurs(a, w);
        }
    } else {
        // The last records of `a` and `b` carry the largest value of each, and
        // each value occurs in the other sequence: the two values are one.
        let x = a.last();
        let v = x.value@;
        lemma_value_occurs(a, v);
        lemma_value_occurs(b, v);
        let y = b.last();
        let w = y.value@;
        lemma_value_occurs(a, w);
        lemma_value_occurs(b, w);
        // So `x` and `y` both end the records of that value, and are one
        // record; what stands before them agrees value by value as well.
        let a0 = a.drop_last();
        let b0 = b.drop_last();
        assert(a0.push(x) =~= a);
        assert(b0.push(y) =~= b);
        assert forall|u: nat| #[trigger] with_value(a0, u) == with_value(b0, u) by {
            let p = has_value(u);
            a0.lemma_filter_push(x, p);
            b0.lemma_filter_push(y, p);
            assert(with_value(a, u) == with_value(b, u));
            if u == v {
                assert(b0.filter(p) =~= b0.filter(p).push(y).drop_last());
            }
        }
        let pv = has_value(v);
        a0.lemma_filter_push(x, pv);
        b0.lemma_filter_push(y, pv);
        assert(a0.filter(pv).push(x).last() == b0.filter(pv).push(y).last());
        lemma_ascending_groups_determine(a0, b0);
    }
}

/// Report order is one order: two sequences that are both the report order of
/// the same arrivals are equal.
pub proof fn lemma_report_order_is_unique(
    first: Seq<TransactionRecord>,
    second: Seq<TransactionRecord>,
    arrived: Seq<TransactionRecord>,
)
    requires
        is_report_order(first, arrived),
        is_report_order(second, arrived),
    ensures
        first == second,
{
    assert forall|v: nat| #[trigger] with_value(first, v) == with_value(second, v) by {
        assert(with_value(first, v) == with_value(arrived, v));
    }
    lemma_ascending_groups_determine(first, second);
}

/// Orders a sample for the report: by value ascending, records of equal value
/// in arrival order.
pub fn sort_by_value(sample: Vec<TransactionRecord>) -> (sorted: Vec<TransactionRecord>)
    ensures
        is_report_order(sorted@, sample@),
        sorted@.len() == sample@.len(),
        sorted@.to_multiset() == sample@.to_multiset(),
{
    let ghost arrived = sample@;
    let mut rest = sample;
    let mut sorted: Vec<TransactionRecord> = Vec::new();
    proof {
        assert(arrived.skip(arrived.len() as int) =~= Seq::empty());
    }
    while rest.len() > 0
        invariant
            rest@.len() <= arrived.len(),
            rest@ == arrived.take(rest@.len() as int),
            sorted@.len() + rest@.len() == arrived.len(),
            is_report_order(sorted@, arrived.skip(rest@.len() as int)),
            sorted@.to_multiset() == arrived.skip(rest@.len() as int).to_multiset(),
        decreases rest@.len(),
    {
        let ghost n = rest@.len() as int;
        let tx = rest.pop().unwrap();
        let mut k: usize = 0;
        while k < sorted.len() && sorted[k].value.lt(&tx.value)
            invariant
                k <= sorted@.len(),
                forall|j: int| 0 <= j < k ==> sorted@[j].value@ < tx.value@,
            decreases sorted@.len() - k,
        {
            k = k + 1;
        }
        proof {
            lemma_insert_keeps_report_order(sorted@, arrived.skip(n), k as int, tx);
            assert(seq![tx] + arrived.skip(n) =~= arrived.skip(n - 1));
            to_multiset_insert(sorted@, k as int, tx);
            to_multiset_insert(arrived.skip(n), 0, tx);
            assert(arrived.skip(n).insert(0, tx) =~= arrived.skip(n - 1));
        }
        sorted.insert(k, tx);
    }
    proof {
    }
    sorted
}

/// Decimal places between the smallest denomination and the display unit of
/// values and token amounts.
pub const ETHER_PLACES: u32 = 18;

/// Decimal places between the smallest denomination and the display unit of
/// gas prices.
pub const GWEI_PLACES: u32 = 9;

/// The text shown for an amount scaled down by `places` decimal places:
/// fixed-point text, or `N/A` where the scale is beyond what a 256-bit amount
/// can have.
pub open spec fn scaled_text(amount: nat, places: nat) -> Seq<char> {
    if places < 78 {
        fixed_point(amount, places)
    } else {
        seq!['N', '/', 'A']
    }
}

/// Renders an amount in a display unit that is `places` decimal places above
/// the smallest denomination.
pub fn display_scaled(amount: &U256, places: u32) -> (text: String)
    ensures
        text@ == scaled_text(amount@, places as nat),
{
    match format_units(amount, places) {
        Some(text) => text,
        None => {
            proof {
                reveal_strlit("N/A");
            }
            String::from_str("N/A")
        },
    }
}

/// A decoded token transfer as the report shows it.
#[derive(Clone, Debug, PartialEq, Eq)]
pub struct TokenReport {
    /// The transfer read from the call data.
    pub info: TokenTransferInfo,
    /// The amount, display-scaled.
    pub amount_display: String,
}

/// One record of the report, with what is derived from it for display.
#[derive(Clone, Debug, PartialEq, Eq)]
pub struct ReportEntry {
    /// The record itself.
    pub record: TransactionRecord,
    /// The value sent, display-scaled.
    pub value_display: String,
    /// The gas price, display-scaled; a missing price counts as zero.
    pub gas_price_display: String,
    /// The chain identifier; a missing one counts as zero.
    pub chain_id: U256,
    /// The token transfer in the call data; `None` where the call data holds
    /// no recognised transfer.
    pub token: Option<TokenReport>,
}

/// The number an optional amount counts as: zero where it is missing.
pub open spec fn or_zero(amount: Option<U256>) -> nat {
    match amount {
        Some(a) => a@,
        None => 0,
    }
}

/// `entry` is the report entry of `tx`.
pub open spec fn describes(entry: ReportEntry, tx: TransactionRecord) -> bool {
    &&& entry.record == tx
    &&& entry.value_display@ == scaled_text(tx.value@, ETHER_PLACES as nat)
    &&& entry.gas_price_display@ == scaled_text(or_zero(tx.gas_price), GWEI_PLACES as nat)
    &&& entry.chain_id@ == or_zero(tx.chain_id)
    &&& match entry.token {
        Some(token) => {
            &&& decoded(tx.input@) == Some(token.info@)
            &&& token.amount_display@ == scaled_text(token.info.amount@, ETHER_PLACES as nat)
        },
        None => decoded(tx.input@) is None,
    }
}

/// The records of a report, in its order.
pub open spec fn records_of(entries: Seq<ReportEntry>) -> Seq<TransactionRecord> {
    entries.map_values(|entry: ReportEntry| entry.record)
}

/// Builds the report entry of one record. The call data is decoded afresh; call
/// data without a recognised transfer gives an entry without token
/// information, never a failure.
pub fn describe(tx: TransactionRecord) -> (entry: ReportEntry)
    ensures
        describes(entry, tx),
{
    let value_display = display_scaled(&tx.value, ETHER_PLACES);
    let gas_price = match tx.gas_price {
        Some(price) => price,
        None => U256::zero(),
    };
    let gas_price_display = display_scaled(&gas_price, GWEI_PLACES);
    let chain_id = match tx.chain_id {
        Some(id) => id,
        None => U256::zero(),
    };
    let token = match decode(tx.input.as_slice()) {
        Some(info) => {
            let amount_display = display_scaled(&info.amount, ETHER_PLACES);
            Some(TokenReport { info, amount_display })
        },
        None => None,
    };
    ReportEntry { record: tx, value_display, gas_price_display, chain_id, token }
}

/// Builds the report of a finished sample: the records in report order, each
/// with its entry.
pub fn report(sample: Vec<TransactionRecord>) -> (entries: Vec<ReportEntry>)
    ensures
        entries@.len() == sample@.len(),
        is_report_order(records_of(entries@), sample@),
        forall|i: int| 0 <= i < entries@.len() ==> describes(#[trigger] entries@[i], entries@[i].record),
{
    let sorted = sort_by_value(sample);
    let ghost ordered = sorted@;
    let mut entries: Vec<ReportEntry> = Vec::new();
    for tx in it: sorted
        invariant
            it.seq() == ordered,
            records_of(entries@) == ordered.take(it.index() as int),
            forall|i: int| 0 <= i < entries@.len() ==> describes(#[trigger] entries@[i], entries@[i].record),
    {
        let ghost before = entries@;
        let entry = describe(tx);
        entries.push(entry);
        proof {
            assert(records_of(entries@) =~= records_of(before).push(tx));
        }
    }
    proof {
        assert(records_of(entries@) =~= ordered);
    }
    entries
}

} // verus!
