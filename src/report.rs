use vstd::prelude::*;

use crate::status::{json_text, WebsiteStatus};
use crate::text::{decimal, digit_char};

verus! {

/// `parts` written one after the other, with `sep` between two neighbours.
pub open spec fn join(parts: Seq<Seq<char>>, sep: Seq<char>) -> Seq<char>
    decreases parts.len(),
{
    if parts.len() == 0 {
        Seq::empty()
    } else if parts.len() == 1 {
        parts[0]
    } else {
        join(parts.drop_last(), sep) + sep + parts.last()
    }
}

/// The JSON object of each record, in the records' order.
pub open spec fn entries(records: Seq<WebsiteStatus>) -> Seq<Seq<char>> {
    records.map_values(|s: WebsiteStatus| json_text(s))
}

/// The report: a JSON array holding the object of each record, in order.
pub open spec fn report_text(records: Seq<WebsiteStatus>) -> Seq<char> {
    "["@ + join(entries(records), ","@) + "]"@
}

/// Writes the report of `records`, in the order they are given (the order in
/// which the checks completed).
pub fn report_json(records: &Vec<WebsiteStatus>) -> (r: String)
    ensures
        r@ == report_text(records@),
{
    let mut out = String::new();
    out.append("[");
    let n = records.len();
    let mut i: usize = 0;
    assert(entries(records@.subrange(0, 0)) =~= Seq::<Seq<char>>::empty());
    while i < n
        invariant
            n == records@.len(),
            i <= n,
            out@ == "["@ + join(entries(records@.subrange(0, i as int)), ","@),
        decreases n - i,
    {
        let ghost before = entries(records@.subrange(0, i as int));
        let ghost after = entries(records@.subrange(0, i + 1));
        assert(after.drop_last() =~= before);
        assert(after.last() == json_text(records@[i as int]));
        if i > 0 {
            out.append(",");
        }
        let entry = records[i].to_json();
        out.append(entry.as_str());
        assert(out@ =~= "["@ + join(after, ","@));
        i = i + 1;
    }
    out.append("]");
    assert(records@.subrange(0, n as int) =~= records@);
    out
}

/// The report holds one entry per record, duplicates included, each the
/// record's own JSON object in the records' order, and each entry's `rt_ms`
/// is written with decimal digits alone, so it is never negative.
pub proof fn lemma_report_one_entry_per_record(records: Seq<WebsiteStatus>)
    ensures
        report_text(records) == "["@ + join(entries(records), ","@) + "]"@,
        entries(records).len() == records.len(),
        forall|i: int| 0 <= i < records.len() ==> #[trigger] entries(records)[i] == json_text(records[i]),
        forall|i: int, j: int|
            0 <= i < records.len() && 0 <= j < decimal(records[i].response_ms as nat).len()
                ==> '0' <= #[trigger] decimal(records[i].response_ms as nat)[j] <= '9',
{
    assert forall|i: int, j: int|
        0 <= i < records.len() && 0 <= j < decimal(records[i].response_ms as nat).len()
            implies '0' <= #[trigger] decimal(records[i].response_ms as nat)[j] <= '9' by {
        lemma_decimal_digits(records[i].response_ms as nat);
    }
}

/// Every character of a decimal rendering is a digit.
pub proof fn lemma_decimal_digits(n: nat)
    ensures
        forall|j: int| 0 <= j < decimal(n).len() ==> '0' <= #[trigger] decimal(n)[j] <= '9',
    decreases n,
{
    if n >= 10 {
        lemma_decimal_digits(n / 10);
    }
    let d = digit_char(n % 10);
    assert('0' <= d <= '9');
    assert forall|j: int| 0 <= j < decimal(n).len() implies '0' <= #[trigger] decimal(n)[j] <= '9' by {
        if n >= 10 && j < decimal(n).len() - 1 {
            assert(decimal(n)[j] == decimal(n / 10)[j]);
        }
    }
}

} // verus!
