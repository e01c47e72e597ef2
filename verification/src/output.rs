//! Output assembly: the fixed header, then one row per transaction, in
//! input order. The sign decides the column: a negative amount's magnitude
//! lands in Outflow, a non-negative one's in Inflow, with the other middle
//! columns empty. ("Catergory" is the literal spelling the consuming
//! importer requires.)

use vstd::prelude::*;
use crate::row::Transaction;
use crate::row::TransactionV;

verus! {

/// The fixed header line.
pub open spec fn header_text() -> Seq<char> {
    "Date,Payee,Catergory,Memo,Outflow,Inflow\n"@
}

/// One output row: `date,payee,,,outflow,inflow` with exactly one of the
/// last two columns holding the magnitude.
pub open spec fn row_text(t: TransactionV) -> Seq<char> {
    t.date + ","@ + t.payee + ",,,"@ + (if t.amount.negative {
        t.amount.magnitude + ","@
    } else {
        ","@ + t.amount.magnitude
    }) + "\n"@
}

/// The whole output text: header, then the rows in order.
pub open spec fn output_text(ts: Seq<TransactionV>) -> Seq<char>
    decreases ts.len(),
{
    if ts.len() == 0 {
        header_text()
    } else {
        output_text(ts.drop_last()) + row_text(ts.last())
    }
}

/// Assembles the output text, exactly as `output_text` describes. Cannot
/// fail.
pub fn format_output(rows: &Vec<Transaction>) -> (out: String)
    ensures
        out@ == output_text(rows.deep_view()),
{
    let mut out = String::from_str("Date,Payee,Catergory,Memo,Outflow,Inflow\n");
    let mut i: usize = 0;
    proof {
        assert(rows.deep_view().take(0) =~= Seq::<TransactionV>::empty());
        assert(rows.deep_view().len() == rows@.len());
    }
    while i < rows.len()
        invariant
            i <= rows.len(),
            rows.deep_view().len() == rows@.len(),
            out@ == output_text(rows.deep_view().take(i as int)),
        decreases rows.len() - i,
    {
        let t = &rows[i];
        out.append(t.date.as_str());
        out.append(",");
        out.append(t.payee.as_str());
        out.append(",,,");
        if t.amount.negative {
            out.append(t.amount.magnitude.as_str());
            out.append(",");
        } else {
            out.append(",");
            out.append(t.amount.magnitude.as_str());
        }
        out.append("\n");
        proof {
            let dv = rows.deep_view();
            assert(dv[i as int] == rows@[i as int]@);
            assert(dv.take(i + 1).drop_last() =~= dv.take(i as int));
            assert(dv.take(i + 1).last() == dv[i as int]);
            assert(out@ =~= output_text(dv.take(i as int)) + row_text(dv[i as int]));
        }
        i = i + 1;
    }
    proof {
        assert(rows.deep_view().take(rows@.len() as int) =~= rows.deep_view());
    }
    out
}

} // verus!
