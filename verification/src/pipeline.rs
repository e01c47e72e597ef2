//! The whole run: split the input into lines, skip the header line,
//! convert every data line in order, and assemble the output text. The
//! first stage error aborts the run; no partial output is produced.

use vstd::prelude::*;
use crate::error::ConvertError;
use crate::error::ErrorView;
use crate::output::format_output;
use crate::output::output_text;
use crate::row::Transaction;
use crate::row::TransactionV;
use crate::row::convert;
use crate::row::convert_result;
use crate::text::lines_of;
use crate::text::split_lines;

verus! {

/// Converting a sequence of data lines, in order, first error wins.
pub open spec fn convert_all(ls: Seq<Seq<char>>) -> Result<Seq<TransactionV>, ErrorView>
    decreases ls.len(),
{
    if ls.len() == 0 {
        Ok(Seq::<TransactionV>::empty())
    } else {
        match convert_result(ls[0]) {
            Err(e) => Err(e),
            Ok(t) => match convert_all(ls.skip(1)) {
                Err(e) => Err(e),
                Ok(ts) => Ok(seq![t] + ts),
            },
        }
    }
}

/// The data lines of the input: everything after the header line.
pub open spec fn body_lines(input: Seq<char>) -> Seq<Seq<char>> {
    let ls = lines_of(input);
    if ls.len() == 0 {
        Seq::<Seq<char>>::empty()
    } else {
        ls.skip(1)
    }
}

/// What a whole run yields: the output text, or the first error.
pub open spec fn process(input: Seq<char>) -> Result<Seq<char>, ErrorView> {
    match convert_all(body_lines(input)) {
        Err(e) => Err(e),
        Ok(ts) => Ok(output_text(ts)),
    }
}

/// Runs the whole conversion on the input text, exactly as `process`
/// describes.
pub fn run(input: &str) -> (r: Result<String, ConvertError>)
    ensures
        process(input@) matches Ok(o) ==> r matches Ok(x) && x@ == o,
        process(input@) matches Err(e) ==> r matches Err(x) && x@ == e,
{
    let lines = split_lines(input);
    let mut txs: Vec<Transaction> = Vec::new();
    let ghost body = body_lines(input@);
    proof {
        assert(lines.deep_view().len() == lines@.len());
    }
    if lines.len() == 0 {
        proof {
            assert(body =~~= Seq::<Seq<char>>::empty());
            assert(txs.deep_view() =~= Seq::<TransactionV>::empty());
        }
        return Ok(format_output(&txs));
    }
    proof {
        assert(body =~~= lines.deep_view().skip(1));
        assert(body.skip(0) =~= body);
        if convert_all(body) is Ok {
            let ts = convert_all(body)->Ok_0;
            assert(txs.deep_view() + ts =~= ts);
        }
    }
    let mut i: usize = 1;
    while i < lines.len()
        invariant
            1 <= i <= lines.len(),
            lines@.len() >= 1,
            lines.deep_view().len() == lines@.len(),
            body == body_lines(input@),
            body == lines.deep_view().skip(1),
            convert_all(body.skip(i - 1)) matches Ok(ts) ==> convert_all(body) == Ok::<
                Seq<TransactionV>,
                ErrorView,
            >(txs.deep_view() + ts),
            convert_all(body.skip(i - 1)) matches Err(e) ==> convert_all(body) == Err::<
                Seq<TransactionV>,
                ErrorView,
            >(e),
        decreases lines.len() - i,
    {
        proof {
            assert(body.skip(i - 1)[0] == lines.deep_view()[i as int]);
            assert(lines.deep_view()[i as int] == lines@[i as int]@);
        }
        let t = match convert(lines[i].as_str()) {
            Ok(t) => t,
            Err(e) => {
                return Err(e);
            },
        };
        let ghost old_dv = txs.deep_view();
        txs.push(t);
        proof {
            assert(txs.deep_view() =~= old_dv + seq![t@]);
            assert(body.skip(i - 1).skip(1) =~= body.skip(i as int));
            if convert_all(body.skip(i as int)) is Ok {
                let ts2 = convert_all(body.skip(i as int))->Ok_0;
                assert(old_dv + (seq![t@] + ts2) =~= (old_dv + seq![t@]) + ts2);
            }
        }
        i = i + 1;
    }
    proof {
        assert(body.skip(i - 1) =~= Seq::<Seq<char>>::empty());
        assert(txs.deep_view() + Seq::<TransactionV>::empty() =~= txs.deep_view());
    }
    Ok(format_output(&txs))
}

} // verus!
