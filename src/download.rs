//! Reading the records that `yt-dlp` prints, four lines to an item.
use vstd::prelude::*;

use crate::text::{lines, split_lines, trim, trimmed, views};

verus! {

/// What `yt-dlp` reports of one item.
#[derive(Debug)]
pub struct Output {
    pub id: String,
    pub title: String,
    /// The approximate size in bytes, as printed: not checked to be a number.
    pub bytes: String,
    pub duration: String,
}

/// What a run of `yt-dlp` gives: what it printed on success, its error output
/// on failure.
pub fn command_result(success: bool, stdout: String, stderr: String) -> (r: Result<
    String,
    String,
>)
    ensures
        success ==> r == Ok::<String, String>(stdout),
        !success ==> r == Err::<String, String>(stderr),
{
    if success {
        Ok(stdout)
    } else {
        Err(stderr)
    }
}

/// Whether `o` is the record made of the trimmed lines `4 * i` to `4 * i + 3` of `ls`.
pub open spec fn is_record(o: Output, ls: Seq<Seq<char>>, i: int) -> bool {
    &&& o.id@ == trim(ls[4 * i])
    &&& o.title@ == trim(ls[4 * i + 1])
    &&& o.bytes@ == trim(ls[4 * i + 2])
    &&& o.duration@ == trim(ls[4 * i + 3])
}

/// Splits what `yt-dlp` printed into records of four trimmed lines each, in order;
/// fewer than four lines left over at the end are dropped.
pub fn parse_output(out: String) -> (r: Vec<Output>)
    ensures
        r.len() == lines(out@).len() / 4,
        forall|i: int| 0 <= i < r.len() ==> is_record(#[trigger] r@[i], lines(out@), i),
{
    let ls = split_lines(out.as_str());
    let ghost all = views(ls@);
    let amount = ls.len() / 4;
    let mut r: Vec<Output> = Vec::new();
    let mut i: usize = 0;
    while i < amount
        invariant
            all == views(ls@),
            all == lines(out@),
            amount == ls.len() / 4,
            i <= amount,
            r.len() == i,
            forall|k: int| 0 <= k < i ==> is_record(#[trigger] r@[k], all, k),
        decreases amount - i,
    {
        assert(4 * i + 3 < ls.len()) by (nonlinear_arith)
            requires
                i < amount,
                amount == ls.len() / 4,
        ;
        let o = Output {
            id: trimmed(ls[4 * i].as_str()),
            title: trimmed(ls[4 * i + 1].as_str()),
            bytes: trimmed(ls[4 * i + 2].as_str()),
            duration: trimmed(ls[4 * i + 3].as_str()),
        };
        r.push(o);
        i = i + 1;
    }
    r
}

} // verus!
