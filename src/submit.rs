use vstd::prelude::*;

verus! {

/// How the daemon answered a request to add one item.
#[derive(Debug, PartialEq, Eq)]
pub enum SubmitOutcome {
    /// The daemon registered the download.
    Accepted,
    /// The daemon answered but declined the download.
    Rejected { reason: String },
    /// The call to the daemon failed.
    TransportError,
}

/// The daemon's answer registers the job when it names the added torrent or
/// its status is `success`.
pub open spec fn reply_accepts(added: bool, result: Seq<char>) -> bool {
    added || result == "success"@
}

fn texts_equal(a: &str, b: &str) -> (r: bool)
    ensures
        r == (a@ == b@),
{
    let n = a.unicode_len();
    if n != b.unicode_len() {
        return false;
    }
    let mut i: usize = 0;
    while i < n
        invariant
            i <= n,
            n == a@.len(),
            n == b@.len(),
            forall|j: int| 0 <= j < i ==> a@[j] == b@[j],
        decreases n - i,
    {
        if a.get_char(i) != b.get_char(i) {
            return false;
        }
        i = i + 1;
    }
    assert(a@ =~= b@);
    true
}

/// Sorts an answer of the daemon: the status text and whether it named the
/// added torrent.
pub fn classify_reply(added: bool, result: String) -> (r: SubmitOutcome)
    ensures
        reply_accepts(added, result@) ==> r == SubmitOutcome::Accepted,
        !reply_accepts(added, result@) ==> r == (SubmitOutcome::Rejected { reason: result }),
{
    if added {
        return SubmitOutcome::Accepted;
    }
    if texts_equal(result.as_str(), "success") {
        SubmitOutcome::Accepted
    } else {
        SubmitOutcome::Rejected { reason: result }
    }
}

} // verus!
