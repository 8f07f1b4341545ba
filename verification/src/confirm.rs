//! The decision kernel of the yes/no confirmation prompt. The prompt loop
//! itself — printing, flushing, reading a line, trimming — is plain I/O
//! and lives with the surrounding command-line tool; it hands the trimmed
//! answer here and repeats on `None`.

use vstd::prelude::*;

verus! {

/// The answers the confirmation prompt accepts: `y` and `yes` confirm,
/// `n` and `no` decline, anything else is unrecognized.
pub open spec fn spec_confirm_answer(s: Seq<u8>) -> Option<bool> {
    if s == seq![121u8] || s == seq![121u8, 101u8, 115u8] {
        Option::Some(true)
    } else if s == seq![110u8] || s == seq![110u8, 111u8] {
        Option::Some(false)
    } else {
        Option::None
    }
}

fn bytes_eq(a: &[u8], b: &[u8]) -> (r: bool)
    ensures
        r == (a@ == b@),
{
    if a.len() != b.len() {
        return false;
    }
    let mut k: usize = 0;
    while k < a.len()
        invariant
            a@.len() == b@.len(),
            0 <= k <= a@.len(),
            forall|t: int| 0 <= t < k ==> a@[t] == b@[t],
        decreases a@.len() - k,
    {
        if a[k] != b[k] {
            return false;
        }
        k = k + 1;
    }
    proof {
        assert(a@ =~= b@);
    }
    true
}

/// Classifies one trimmed line typed at the confirmation prompt: `y` or
/// `yes` confirm, `n` or `no` decline, anything else is unrecognized and
/// the caller asks again.
pub fn confirm_answer(answer: &[u8]) -> (r: Option<bool>)
    ensures
        r == spec_confirm_answer(answer@),
{
    let mut y: Vec<u8> = Vec::new();
    y.push(121);
    let mut yes: Vec<u8> = Vec::new();
    yes.push(121);
    yes.push(101);
    yes.push(115);
    let mut n: Vec<u8> = Vec::new();
    n.push(110);
    let mut no: Vec<u8> = Vec::new();
    no.push(110);
    no.push(111);
    proof {
        assert(y@ =~= seq![121u8]);
        assert(yes@ =~= seq![121u8, 101u8, 115u8]);
        assert(n@ =~= seq![110u8]);
        assert(no@ =~= seq![110u8, 111u8]);
    }
    if bytes_eq(answer, y.as_slice()) || bytes_eq(answer, yes.as_slice()) {
        Option::Some(true)
    } else if bytes_eq(answer, n.as_slice()) || bytes_eq(answer, no.as_slice()) {
        Option::Some(false)
    } else {
        Option::None
    }
}

} // verus!
