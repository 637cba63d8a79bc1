//! Walking a listing that is served in pages, each page asked for by the last
//! item of the one before.

use vstd::prelude::*;

verus! {

/// Takes in the page that came back and says how to go on.
///
/// The page is appended to what has been collected. An empty page ends the
/// listing. After any other page the next one is asked for after the item
/// that is now the last collected, whose position is returned.
pub fn absorb_page<T>(collected: &mut Vec<T>, page: Vec<T>) -> (resume_after: Option<usize>)
    ensures
        final(collected)@ == old(collected)@ + page@,
        page@.len() == 0 ==> resume_after is None,
        page@.len() > 0 ==> resume_after == Some((final(collected)@.len() - 1) as usize),
{
    let mut page = page;
    if page.len() == 0 {
        proof {
            assert(collected@ + page@ =~= collected@);
        }
        return None;
    }
    collected.append(&mut page);
    Some(collected.len() - 1)
}

} // verus!
