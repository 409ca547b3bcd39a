//! The transcription pass: turns the library's source records into the
//! output collection of library items.

use vstd::prelude::*;

use crate::knowledge::{LibraryInfo, LibraryItem};

verus! {

/// Converts one library source record, pairing it with the body text read
/// beside it, into an output item.
pub fn convert_info(info: &LibraryInfo, article: &String) -> (r: LibraryItem)
    ensures
        r.id@ == info.id@,
        r.title@ == info.title@,
        r.summary@ == info.summary@,
        r.article@ == article@,
{
    LibraryItem {
        id: info.id.clone(),
        title: info.title.clone(),
        summary: info.summary.clone(),
        article: article.clone(),
    }
}

/// Runs the transcription pass.
pub struct Transcriptor;

impl Transcriptor {
    /// Builds the output library collection: one item per source record,
    /// each paired with the body text that was read beside it.
    pub fn transcribe(infos: &Vec<LibraryInfo>, articles: &Vec<String>) -> (r: Vec<LibraryItem>)
        requires
            infos@.len() == articles@.len(),
        ensures
            r@.len() == infos@.len(),
            forall|i: int|
                0 <= i < infos@.len() ==> (#[trigger] r@[i]).id@ == infos@[i].id@ && r@[i].title@
                    == infos@[i].title@ && r@[i].summary@ == infos@[i].summary@ && r@[i].article@
                    == articles@[i]@,
    {
        let n = infos.len();
        let mut items: Vec<LibraryItem> = Vec::new();
        for i in 0..n
            invariant
                n == infos@.len(),
                n == articles@.len(),
                items@.len() == i,
                forall|j: int|
                    0 <= j < i ==> (#[trigger] items@[j]).id@ == infos@[j].id@ && items@[j].title@
                        == infos@[j].title@ && items@[j].summary@ == infos@[j].summary@
                        && items@[j].article@ == articles@[j]@,
        {
            items.push(convert_info(&infos[i], &articles[i]));
        }
        items
    }
}

} // verus!
