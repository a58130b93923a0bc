//! The snapshot store: the place of the snapshot, and what to start from
//! when there is none.

use vstd::prelude::*;
use vstd::string::*;

use crate::blockchain::chain::{Blockchain, BlockchainView, DEFAULT_DIFFICULTY};

verus! {

/// A store that keeps the snapshot in the file at `file_path`.
pub struct FileStore {
    file_path: String,
}

impl FileStore {
    /// The place of the snapshot.
    pub closed spec fn location(&self) -> Seq<char> {
        self.file_path@
    }

    /// A store on the file at `file_path`.
    pub fn new(file_path: String) -> (store: Self)
        ensures
            store.location() == file_path@,
    {
        Self { file_path }
    }

    /// The place of the snapshot.
    pub fn path(&self) -> (path: &str)
        ensures
            path@ == self.location(),
    {
        self.file_path.as_str()
    }

    /// The ledger to go on with: the one that was read, or, where no
    /// snapshot could be read, a fresh ledger of one genesis block.
    pub fn loaded_or_fresh(loaded: Option<Blockchain>) -> (ledger: Blockchain)
        ensures
            loaded matches Some(found) ==> ledger == found,
            loaded is None ==> {
                &&& ledger@ == BlockchainView::fresh(
                    DEFAULT_DIFFICULTY as nat,
                    ledger@.chain[0].timestamp,
                )
                &&& ledger@.is_linked()
                &&& ledger@.is_valid()
                &&& ledger@.is_sound()
            },
    {
        match loaded {
            Some(found) => found,
            None => Blockchain::new(),
        }
    }
}

} // verus!
