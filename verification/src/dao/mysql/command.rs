//! What the durable tier can be asked to do, one round trip at a time.
use vstd::prelude::*;

verus! {

/// One order to the durable tier.
#[derive(Debug, PartialEq, Eq)]
pub enum DbCommand {
    /// Record a new key for a user; the tier assigns the identifier.
    InsertKey { user_id: i64, key: String },
    /// Look a key up by its token.
    FindKey { key: String },
    /// List the keys of a user.
    FindKeysOfUser { user_id: i64 },
    /// Record a URL under the identifier of a key, unless it is recorded there.
    InsertUrl { id: i32, url: String },
    /// List the URLs recorded under the identifier of a key.
    FindUrls { id: i32 },
    /// Delete a URL recorded under the identifier of a key.
    DeleteUrl { id: i32, url: String },
    /// Delete the record of the key with an identifier.
    DeleteKey { id: i32 },
}

/// What a [`DbCommand`] is to a contract.
pub enum DbCommandView {
    InsertKey { user_id: i64, key: Seq<char> },
    FindKey { key: Seq<char> },
    FindKeysOfUser { user_id: i64 },
    InsertUrl { id: i32, url: Seq<char> },
    FindUrls { id: i32 },
    DeleteUrl { id: i32, url: Seq<char> },
    DeleteKey { id: i32 },
}

impl View for DbCommand {
    type V = DbCommandView;

    open spec fn view(&self) -> DbCommandView {
        match self {
            DbCommand::InsertKey { user_id, key } => DbCommandView::InsertKey {
                user_id: *user_id,
                key: key@,
            },
            DbCommand::FindKey { key } => DbCommandView::FindKey { key: key@ },
            DbCommand::FindKeysOfUser { user_id } => DbCommandView::FindKeysOfUser {
                user_id: *user_id,
            },
            DbCommand::InsertUrl { id, url } => DbCommandView::InsertUrl { id: *id, url: url@ },
            DbCommand::FindUrls { id } => DbCommandView::FindUrls { id: *id },
            DbCommand::DeleteUrl { id, url } => DbCommandView::DeleteUrl { id: *id, url: url@ },
            DbCommand::DeleteKey { id } => DbCommandView::DeleteKey { id: *id },
        }
    }
}

} // verus!
