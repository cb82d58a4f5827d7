//! What the client computes before it talks to the server or sends mail.

use vstd::prelude::*;
use crate::text::{int_text, push_int};

verus! {

/// Sends the list by email; sending is not implemented yet and always
/// succeeds.
#[derive(Debug, Clone, Copy)]
pub struct EmailClient;

/// The path of an item on the server: `shopping/items/<id>`.
pub fn item_path(item_id: i32) -> (res: String)
    ensures
        res@ == "shopping/items/"@ + int_text(item_id as int),
{
    let mut s = "shopping/items/".to_owned();
    push_int(&mut s, item_id as i64);
    s
}

} // verus!
