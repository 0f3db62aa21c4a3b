//! The pages that the server gives out.

use vstd::prelude::*;

verus! {

/// What is shown of a page that is read from a file: its content, or why it
/// could not be read.
pub fn page_or_error(name: &str, loaded: Result<String, String>) -> (r: String)
    ensures
        r@ == (match loaded {
            Ok(content) => content@,
            Err(reason) => "failed to load "@ + name@ + " page: "@ + reason@,
        }),
{
    match loaded {
        Ok(content) => content,
        Err(reason) => {
            let mut r = "failed to load ".to_owned();
            r.append(name);
            r.append(" page: ");
            r.append(reason.as_str());
            r
        },
    }
}

} // verus!
