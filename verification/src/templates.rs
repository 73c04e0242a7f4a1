use vstd::prelude::*;

verus! {

/// The values the index page template is rendered with.
#[derive(Debug)]
pub struct IndexTemplate {
    pub name: String,
    pub text: String,
}

} // verus!
