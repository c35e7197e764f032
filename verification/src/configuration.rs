//! The configuration document: the strikers of a system, as they are sent
//! to the peer and read back from it.

use vstd::prelude::*;
use crate::striker::{StrikerData, StrikerDataView};

verus! {

#[derive(Debug)]
pub struct Configuration {
    pub strikers: Vec<StrikerData>,
}

impl View for Configuration {
    type V = Seq<StrikerDataView>;

    open spec fn view(&self) -> Seq<StrikerDataView> {
        self.strikers@.map_values(|striker: StrikerData| striker@)
    }
}

} // verus!
