use vstd::prelude::*;

verus! {

/// The Estes C6 model rocket motor, whose thrust over time the simulator
/// looks up in a table read from `csv/Estes_C6.csv`.
pub struct EstesC6;

} // verus!
