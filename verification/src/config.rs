//! The singleton configuration record backing the sequence
//! allocator.

use vstd::prelude::*;

verus! {

#[derive(Clone, Debug)]
pub struct Config {
    pub id: String,
    pub counter: i64,
}

impl Config {
    pub fn get_counter(&self) -> (r: i64)
        ensures
            r == self.counter,
    {
        self.counter
    }
}

impl Default for Config {
    /// The record the store is seeded with: the counter starts at 1.
    fn default() -> (r: Self)
        ensures
            r.counter == 1 && r.id@ == "CONFIG"@,
    {
        Config { id: "CONFIG".to_owned(), counter: 1 }
    }
}

} // verus!
