use vstd::prelude::*;

verus! {

/// Where the chain database to evaluate against lives.
pub struct RethRunnerBuilder {
    pub db_path: String,
}

impl RethRunnerBuilder {
    /// A builder pointing at the current directory.
    pub fn new() -> (r: RethRunnerBuilder)
        ensures
            r.db_path@ == seq!['.', '/'],
    {
        let r = RethRunnerBuilder { db_path: "./".to_string() };
        proof {
            reveal_strlit("./");
        }
        r
    }

    /// Points the builder at `db_path`.
    pub fn with_db_path(&mut self, db_path: String) -> (r: &mut RethRunnerBuilder)
        ensures
            r.db_path@ == db_path@,
            *final(self) == *final(r),
    {
        self.db_path = db_path;
        self
    }
}

} // verus!
