use crate::channel::{channel_name, database_path_of, ReleaseChannel};
use crate::package::Package;
use vstd::prelude::*;

verus! {

/// The package listing of the daily channel.
#[derive(Clone, Debug)]
pub struct Daily(Vec<Package>);

impl View for Daily {
    type V = Seq<Package>;

    closed spec fn view(&self) -> Seq<Package> {
        self.0@
    }
}

impl Default for Daily {
    fn default() -> (r: Daily)
        ensures
            r@ == Seq::<Package>::empty(),
    {
        Daily(Vec::new())
    }
}

impl Daily {
    pub fn new(packages: Vec<Package>) -> (r: Daily)
        ensures
            r@ == packages@,
    {
        Daily(packages)
    }

    pub fn packages(&self) -> (r: &Vec<Package>)
        ensures
            r@ == self@,
    {
        &self.0
    }

    pub fn into_packages(self) -> (r: Vec<Package>)
        ensures
            r@ == self@,
    {
        self.0
    }

    pub fn channel(&self) -> (r: ReleaseChannel)
        ensures
            r == ReleaseChannel::Daily,
    {
        ReleaseChannel::Daily
    }

    /// The channel's identifier, `daily`.
    pub fn get_name(&self) -> (r: String)
        ensures
            r@ == channel_name(ReleaseChannel::Daily),
    {
        ReleaseChannel::Daily.get_name()
    }

    /// The database path, `<databases_dir>/daily.bin`.
    pub fn get_db_path(&self, databases_dir: &str) -> (r: String)
        ensures
            r@ == database_path_of(ReleaseChannel::Daily, databases_dir@),
    {
        ReleaseChannel::Daily.get_db_path(databases_dir)
    }
}

} // verus!
