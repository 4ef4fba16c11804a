use vstd::prelude::*;

verus! {

/// The release channels of the build index. Reconciliation and persistence are
/// shared; a channel only supplies its name and, from it, its database file.
#[derive(Clone, Copy, Debug, PartialEq, Eq, Structural)]
pub enum ReleaseChannel {
    Daily,
    ExperimentalLatest,
    ExperimentalArchive,
    PatchLatest,
    PatchArchive,
    StableLatest,
    StableArchive,
    Lts,
}

/// The stable identifier of a channel.
pub open spec fn channel_name(c: ReleaseChannel) -> Seq<char> {
    match c {
        ReleaseChannel::Daily => "daily"@,
        ReleaseChannel::ExperimentalLatest => "experimental_latest"@,
        ReleaseChannel::ExperimentalArchive => "experimental_archive"@,
        ReleaseChannel::PatchLatest => "patch_latest"@,
        ReleaseChannel::PatchArchive => "patch_archive"@,
        ReleaseChannel::StableLatest => "stable_latest"@,
        ReleaseChannel::StableArchive => "stable_archive"@,
        ReleaseChannel::Lts => "lts"@,
    }
}

/// `dir` joined with `file` by one separator: none is added after an empty
/// directory or one that already ends in a separator.
pub open spec fn join_path(dir: Seq<char>, file: Seq<char>) -> Seq<char> {
    if dir.len() == 0 {
        file
    } else if dir.last() == '/' {
        dir + file
    } else {
        dir + seq!['/'] + file
    }
}

/// Where the database of `c` lives under `dir`: `<dir>/<name>.bin`.
pub open spec fn database_path_of(c: ReleaseChannel, dir: Seq<char>) -> Seq<char> {
    join_path(dir, channel_name(c) + ".bin"@)
}

/// Joins a directory and a file name as `join_path` says.
pub fn join_path_str(dir: &str, file: &str) -> (r: String)
    ensures
        r@ == join_path(dir@, file@),
{
    let n = dir.unicode_len();
    if n == 0 {
        String::from_str(file)
    } else if dir.get_char(n - 1) == '/' {
        let mut r = String::from_str(dir);
        r.append(file);
        r
    } else {
        let mut r = String::from_str(dir);
        r.append("/");
        r.append(file);
        proof {
            reveal_strlit("/");
        }
        r
    }
}

impl ReleaseChannel {
    /// The channel's stable identifier, as a string slice.
    pub fn name_str(&self) -> (r: &'static str)
        ensures
            r@ == channel_name(*self),
    {
        match self {
            ReleaseChannel::Daily => "daily",
            ReleaseChannel::ExperimentalLatest => "experimental_latest",
            ReleaseChannel::ExperimentalArchive => "experimental_archive",
            ReleaseChannel::PatchLatest => "patch_latest",
            ReleaseChannel::PatchArchive => "patch_archive",
            ReleaseChannel::StableLatest => "stable_latest",
            ReleaseChannel::StableArchive => "stable_archive",
            ReleaseChannel::Lts => "lts",
        }
    }

    /// The channel's stable identifier.
    pub fn get_name(&self) -> (r: String)
        ensures
            r@ == channel_name(*self),
    {
        String::from_str(self.name_str())
    }

    /// The path of the channel's database under `databases_dir`.
    pub fn get_db_path(&self, databases_dir: &str) -> (r: String)
        ensures
            r@ == database_path_of(*self, databases_dir@),
    {
        let mut file = String::from_str(self.name_str());
        file.append(".bin");
        join_path_str(databases_dir, file.as_str())
    }
}

/// Update counts per channel category, as shown beside each category; `None`
/// where the category has not been checked yet. Archive channels have no badge.
#[derive(Clone, Copy, Debug, Default, PartialEq, Eq, Structural)]
pub struct UpdateCount {
    pub daily: Option<usize>,
    pub experimental: Option<usize>,
    pub patch: Option<usize>,
    pub stable: Option<usize>,
    pub lts: Option<usize>,
}

/// The counts once `count` is recorded for channel `c`.
pub open spec fn with_count(u: UpdateCount, c: ReleaseChannel, count: Option<usize>) -> UpdateCount {
    match c {
        ReleaseChannel::Daily => UpdateCount { daily: count, ..u },
        ReleaseChannel::ExperimentalLatest => UpdateCount { experimental: count, ..u },
        ReleaseChannel::PatchLatest => UpdateCount { patch: count, ..u },
        ReleaseChannel::StableLatest => UpdateCount { stable: count, ..u },
        ReleaseChannel::Lts => UpdateCount { lts: count, ..u },
        _ => u,
    }
}

impl UpdateCount {
    /// No category checked yet.
    pub fn unchecked() -> (r: UpdateCount)
        ensures
            r == (UpdateCount { daily: None, experimental: None, patch: None, stable: None, lts: None }),
    {
        UpdateCount { daily: None, experimental: None, patch: None, stable: None, lts: None }
    }

    /// Records the outcome of reconciling channel `c`.
    pub fn record(&mut self, c: ReleaseChannel, count: Option<usize>)
        ensures
            *final(self) == with_count(*old(self), c, count),
    {
        match c {
            ReleaseChannel::Daily => self.daily = count,
            ReleaseChannel::ExperimentalLatest => self.experimental = count,
            ReleaseChannel::PatchLatest => self.patch = count,
            ReleaseChannel::StableLatest => self.stable = count,
            ReleaseChannel::Lts => self.lts = count,
            _ => {},
        }
    }
}

} // verus!
