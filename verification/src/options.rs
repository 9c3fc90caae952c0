//! Options of loading, resolving and checking. Each option is set by a method that takes
//! the options and gives them back with that one option changed.
use vstd::prelude::*;

verus! {

/// Which kinds of group members become requirements of the group.
///
/// By default mandatory and default members do and optional members do not, as with
/// dnf's `groupinstall`.
#[derive(Clone, Copy, Debug)]
pub struct GroupInstallOptions {
    pub include_mandatory: bool,
    pub include_default: bool,
    pub include_optional: bool,
}

impl GroupInstallOptions {
    /// Mandatory and default members, no optional ones.
    pub open spec fn defaults() -> GroupInstallOptions {
        GroupInstallOptions {
            include_mandatory: true,
            include_default: true,
            include_optional: false,
        }
    }

    /// The default options.
    pub fn new() -> (r: Self)
        ensures
            r == Self::defaults(),
    {
        Self::default()
    }

    /// Sets whether mandatory members are included.
    pub fn include_mandatory(self, enable: bool) -> (r: Self)
        ensures
            r == (GroupInstallOptions { include_mandatory: enable, ..self }),
    {
        GroupInstallOptions { include_mandatory: enable, ..self }
    }

    /// Sets whether default members are included.
    pub fn include_default(self, enable: bool) -> (r: Self)
        ensures
            r == (GroupInstallOptions { include_default: enable, ..self }),
    {
        GroupInstallOptions { include_default: enable, ..self }
    }

    /// Sets whether optional members are included.
    pub fn include_optional(self, enable: bool) -> (r: Self)
        ensures
            r == (GroupInstallOptions { include_optional: enable, ..self }),
    {
        GroupInstallOptions { include_optional: enable, ..self }
    }
}

impl Default for GroupInstallOptions {
    fn default() -> (r: Self)
        ensures
            r == Self::defaults(),
    {
        GroupInstallOptions {
            include_mandatory: true,
            include_default: true,
            include_optional: false,
        }
    }
}

/// Which optional groups of an environment become requirements of the environment.
///
/// By default those that the environment marks as default do, as with dnf's
/// `environment install`. The choice is carried by [`LoadOptions`] for callers that install
/// environments; loading a repository reads groups alone and passes environments over, so
/// nothing in this library reads it.
#[derive(Clone, Copy, Debug)]
pub struct EnvironmentInstallOptions {
    pub include_default_options: bool,
    pub include_all_options: bool,
}

impl EnvironmentInstallOptions {
    /// Optional groups that are marked as default, and no others.
    pub open spec fn defaults() -> EnvironmentInstallOptions {
        EnvironmentInstallOptions { include_default_options: true, include_all_options: false }
    }

    /// The default options.
    pub fn new() -> (r: Self)
        ensures
            r == Self::defaults(),
    {
        Self::default()
    }

    /// Sets whether optional groups that are marked as default are included.
    pub fn include_default_options(self, enable: bool) -> (r: Self)
        ensures
            r == (EnvironmentInstallOptions { include_default_options: enable, ..self }),
    {
        EnvironmentInstallOptions { include_default_options: enable, ..self }
    }

    /// Sets whether all optional groups are included, marked as default or not.
    pub fn include_all_options(self, enable: bool) -> (r: Self)
        ensures
            r == (EnvironmentInstallOptions { include_all_options: enable, ..self }),
    {
        EnvironmentInstallOptions { include_all_options: enable, ..self }
    }
}

impl Default for EnvironmentInstallOptions {
    fn default() -> (r: Self)
        ensures
            r == Self::defaults(),
    {
        EnvironmentInstallOptions { include_default_options: true, include_all_options: false }
    }
}

/// What is read when a repository is loaded.
///
/// By default only the primary document is read; file lists wait until a file dependency
/// asks for them, groups and advisories are left out.
#[derive(Clone, Copy, Debug)]
pub struct LoadOptions {
    pub load_filelists: bool,
    pub load_groups: bool,
    pub group_options: GroupInstallOptions,
    pub environment_options: EnvironmentInstallOptions,
    pub load_advisories: bool,
}

impl LoadOptions {
    /// No file lists, groups or advisories; groups, where they are asked for, with their
    /// default members.
    pub open spec fn defaults() -> LoadOptions {
        LoadOptions {
            load_filelists: false,
            load_groups: false,
            group_options: GroupInstallOptions::defaults(),
            environment_options: EnvironmentInstallOptions::defaults(),
            load_advisories: false,
        }
    }

    /// The default options.
    pub fn new() -> (r: Self)
        ensures
            r == Self::defaults(),
    {
        Self::default()
    }

    /// Sets whether file lists are read at once rather than when a file dependency asks
    /// for them.
    pub fn load_filelists(self, load: bool) -> (r: Self)
        ensures
            r == (LoadOptions { load_filelists: load, ..self }),
    {
        LoadOptions { load_filelists: load, ..self }
    }

    /// Sets whether package groups are loaded, as packages named `@group-id`.
    pub fn load_groups(self, load: bool) -> (r: Self)
        ensures
            r == (LoadOptions { load_groups: load, ..self }),
    {
        LoadOptions { load_groups: load, ..self }
    }

    /// Sets which kinds of group members become requirements.
    pub fn group_options(self, options: GroupInstallOptions) -> (r: Self)
        ensures
            r == (LoadOptions { group_options: options, ..self }),
    {
        LoadOptions { group_options: options, ..self }
    }

    /// Sets which optional groups of environments become requirements. The choice is carried
    /// and not read: loading passes environments over.
    pub fn environment_options(self, options: EnvironmentInstallOptions) -> (r: Self)
        ensures
            r == (LoadOptions { environment_options: options, ..self }),
    {
        LoadOptions { environment_options: options, ..self }
    }

    /// Sets whether advisories are loaded, as packages named `patch:ADVISORY-ID`.
    pub fn load_advisories(self, load: bool) -> (r: Self)
        ensures
            r == (LoadOptions { load_advisories: load, ..self }),
    {
        LoadOptions { load_advisories: load, ..self }
    }
}

impl Default for LoadOptions {
    fn default() -> (r: Self)
        ensures
            r == Self::defaults(),
    {
        LoadOptions {
            load_filelists: false,
            load_groups: false,
            group_options: GroupInstallOptions::default(),
            environment_options: EnvironmentInstallOptions::default(),
            load_advisories: false,
        }
    }
}

/// Which weak dependencies a resolution pulls in.
///
/// By default recommended packages are pulled in and suggested ones are not, as with dnf.
#[derive(Clone, Copy, Debug)]
pub struct ResolveOptions {
    pub enable_recommends: bool,
    pub enable_suggests: bool,
}

impl ResolveOptions {
    /// Recommended packages, no suggested ones.
    pub open spec fn defaults() -> ResolveOptions {
        ResolveOptions { enable_recommends: true, enable_suggests: false }
    }

    /// The default options.
    pub fn new() -> (r: Self)
        ensures
            r == Self::defaults(),
    {
        Self::default()
    }

    /// Sets whether recommended packages are pulled in.
    pub fn enable_recommends(self, enable: bool) -> (r: Self)
        ensures
            r == (ResolveOptions { enable_recommends: enable, ..self }),
    {
        ResolveOptions { enable_recommends: enable, ..self }
    }

    /// Sets whether suggested packages are pulled in.
    pub fn enable_suggests(self, enable: bool) -> (r: Self)
        ensures
            r == (ResolveOptions { enable_suggests: enable, ..self }),
    {
        ResolveOptions { enable_suggests: enable, ..self }
    }
}

impl Default for ResolveOptions {
    fn default() -> (r: Self)
        ensures
            r == Self::defaults(),
    {
        ResolveOptions { enable_recommends: true, enable_suggests: false }
    }
}

/// Which packages a closure check looks at.
///
/// By default all packages of all repositories.
#[derive(Clone, Debug)]
pub struct ClosureOptions {
    pub check_repos: Vec<usize>,
    pub newest_only: bool,
}

impl ClosureOptions {
    /// The default options.
    pub fn new() -> (r: Self)
        ensures
            r.check_repos@ == Seq::<usize>::empty(),
            !r.newest_only,
    {
        Self::default()
    }

    /// Sets the repositories whose packages are checked; an empty list stands for all.
    /// Packages of other repositories still satisfy dependencies.
    pub fn check_repos(self, repos: Vec<usize>) -> (r: Self)
        ensures
            r == (ClosureOptions { check_repos: repos, ..self }),
    {
        ClosureOptions { check_repos: repos, newest_only: self.newest_only }
    }

    /// Sets whether only the newest version of each name and architecture is checked.
    /// Older versions still satisfy dependencies.
    pub fn newest_only(self, newest: bool) -> (r: Self)
        ensures
            r == (ClosureOptions { newest_only: newest, ..self }),
    {
        ClosureOptions { check_repos: self.check_repos, newest_only: newest }
    }
}

impl Default for ClosureOptions {
    fn default() -> (r: Self)
        ensures
            r.check_repos@ == Seq::<usize>::empty(),
            !r.newest_only,
    {
        ClosureOptions { check_repos: Vec::new(), newest_only: false }
    }
}

} // verus!
