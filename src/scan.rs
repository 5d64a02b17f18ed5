//! Turning what a walk of the version folders saw into project summaries and
//! the identifier-to-path pairs that the cache is filled with.
use vstd::prelude::*;
use crate::cache::{ProjectCache, pairs_map, pairs_view};
use crate::tally::{Stamp, WalkEntry, age_in_days, age_spec, newest_stamp, size_sum, tally_entries};

verus! {

/// One project folder as the walk saw it.
pub struct ProjectFolder {
    /// The folder's absolute path.
    pub path: String,
    /// The folder's base name.
    pub name: String,
    /// Every entry reached by a recursive walk of the folder.
    pub entries: Vec<WalkEntry>,
}

/// The project folders found in the cache directory of one version, in
/// listing order over all user folders.
pub struct VersionFolder {
    /// The product version whose cache directory was listed.
    pub version: u16,
    /// The project folders found in it.
    pub projects: Vec<ProjectFolder>,
}

/// What one project folder looks like to the caller.
#[derive(Debug)]
pub struct ProjectSummary {
    /// Handle for later operations: the folder's path as a string.
    pub identifier: String,
    /// The folder's base name.
    pub display_name: String,
    /// The version under which the folder was found.
    pub version: u16,
    /// Sum of the sizes of the regular files below the folder.
    pub total_size_bytes: u64,
    /// Whole days since the latest modification of a file below the folder.
    pub age_days: u64,
}

/// A project folder as plain sequences.
pub struct ProjectFolderView {
    pub path: Seq<char>,
    pub name: Seq<char>,
    pub entries: Seq<WalkEntry>,
}

/// A version folder as plain sequences.
pub struct VersionFolderView {
    pub version: u16,
    pub projects: Seq<ProjectFolderView>,
}

/// A project summary as plain sequences.
pub struct ProjectSummaryView {
    pub identifier: Seq<char>,
    pub display_name: Seq<char>,
    pub version: u16,
    pub total_size_bytes: u64,
    pub age_days: u64,
}

impl View for ProjectFolder {
    type V = ProjectFolderView;

    open spec fn view(&self) -> ProjectFolderView {
        ProjectFolderView { path: self.path@, name: self.name@, entries: self.entries@ }
    }
}

impl View for VersionFolder {
    type V = VersionFolderView;

    open spec fn view(&self) -> VersionFolderView {
        VersionFolderView { version: self.version, projects: self.projects@.map_values(|p: ProjectFolder| p@) }
    }
}

impl View for ProjectSummary {
    type V = ProjectSummaryView;

    open spec fn view(&self) -> ProjectSummaryView {
        ProjectSummaryView {
            identifier: self.identifier@,
            display_name: self.display_name@,
            version: self.version,
            total_size_bytes: self.total_size_bytes,
            age_days: self.age_days,
        }
    }
}

/// Whether a project's total size can be reported; one whose files add up to
/// more than 64 bits hold is left out of a scan.
pub open spec fn reportable(p: ProjectFolderView) -> bool {
    size_sum(p.entries) <= u64::MAX
}

/// The summary of a reportable project folder found under `version`, seen at
/// time `now`.
pub open spec fn summary_spec(now: Stamp, version: u16, p: ProjectFolderView) -> ProjectSummaryView {
    ProjectSummaryView {
        identifier: p.path,
        display_name: p.name,
        version,
        total_size_bytes: size_sum(p.entries) as u64,
        age_days: age_spec(now, newest_stamp(p.entries)) as u64,
    }
}

/// The summaries of the reportable folders among `ps`, in order.
pub open spec fn version_summaries(now: Stamp, version: u16, ps: Seq<ProjectFolderView>) -> Seq<
    ProjectSummaryView,
>
    decreases ps.len(),
{
    if ps.len() == 0 {
        seq![]
    } else {
        let rest = version_summaries(now, version, ps.drop_last());
        if reportable(ps.last()) {
            rest.push(summary_spec(now, version, ps.last()))
        } else {
            rest
        }
    }
}

/// The summaries of a whole scan: version by version, in order.
pub open spec fn scan_spec(now: Stamp, vs: Seq<VersionFolderView>) -> Seq<ProjectSummaryView>
    decreases vs.len(),
{
    if vs.len() == 0 {
        seq![]
    } else {
        scan_spec(now, vs.drop_last()) + version_summaries(now, vs.last().version, vs.last().projects)
    }
}

/// Scanning the same folders twice gives the same summaries, identifiers
/// included, except that a later scan may report larger ages.
pub proof fn rescan_keeps_summaries(earlier: Stamp, later: Stamp, vs: Seq<VersionFolderView>)
    requires
        earlier.instant() <= later.instant(),
    ensures
        scan_spec(earlier, vs).len() == scan_spec(later, vs).len(),
        forall|i: int|
            0 <= i < scan_spec(earlier, vs).len() ==> {
                let a = #[trigger] scan_spec(earlier, vs)[i];
                let b = scan_spec(later, vs)[i];
                &&& a.identifier == b.identifier
                &&& a.display_name == b.display_name
                &&& a.version == b.version
                &&& a.total_size_bytes == b.total_size_bytes
                &&& a.age_days <= b.age_days
            },
    decreases vs.len(),
{
    if vs.len() > 0 {
        rescan_keeps_summaries(earlier, later, vs.drop_last());
        version_rescan(earlier, later, vs.last().version, vs.last().projects);
    }
}

proof fn version_rescan(earlier: Stamp, later: Stamp, version: u16, ps: Seq<ProjectFolderView>)
    requires
        earlier.instant() <= later.instant(),
    ensures
        version_summaries(earlier, version, ps).len() == version_summaries(later, version, ps).len(),
        forall|i: int|
            0 <= i < version_summaries(earlier, version, ps).len() ==> {
                let a = #[trigger] version_summaries(earlier, version, ps)[i];
                let b = version_summaries(later, version, ps)[i];
                &&& a.identifier == b.identifier
                &&& a.display_name == b.display_name
                &&& a.version == b.version
                &&& a.total_size_bytes == b.total_size_bytes
                &&& a.age_days <= b.age_days
            },
    decreases ps.len(),
{
    if ps.len() > 0 {
        version_rescan(earlier, later, version, ps.drop_last());
        let p = ps.last();
        crate::tally::age_is_monotone(earlier, later, newest_stamp(p.entries));
        crate::tally::lemma_age_fits(later, newest_stamp(p.entries));
    }
}

/// The summaries of a scan and, index for index, the identifier and path of
/// each summarised folder.
pub struct ScanResult {
    /// One summary per reportable project folder, in discovery order.
    pub summaries: Vec<ProjectSummary>,
    /// The identifier and the path of the folder of each summary.
    pub locations: Vec<(String, String)>,
}

/// Summarises one project folder found under `version`, at time `now`. `None`
/// exactly where its size does not fit in 64 bits.
pub fn summarize_project(now: Stamp, version: u16, folder: &ProjectFolder) -> (r: Option<
    ProjectSummary,
>)
    ensures
        r is None <==> !reportable(folder@),
        r matches Some(s) ==> s@ == summary_spec(now, version, folder@),
{
    match tally_entries(&folder.entries) {
        Some(t) => {
            let age = age_in_days(now, t.newest);
            Some(
                ProjectSummary {
                    identifier: folder.path.clone(),
                    display_name: folder.name.clone(),
                    version,
                    total_size_bytes: t.total_size_bytes,
                    age_days: age,
                },
            )
        },
        None => None,
    }
}

/// The view of a sequence of version folders.
pub open spec fn folders_view(vs: Seq<VersionFolder>) -> Seq<VersionFolderView> {
    vs.map_values(|v: VersionFolder| v@)
}

/// The view of a sequence of summaries.
pub open spec fn summaries_view(ss: Seq<ProjectSummary>) -> Seq<ProjectSummaryView> {
    ss.map_values(|s: ProjectSummary| s@)
}

/// Summarises every reportable project folder of `versions` at time `now`, in
/// the order given, and pairs each summary's identifier with the folder's path.
pub fn scan(now: Stamp, versions: &Vec<VersionFolder>) -> (r: ScanResult)
    ensures
        summaries_view(r.summaries@) == scan_spec(now, folders_view(versions@)),
        r.locations@.len() == r.summaries@.len(),
        forall|i: int|
            0 <= i < r.locations@.len() ==> (#[trigger] r.locations@[i]).0@
                == r.summaries@[i].identifier@ && r.locations@[i].1@ == r.summaries@[i].identifier@,
{
    let mut summaries: Vec<ProjectSummary> = Vec::new();
    let mut locations: Vec<(String, String)> = Vec::new();
    let mut i: usize = 0;
    while i < versions.len()
        invariant
            i <= versions@.len(),
            summaries_view(summaries@) == scan_spec(now, folders_view(versions@.take(i as int))),
            locations@.len() == summaries@.len(),
            forall|k: int|
                0 <= k < locations@.len() ==> (#[trigger] locations@[k]).0@
                    == summaries@[k].identifier@ && locations@[k].1@ == summaries@[k].identifier@,
        decreases versions@.len() - i,
    {
        let vf = &versions[i];
        let ghost before = summaries_view(summaries@);
        let mut j: usize = 0;
        while j < vf.projects.len()
            invariant
                i < versions@.len(),
                vf == versions@[i as int],
                j <= vf.projects@.len(),
                summaries_view(summaries@) == before + version_summaries(
                    now,
                    vf.version,
                    vf@.projects.take(j as int),
                ),
                locations@.len() == summaries@.len(),
                forall|k: int|
                    0 <= k < locations@.len() ==> (#[trigger] locations@[k]).0@
                        == summaries@[k].identifier@ && locations@[k].1@
                        == summaries@[k].identifier@,
            decreases vf.projects@.len() - j,
        {
            let folder = &vf.projects[j];
            proof {
                assert(vf@.projects.take(j + 1).drop_last() =~= vf@.projects.take(j as int));
                assert(vf@.projects[j as int] == folder@);
            }
            match summarize_project(now, vf.version, folder) {
                Some(s) => {
                    let ghost prev = summaries@;
                    locations.push((s.identifier.clone(), folder.path.clone()));
                    summaries.push(s);
                    proof {
                        assert(summaries_view(summaries@) =~= summaries_view(prev).push(s@));
                    }
                },
                None => {},
            }
            j = j + 1;
        }
        proof {
            assert(vf@.projects.take(j as int) =~= vf@.projects);
            assert(folders_view(versions@.take(i + 1)).drop_last() =~= folders_view(
                versions@.take(i as int),
            ));
        }
        i = i + 1;
    }
    assert(versions@.take(i as int) =~= versions@);
    ScanResult { summaries, locations }
}

/// The identifier and path pairs that a scan with these summaries records:
/// each summary's identifier is its folder's path.
pub open spec fn summary_locations(ss: Seq<ProjectSummaryView>) -> Seq<(Seq<char>, Seq<char>)> {
    ss.map_values(|s: ProjectSummaryView| (s.identifier, s.identifier))
}

/// Scans `versions` at time `now`, replaces the whole content of `cache` with
/// the identifiers and paths found, and returns the summaries.
pub fn list_projects(cache: &mut ProjectCache, now: Stamp, versions: &Vec<VersionFolder>) -> (r: Vec<
    ProjectSummary,
>)
    requires
        old(cache).wf(),
    ensures
        final(cache).wf(),
        summaries_view(r@) == scan_spec(now, folders_view(versions@)),
        final(cache)@ == pairs_map(summary_locations(scan_spec(now, folders_view(versions@)))),
{
    let ScanResult { summaries, locations } = scan(now, versions);
    proof {
        assert(pairs_view(locations@) =~= summary_locations(summaries_view(summaries@)));
    }
    cache.replace_all(locations);
    summaries
}

} // verus!
