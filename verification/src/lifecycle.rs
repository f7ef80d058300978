//! Lifecycle operations: the state-transition logic for creating,
//! archiving and updating worktrees.
//!
//! Every version-control invocation is described first as an immutable
//! command value — a working directory and an argument list — and the
//! dry-run decision is a single point: a step either yields a command
//! to run or the same command to report. The caller performs the
//! commands and the file I/O; the functions here decide everything.

use vstd::prelude::*;

use crate::OpError;
use crate::config::Config;
use crate::config::ConfigView;
use crate::config::RepoConfig;
use crate::config::RepoConfigView;
use crate::reconcile::fields_of;
use crate::reconcile::lines_of;
use crate::reconcile::split_lines;
use crate::text::contains_seq;
use crate::text::contains_string;
use crate::text::contains_sub;
use crate::text::chars_to_string;
use crate::text::dec_rep;
use crate::text::join_path;
use crate::text::path_join;
use crate::text::to_chars;
use crate::text::usize_to_string;
use vstd::string::StringExecFns;

verus! {

/// The mathematical content of one command: where it runs and its
/// argument list (the version-control tool's name is implicit).
#[verifier::ext_equal]
pub ghost struct CmdView {
    pub cwd: Seq<char>,
    pub args: Seq<Seq<char>>,
}

/// An immutable description of one version-control invocation.
#[derive(Debug)]
pub struct Cmd {
    pub cwd: String,
    pub args: Vec<String>,
}

impl View for Cmd {
    type V = CmdView;

    open spec fn view(&self) -> CmdView {
        CmdView { cwd: self.cwd@, args: self.args.deep_view() }
    }
}

/// A step's decision: perform the command, or only report it (dry run).
#[derive(Debug)]
pub enum Action {
    Run(Cmd),
    Report(Cmd),
}

/// The command an action carries, whichever the decision was.
pub open spec fn action_cmd(a: Action) -> CmdView {
    match a {
        Action::Run(c) => c@,
        Action::Report(c) => c@,
    }
}

/// The canonical (base) working copy: the base branch's directory under
/// the base path.
pub open spec fn base_dir(values: RepoConfigView) -> Seq<char> {
    join_path(values.base_path, values.base_tree)
}

/// The refresh command: a pull in the base working copy.
pub open spec fn pull_cmd_spec(values: RepoConfigView) -> CmdView {
    CmdView { cwd: base_dir(values), args: seq!["pull"@] }
}

/// The command that refreshes the base working copy. It is performed
/// even under dry run, being read-only in effect for the worktree
/// state.
pub fn pull_cmd(values: &RepoConfig) -> (c: Cmd)
    ensures
        c@ == pull_cmd_spec(values@),
{
    let cwd = path_join(&values.base_path, &values.base_tree);
    let mut args: Vec<String> = Vec::new();
    args.push(String::from_str("pull"));
    let c = Cmd { cwd, args };
    proof {
        assert(c@.args =~~= seq!["pull"@]);
        assert(c@ =~~= pull_cmd_spec(values@));
    }
    c
}

/// The listing command: list worktrees, run in the base working copy.
pub open spec fn list_cmd_spec(values: RepoConfigView) -> CmdView {
    CmdView { cwd: base_dir(values), args: seq!["worktree"@, "list"@] }
}

/// The command whose captured output the reconciler parses.
pub fn list_cmd(values: &RepoConfig) -> (c: Cmd)
    ensures
        c@ == list_cmd_spec(values@),
{
    let cwd = path_join(&values.base_path, &values.base_tree);
    let mut args: Vec<String> = Vec::new();
    args.push(String::from_str("worktree"));
    args.push(String::from_str("list"));
    let c = Cmd { cwd, args };
    proof {
        assert(c@.args =~~= seq!["worktree"@, "list"@]);
        assert(c@ =~~= list_cmd_spec(values@));
    }
    c
}

/// The branch-creation command: attempted unconditionally, even when
/// the branch may already exist; the tool's failure in that case is
/// surfaced to the caller, not specially handled.
pub open spec fn branch_cmd_spec(values: RepoConfigView, branch: Seq<char>) -> CmdView {
    CmdView { cwd: base_dir(values), args: seq!["branch"@, branch] }
}

/// Decides the branch-creation step: the command runs unless dry run is
/// set, in which case it is only reported.
pub fn branch_step(values: &RepoConfig, branch: &String, dry_run: bool) -> (a: Action)
    ensures
        action_cmd(a) == branch_cmd_spec(values@, branch@),
        a is Run <==> !dry_run,
{
    let cwd = path_join(&values.base_path, &values.base_tree);
    let mut args: Vec<String> = Vec::new();
    args.push(String::from_str("branch"));
    args.push(branch.clone());
    let c = Cmd { cwd, args };
    proof {
        assert(c@.args =~~= seq!["branch"@, branch@]);
        assert(c@ =~~= branch_cmd_spec(values@, branch@));
    }
    if dry_run {
        Action::Report(c)
    } else {
        Action::Run(c)
    }
}

/// The fresh slot name used when no archived slot can be reused:
/// "tree" followed by the number of directory entries under the base
/// path.
pub open spec fn fresh_slot_name(dir_count: nat) -> Seq<char> {
    "tree"@ + dec_rep(dir_count)
}

/// The worktree path a Create acts on: the oldest archived slot when
/// one exists (first-in, first-out reuse), else a fresh path under the
/// base path named after the current directory count.
pub open spec fn select_slot_spec(values: RepoConfigView, dir_count: nat) -> Seq<char> {
    if values.inactive_trees.len() > 0 {
        values.inactive_trees[0]
    } else {
        join_path(values.base_path, fresh_slot_name(dir_count))
    }
}

/// Chooses the worktree path for a Create. `dir_count` is the number of
/// directory entries under the base path at call time, supplied by the
/// caller. Returns the path and whether it came from the reuse pool.
pub fn select_slot(values: &RepoConfig, dir_count: usize) -> (r: (String, bool))
    ensures
        r.0@ == select_slot_spec(values@, dir_count as nat),
        r.1 <==> values@.inactive_trees.len() > 0,
{
    if values.inactive_trees.len() > 0 {
        let s = values.inactive_trees[0].clone();
        proof {
            assert(values@.inactive_trees[0] == values.inactive_trees@[0]@);
        }
        (s, true)
    } else {
        let mut name = String::from_str("tree");
        let num = usize_to_string(dir_count);
        name.append(num.as_str());
        let path = path_join(&values.base_path, &name);
        (path, false)
    }
}

/// The materialization command. A slot that is already a non-empty
/// directory is a live worktree kept on disk while archived: the branch
/// is switched inside it. Otherwise a worktree-add in the base working
/// copy creates the directory and checks the branch out. (A slot that
/// exists as an empty directory is treated like a missing one and
/// materialized by worktree-add.)
pub open spec fn worktree_cmd_spec(
    values: RepoConfigView,
    branch: Seq<char>,
    path: Seq<char>,
    occupied: bool,
) -> CmdView {
    if occupied {
        CmdView { cwd: path, args: seq!["switch"@, branch] }
    } else {
        CmdView { cwd: base_dir(values), args: seq!["worktree"@, "add"@, path, branch] }
    }
}

/// Decides the materialization step. `occupied` says whether the chosen
/// path exists as a non-empty directory, checked by the caller. The
/// command runs unless dry run is set, in which case it is only
/// reported.
pub fn worktree_step(
    values: &RepoConfig,
    branch: &String,
    path: &String,
    occupied: bool,
    dry_run: bool,
) -> (a: Action)
    ensures
        action_cmd(a) == worktree_cmd_spec(values@, branch@, path@, occupied),
        a is Run <==> !dry_run,
{
    let c = if occupied {
        let mut args: Vec<String> = Vec::new();
        args.push(String::from_str("switch"));
        args.push(branch.clone());
        let c = Cmd { cwd: path.clone(), args };
        proof {
            assert(c@.args =~~= seq!["switch"@, branch@]);
            assert(c@ =~~= worktree_cmd_spec(values@, branch@, path@, occupied));
        }
        c
    } else {
        let cwd = path_join(&values.base_path, &values.base_tree);
        let mut args: Vec<String> = Vec::new();
        args.push(String::from_str("worktree"));
        args.push(String::from_str("add"));
        args.push(path.clone());
        args.push(branch.clone());
        let c = Cmd { cwd, args };
        proof {
            assert(c@.args =~~= seq!["worktree"@, "add"@, path@, branch@]);
            assert(c@ =~~= worktree_cmd_spec(values@, branch@, path@, occupied));
        }
        c
    };
    if dry_run {
        Action::Report(c)
    } else {
        Action::Run(c)
    }
}

/// The archived-slot list after a successful Create: the reused slot —
/// the oldest — leaves the pool; without reuse, and under dry run, the
/// list is untouched.
pub open spec fn finish_create_spec(
    inactive: Seq<Seq<char>>,
    reuse: bool,
    dry_run: bool,
) -> Seq<Seq<char>> {
    if reuse && !dry_run {
        inactive.drop_first()
    } else {
        inactive
    }
}

/// Settles the settings after materialization succeeded: under reuse
/// the oldest archived slot is popped and the settings must be
/// persisted; under dry run, or without reuse, nothing changes and
/// nothing is persisted.
pub fn finish_create(values: &mut RepoConfig, reuse: bool, dry_run: bool) -> (persist: bool)
    requires
        reuse && !dry_run ==> old(values)@.inactive_trees.len() > 0,
    ensures
        persist <==> (reuse && !dry_run),
        final(values)@.base_tree == old(values)@.base_tree,
        final(values)@.base_path == old(values)@.base_path,
        final(values)@.inactive_trees == finish_create_spec(
            old(values)@.inactive_trees,
            reuse,
            dry_run,
        ),
        dry_run ==> final(values)@ == old(values)@,
{
    if reuse && !dry_run {
        let ghost prev = values@.inactive_trees;
        values.inactive_trees.remove(0);
        proof {
            assert(values.inactive_trees@ =~= old(values).inactive_trees@.drop_first());
            assert(values@.inactive_trees =~~= prev.drop_first());
        }
        true
    } else {
        false
    }
}

/// The first listing line whose text contains the branch name, from
/// index `i` on.
pub open spec fn first_match_rec(lines: Seq<Seq<char>>, branch: Seq<char>, i: int) -> Option<
    Seq<char>,
>
    decreases lines.len() - i,
{
    if i < 0 || i >= lines.len() {
        None
    } else if contains_seq(lines[i], branch) {
        Some(lines[i])
    } else {
        first_match_rec(lines, branch, i + 1)
    }
}

/// The first line of the raw listing whose text contains the branch
/// name, if any.
pub open spec fn first_match(raw: Seq<char>, branch: Seq<char>) -> Option<Seq<char>> {
    first_match_rec(lines_of(raw), branch, 0)
}

/// The mathematical outcome of an Archive decision.
#[verifier::ext_equal]
pub ghost enum ArchiveSpec {
    /// No listing line mentions the branch: a successful no-op.
    NotFound,
    /// The matched line has no fields: a fatal parse error.
    Malformed,
    /// The stored configuration does not know its own active
    /// repository: a configuration error.
    NoActiveRepo,
    /// The worktree's path is already archived: a successful no-op.
    AlreadyInactive { path: Seq<char> },
    /// Dry run: the archival is reported, nothing persisted.
    WouldArchive { path: Seq<char> },
    /// The path joins the archived pool; `updated` is what to persist.
    Archived { path: Seq<char>, updated: ConfigView },
}

/// The Archive decision on mathematical values: find the first listing
/// line mentioning the branch, take its first field as the worktree
/// path, and archive it under the stored configuration's active
/// repository unless it already is archived — the caller's settings,
/// with the path appended, replace that repository's entry.
pub open spec fn archive_spec(
    values: RepoConfigView,
    stored: ConfigView,
    raw: Seq<char>,
    branch: Seq<char>,
    dry_run: bool,
) -> ArchiveSpec {
    match first_match(raw, branch) {
        None => ArchiveSpec::NotFound,
        Some(line) => {
            let fs = fields_of(line);
            if fs.len() == 0 {
                ArchiveSpec::Malformed
            } else {
                let path = fs[0];
                if !stored.repos.contains_key(stored.active_repo) {
                    ArchiveSpec::NoActiveRepo
                } else if stored.repos[stored.active_repo].inactive_trees.contains(path) {
                    ArchiveSpec::AlreadyInactive { path }
                } else if dry_run {
                    ArchiveSpec::WouldArchive { path }
                } else {
                    ArchiveSpec::Archived {
                        path,
                        updated: ConfigView {
                            repos: stored.repos.insert(
                                stored.active_repo,
                                RepoConfigView {
                                    base_tree: values.base_tree,
                                    base_path: values.base_path,
                                    inactive_trees: values.inactive_trees.push(path),
                                },
                            ),
                            active_repo: stored.active_repo,
                        },
                    }
                }
            }
        },
    }
}

/// The executable outcome of an Archive decision.
#[derive(Debug)]
pub enum ArchiveOutcome {
    /// No listing line mentions the branch: a successful no-op.
    NotFound,
    /// The worktree's path is already archived: a successful no-op.
    AlreadyInactive { path: String },
    /// Dry run: the archival is reported, nothing persisted.
    WouldArchive { path: String },
    /// The path joined the archived pool; `updated` is what to persist.
    Archived { path: String, updated: Config },
}

/// The mathematical content of an Archive decision's result.
pub open spec fn archive_result_view(r: Result<ArchiveOutcome, OpError>) -> ArchiveSpec {
    match r {
        Ok(o) => match o {
            ArchiveOutcome::NotFound => ArchiveSpec::NotFound,
            ArchiveOutcome::AlreadyInactive { path } => ArchiveSpec::AlreadyInactive {
                path: path@,
            },
            ArchiveOutcome::WouldArchive { path } => ArchiveSpec::WouldArchive { path: path@ },
            ArchiveOutcome::Archived { path, updated } => ArchiveSpec::Archived {
                path: path@,
                updated: updated@,
            },
        },
        Err(OpError::MalformedListing) => ArchiveSpec::Malformed,
        Err(_) => ArchiveSpec::NoActiveRepo,
    }
}

/// Decides an Archive ("delete") operation. `values` is the caller's
/// settings for the repository operated on; `stored` is the
/// configuration as re-read from storage just before mutating — the
/// authoritative copy; `listing` is the raw output of the listing
/// command. Archiving never touches the directory or the worktree
/// registration: it only marks the slot inactive.
pub fn archive_decision(
    values: &RepoConfig,
    stored: Config,
    listing: &String,
    branch: &String,
    dry_run: bool,
) -> (r: Result<ArchiveOutcome, OpError>)
    requires
        stored.wf(),
    ensures
        archive_result_view(r) == archive_spec(values@, stored@, listing@, branch@, dry_run),
        r matches Err(e) ==> e == OpError::MalformedListing || e == OpError::RepoNotFound,
        r matches Ok(o) ==> (o matches ArchiveOutcome::Archived { updated, .. } ==> updated.wf()),
{
    let chars = to_chars(listing.as_str());
    let lines = split_lines(&chars);
    let branch_chars = to_chars(branch.as_str());
    let ghost gl = lines.deep_view();
    let mut i: usize = 0;
    let mut found: Option<usize> = None;
    while i < lines.len()
        invariant_except_break
            i <= lines@.len(),
            gl == lines.deep_view(),
            gl == lines_of(listing@),
            branch_chars@ == branch@,
            found is None,
            first_match_rec(gl, branch@, 0) == first_match_rec(gl, branch@, i as int),
        ensures
            gl == lines.deep_view(),
            gl == lines_of(listing@),
            branch_chars@ == branch@,
            match found {
                None => first_match(listing@, branch@) is None,
                Some(j) => j < lines@.len() && first_match(listing@, branch@) == Some(
                    gl[j as int],
                ) && contains_seq(gl[j as int], branch@),
            },
        decreases lines@.len() - i,
    {
        proof {
            assert(gl[i as int] == lines@[i as int]@);
        }
        if contains_sub(&lines[i], &branch_chars) {
            proof {
                assert(first_match_rec(gl, branch@, i as int) == Some(gl[i as int]));
            }
            found = Some(i);
            break ;
        }
        i += 1;
    }
    let j = match found {
        None => {
            return Ok(ArchiveOutcome::NotFound);
        },
        Some(j) => j,
    };
    let line = &lines[j];
    proof {
        assert(gl[j as int] == lines@[j as int]@);
    }
    let fs = crate::reconcile::split_fields(line);
    if fs.len() == 0 {
        return Err(OpError::MalformedListing);
    }
    proof {
        assert(fs.deep_view()[0] == fs@[0]@);
    }
    let path = chars_to_string(&fs[0]);
    let active = stored.active_repo.clone();
    let current = match stored.get_repo(&active) {
        Some(rc) => rc,
        None => {
            return Err(OpError::RepoNotFound);
        },
    };
    if contains_string(&current.inactive_trees, &path) {
        return Ok(ArchiveOutcome::AlreadyInactive { path });
    }
    if dry_run {
        return Ok(ArchiveOutcome::WouldArchive { path });
    }
    let mut new_values = values.clone();
    let ghost prev_inactive = new_values@.inactive_trees;
    new_values.inactive_trees.push(path.clone());
    proof {
        assert(new_values@.inactive_trees =~~= prev_inactive.push(path@));
        assert(new_values@ =~~= (RepoConfigView {
            base_tree: values@.base_tree,
            base_path: values@.base_path,
            inactive_trees: values@.inactive_trees.push(path@),
        }));
    }
    let mut updated = stored;
    updated.insert_repo(&active, new_values);
    proof {
        assert(updated@ =~~= archive_spec(
            values@,
            stored@,
            listing@,
            branch@,
            dry_run,
        )->Archived_updated);
    }
    Ok(ArchiveOutcome::Archived { path, updated })
}

/// Decides the Update operation: a pull in the base working copy, run
/// unless dry run is set, in which case it is only reported. No
/// configuration is touched either way.
pub fn update_step(values: &RepoConfig, dry_run: bool) -> (a: Action)
    ensures
        action_cmd(a) == pull_cmd_spec(values@),
        a is Run <==> !dry_run,
{
    let c = pull_cmd(values);
    if dry_run {
        Action::Report(c)
    } else {
        Action::Run(c)
    }
}

/// With no archived slot to reuse, Create materializes a fresh slot
/// named `tree` followed by the count of directory entries under the
/// base path, and the pool stays empty.
pub proof fn lemma_create_fresh_slot(values: RepoConfigView, dir_count: nat, dry_run: bool)
    requires
        values.inactive_trees.len() == 0,
    ensures
        select_slot_spec(values, dir_count) == join_path(
            values.base_path,
            "tree"@ + dec_rep(dir_count),
        ),
        finish_create_spec(values.inactive_trees, false, dry_run) == values.inactive_trees,
{
}

/// With a non-empty pool, Create selects the oldest archived slot, and
/// a successful non-dry-run Create removes exactly that element: every
/// other element keeps its order, moved up one place.
pub proof fn lemma_create_reuses_oldest(values: RepoConfigView, dir_count: nat)
    requires
        values.inactive_trees.len() > 0,
    ensures
        select_slot_spec(values, dir_count) == values.inactive_trees[0],
        finish_create_spec(values.inactive_trees, true, false).len() == values.inactive_trees.len()
            - 1,
        forall|j: int| 0 <= j < values.inactive_trees.len() - 1 ==> finish_create_spec(
            values.inactive_trees,
            true,
            false,
        )[j] == values.inactive_trees[j + 1],
{
}

/// Archive is idempotent: when an Archive decision archives a path,
/// a second Archive of the same listing and branch against the
/// persisted result reports the slot already inactive and yields no
/// configuration to persist — whatever settings the caller then holds
/// and whether or not dry run is set.
pub proof fn lemma_archive_idempotent(
    values: RepoConfigView,
    later_values: RepoConfigView,
    stored: ConfigView,
    raw: Seq<char>,
    branch: Seq<char>,
    dry_run: bool,
)
    ensures
        archive_spec(values, stored, raw, branch, false) matches ArchiveSpec::Archived {
            path,
            updated,
        } ==> archive_spec(later_values, updated, raw, branch, dry_run)
            == (ArchiveSpec::AlreadyInactive { path }),
{
    if archive_spec(values, stored, raw, branch, false) is Archived {
        let line = first_match(raw, branch)->0;
        let path = fields_of(line)[0];
        let updated = archive_spec(values, stored, raw, branch, false)->Archived_updated;
        assert(updated.repos.contains_key(updated.active_repo));
        assert(updated.repos[updated.active_repo].inactive_trees.contains(path)) by {
            let s = values.inactive_trees.push(path);
            assert(s[s.len() - 1] == path);
        }
    }
}

/// The dry-run invariant for Archive: a dry-run decision never yields a
/// configuration to persist. (For the command steps the matching
/// guarantee is each step's own contract: under dry run the action is
/// `Report`, never `Run`; and `finish_create` leaves the settings
/// untouched and asks for no persistence.)
pub proof fn lemma_dry_run_archives_nothing(
    values: RepoConfigView,
    stored: ConfigView,
    raw: Seq<char>,
    branch: Seq<char>,
)
    ensures
        !(archive_spec(values, stored, raw, branch, true) is Archived),
{
}

} // verus!
