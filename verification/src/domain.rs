//! The workspace model: members with their version fields, package
//! selection, and the in-memory version operations (roll, set, sync,
//! show, lint).
use vstd::prelude::*;
use vstd::string::*;

use crate::text::lex_le;
use crate::text::str_eq;
use crate::text::str_le;
use crate::text::i32_to_string;
use crate::text::dec_int_str;
use crate::version::spec_apply_to_version;
use crate::version::spec_error_message;
use crate::version::semver_parse;
use crate::version::parse_semver;
use crate::version::VersionBump;
use crate::version::amount_of;
use crate::version::VersionError;
use crate::version::VersionErrorView;

verus! {

/// The version declaration found in a manifest: none at all, an explicit
/// string, or a marker deferring to the workspace-level version.
#[derive(Debug, Clone, PartialEq)]
pub enum VersionField {
    Absent,
    Concrete(String),
    Inherited,
}

/// The mathematical value of a `VersionField`.
pub enum VersionFieldView {
    Absent,
    Concrete(Seq<char>),
    Inherited,
}

impl View for VersionField {
    type V = VersionFieldView;

    open spec fn view(&self) -> VersionFieldView {
        match self {
            VersionField::Absent => VersionFieldView::Absent,
            VersionField::Concrete(s) => VersionFieldView::Concrete(s@),
            VersionField::Inherited => VersionFieldView::Inherited,
        }
    }
}

/// A workspace member, which can be a Rust package or a Node.js package.
/// `path` is the location of the member's directory.
#[derive(Debug, Clone)]
pub enum WorkspaceMember {
    Cargo { name: String, path: String, version: VersionField },
    Node { name: String, path: String, version: VersionField },
}

/// The mathematical value of a `WorkspaceMember`.
pub struct MemberView {
    pub cargo: bool,
    pub name: Seq<char>,
    pub path: Seq<char>,
    pub version: VersionFieldView,
}

impl View for WorkspaceMember {
    type V = MemberView;

    open spec fn view(&self) -> MemberView {
        match self {
            WorkspaceMember::Cargo { name, path, version } => MemberView {
                cargo: true,
                name: name@,
                path: path@,
                version: version@,
            },
            WorkspaceMember::Node { name, path, version } => MemberView {
                cargo: false,
                name: name@,
                path: path@,
                version: version@,
            },
        }
    }
}

/// The same member with another version field.
pub open spec fn member_with_version(m: MemberView, f: VersionFieldView) -> MemberView {
    MemberView { cargo: m.cargo, name: m.name, path: m.path, version: f }
}

impl WorkspaceMember {
    /// The name of the package.
    pub fn name(&self) -> (r: &str)
        ensures
            r@ == self@.name,
    {
        match self {
            WorkspaceMember::Cargo { name, .. } => name.as_str(),
            WorkspaceMember::Node { name, .. } => name.as_str(),
        }
    }

    /// The path of the package directory.
    pub fn path(&self) -> (r: &String)
        ensures
            r@ == self@.path,
    {
        match self {
            WorkspaceMember::Cargo { path, .. } => path,
            WorkspaceMember::Node { path, .. } => path,
        }
    }

    /// The version field of the package.
    pub fn version(&self) -> (r: &VersionField)
        ensures
            r@ == self@.version,
    {
        match self {
            WorkspaceMember::Cargo { version, .. } => version,
            WorkspaceMember::Node { version, .. } => version,
        }
    }

    /// Replaces the version field, keeping name, path and ecosystem.
    pub fn set_version(&mut self, new_version: VersionField)
        ensures
            final(self)@ == member_with_version(old(self)@, new_version@),
    {
        let is_cargo = match self {
            WorkspaceMember::Cargo { .. } => true,
            WorkspaceMember::Node { .. } => false,
        };
        let (name, path) = match self {
            WorkspaceMember::Cargo { name, path, .. } => (name.clone(), path.clone()),
            WorkspaceMember::Node { name, path, .. } => (name.clone(), path.clone()),
        };
        *self = if is_cargo {
            WorkspaceMember::Cargo { name, path, version: new_version }
        } else {
            WorkspaceMember::Node { name, path, version: new_version }
        };
    }
}

/// A request describing which members an operation touches: named
/// packages, the whole workspace, or the default root-only scope, each
/// minus an exclude list.
#[derive(Debug, Clone, PartialEq)]
pub struct PackageSelection {
    pub packages: Vec<String>,
    pub workspace: bool,
    pub exclude: Vec<String>,
}

/// The mathematical value of a `PackageSelection`.
pub struct SelectionView {
    pub packages: Seq<Seq<char>>,
    pub workspace: bool,
    pub exclude: Seq<Seq<char>>,
}

/// The views of a sequence of strings.
pub open spec fn names_view(v: Seq<String>) -> Seq<Seq<char>> {
    Seq::new(v.len(), |i: int| v[i]@)
}

impl View for PackageSelection {
    type V = SelectionView;

    open spec fn view(&self) -> SelectionView {
        SelectionView {
            packages: names_view(self.packages@),
            workspace: self.workspace,
            exclude: names_view(self.exclude@),
        }
    }
}

impl PackageSelection {
    /// Selects every workspace member.
    pub fn workspace() -> (r: PackageSelection)
        ensures
            r@.packages.len() == 0,
            r@.workspace,
            r@.exclude.len() == 0,
    {
        PackageSelection { packages: Vec::new(), workspace: true, exclude: Vec::new() }
    }

    /// Selects only the root member.
    pub fn root_only() -> (r: PackageSelection)
        ensures
            r@.packages.len() == 0,
            !r@.workspace,
            r@.exclude.len() == 0,
    {
        PackageSelection { packages: Vec::new(), workspace: false, exclude: Vec::new() }
    }

    /// Selects exactly the named packages.
    pub fn packages(packages: Vec<String>) -> (r: PackageSelection)
        ensures
            r@.packages == names_view(packages@),
            !r@.workspace,
            r@.exclude.len() == 0,
    {
        PackageSelection { packages, workspace: false, exclude: Vec::new() }
    }
}

/// One recorded version mutation.
#[derive(Debug, Clone)]
pub struct VersionChange {
    pub package: String,
    pub old_version: String,
    pub new_version: String,
    pub path: String,
}

/// The mathematical value of a `VersionChange`.
pub struct ChangeView {
    pub package: Seq<char>,
    pub old_version: Seq<char>,
    pub new_version: Seq<char>,
    pub path: Seq<char>,
}

impl View for VersionChange {
    type V = ChangeView;

    open spec fn view(&self) -> ChangeView {
        ChangeView {
            package: self.package@,
            old_version: self.old_version@,
            new_version: self.new_version@,
            path: self.path@,
        }
    }
}

/// What one invocation did: its label and the ordered changes.
#[derive(Debug)]
pub struct OperationResult {
    pub changes: Vec<VersionChange>,
    pub operation: String,
}

/// The mathematical value of an `OperationResult`.
pub struct OperationResultView {
    pub changes: Seq<ChangeView>,
    pub operation: Seq<char>,
}

/// The views of a sequence of changes.
pub open spec fn changes_view(cs: Seq<VersionChange>) -> Seq<ChangeView> {
    Seq::new(cs.len(), |i: int| cs[i]@)
}

impl View for OperationResult {
    type V = OperationResultView;

    open spec fn view(&self) -> OperationResultView {
        OperationResultView { changes: changes_view(self.changes@), operation: self.operation@ }
    }
}

impl OperationResult {
    /// An empty result for the given operation label.
    pub fn new(operation: String) -> (r: OperationResult)
        ensures
            r@.operation == operation@,
            r@.changes.len() == 0,
    {
        OperationResult { changes: Vec::new(), operation }
    }

    /// Records one more change.
    pub fn add_change(&mut self, change: VersionChange)
        ensures
            final(self)@.operation == old(self)@.operation,
            final(self)@.changes == old(self)@.changes.push(change@),
    {
        self.changes.push(change);
        proof {
            assert(final(self)@.changes =~= old(self)@.changes.push(change@));
        }
    }

    /// Whether any member was actually mutated.
    pub fn has_changes(&self) -> (r: bool)
        ensures
            r == (self@.changes.len() > 0),
    {
        self.changes.len() > 0
    }
}

/// A lint finding for one member.
#[derive(Debug)]
pub struct LintError {
    pub member: String,
    pub message: String,
}

/// The mathematical value of a `LintError`.
pub struct LintErrorView {
    pub member: Seq<char>,
    pub message: Seq<char>,
}

impl View for LintError {
    type V = LintErrorView;

    open spec fn view(&self) -> LintErrorView {
        LintErrorView { member: self.member@, message: self.message@ }
    }
}

/// Why a workspace operation failed.
#[derive(Debug)]
pub enum OperationError {
    /// A requested package is not in the workspace.
    PackageNotFound { name: String },
    /// The default scope found no members at all.
    EmptyWorkspace,
    /// The version engine rejected a bump.
    Version(VersionError),
}

/// The mathematical value of an `OperationError`.
pub enum OperationErrorView {
    PackageNotFound { name: Seq<char> },
    EmptyWorkspace,
    Version(VersionErrorView),
}

impl View for OperationError {
    type V = OperationErrorView;

    open spec fn view(&self) -> OperationErrorView {
        match self {
            OperationError::PackageNotFound { name } => OperationErrorView::PackageNotFound {
                name: name@,
            },
            OperationError::EmptyWorkspace => OperationErrorView::EmptyWorkspace,
            OperationError::Version(e) => OperationErrorView::Version(e@),
        }
    }
}

/// The exact text of each operation error.
pub open spec fn spec_operation_error_message(e: OperationErrorView) -> Seq<char> {
    match e {
        OperationErrorView::PackageNotFound { name } => "Package '"@ + name
            + "' not found in workspace"@,
        OperationErrorView::EmptyWorkspace => "No packages found in workspace"@,
        OperationErrorView::Version(v) => spec_error_message(v),
    }
}

impl OperationError {
    /// The error rendered as one line of text.
    pub fn message(&self) -> (s: String)
        ensures
            s@ == spec_operation_error_message(self@),
    {
        match self {
            OperationError::PackageNotFound { name } => {
                let mut s = "Package '".to_owned();
                s.append(name.as_str());
                s.append("' not found in workspace");
                proof {
                    assert(s@ =~= spec_operation_error_message(self@));
                }
                s
            },
            OperationError::EmptyWorkspace => "No packages found in workspace".to_owned(),
            OperationError::Version(e) => e.message(),
        }
    }
}

/// A workspace: an ordered collection of members.
#[derive(Debug, Clone)]
pub struct Workspace {
    /// The members of the workspace.
    pub members: Vec<WorkspaceMember>,
}

/// The views of a sequence of members.
pub open spec fn members_view(ms: Seq<WorkspaceMember>) -> Seq<MemberView> {
    Seq::new(ms.len(), |i: int| ms[i]@)
}

impl View for Workspace {
    type V = Seq<MemberView>;

    open spec fn view(&self) -> Seq<MemberView> {
        members_view(self.members@)
    }
}

/// Whether `name` occurs in `names`.
pub open spec fn name_in(names: Seq<Seq<char>>, name: Seq<char>) -> bool {
    exists|i: int| 0 <= i < names.len() && names[i] == name
}

/// The first member index at or after `i` whose name is `name`.
pub open spec fn find_from(members: Seq<MemberView>, name: Seq<char>, i: int) -> Option<int>
    decreases members.len() - i,
{
    if i < 0 || i >= members.len() {
        None
    } else if members[i].name == name {
        Some(i)
    } else {
        find_from(members, name, i + 1)
    }
}

/// The indices selected for an explicit package list, in the order the
/// names were given: excluded names are skipped, and the first name that
/// names no member is the error.
pub open spec fn spec_select_specific(
    members: Seq<MemberView>,
    names: Seq<Seq<char>>,
    exclude: Seq<Seq<char>>,
) -> Result<Seq<int>, Seq<char>>
    decreases names.len(),
{
    if names.len() == 0 {
        Ok(Seq::empty())
    } else if name_in(exclude, names[0]) {
        spec_select_specific(members, names.drop_first(), exclude)
    } else {
        match find_from(members, names[0], 0) {
            None => Err(names[0]),
            Some(i) => match spec_select_specific(members, names.drop_first(), exclude) {
                Ok(rest) => Ok(seq![i] + rest),
                Err(e) => Err(e),
            },
        }
    }
}

/// The indices selected for whole-workspace scope, in workspace order,
/// skipping excluded names.
pub open spec fn spec_select_workspace(
    members: Seq<MemberView>,
    exclude: Seq<Seq<char>>,
    i: int,
) -> Seq<int>
    decreases members.len() - i,
{
    if i < 0 || i >= members.len() {
        Seq::empty()
    } else if name_in(exclude, members[i].name) {
        spec_select_workspace(members, exclude, i + 1)
    } else {
        seq![i] + spec_select_workspace(members, exclude, i + 1)
    }
}

/// Which member indices a selection resolves to, or why it fails:
/// explicit names take precedence, then whole-workspace scope, and the
/// default scope is the single root member (empty when the root is
/// excluded, an error when the workspace has no members).
pub open spec fn spec_select(members: Seq<MemberView>, sel: SelectionView) -> Result<
    Seq<int>,
    OperationErrorView,
> {
    if sel.packages.len() > 0 {
        match spec_select_specific(members, sel.packages, sel.exclude) {
            Ok(s) => Ok(s),
            Err(n) => Err(OperationErrorView::PackageNotFound { name: n }),
        }
    } else if sel.workspace {
        Ok(spec_select_workspace(members, sel.exclude, 0))
    } else if members.len() == 0 {
        Err(OperationErrorView::EmptyWorkspace)
    } else if name_in(sel.exclude, members[0].name) {
        Ok(Seq::empty())
    } else {
        Ok(seq![0int])
    }
}

/// Every index found by `find_from` is in range and names the member.
proof fn lemma_find_from_range(members: Seq<MemberView>, name: Seq<char>, i: int)
    ensures
        find_from(members, name, i) matches Some(k) ==> i <= k < members.len() && members[k].name
            == name,
    decreases members.len() - i,
{
    if !(i < 0 || i >= members.len()) && members[i].name != name {
        lemma_find_from_range(members, name, i + 1);
    }
}

/// Every index selected for an explicit list is in range.
proof fn lemma_select_specific_range(
    members: Seq<MemberView>,
    names: Seq<Seq<char>>,
    exclude: Seq<Seq<char>>,
)
    ensures
        spec_select_specific(members, names, exclude) matches Ok(idxs) ==> forall|j: int|
            0 <= j < idxs.len() ==> 0 <= #[trigger] idxs[j] < members.len(),
    decreases names.len(),
{
    if names.len() > 0 {
        lemma_select_specific_range(members, names.drop_first(), exclude);
        lemma_find_from_range(members, names[0], 0);
    }
}

/// Every index selected for whole-workspace scope is in range.
proof fn lemma_select_workspace_range(
    members: Seq<MemberView>,
    exclude: Seq<Seq<char>>,
    i: int,
)
    ensures
        forall|j: int|
            0 <= j < spec_select_workspace(members, exclude, i).len() ==> 0
                <= #[trigger] spec_select_workspace(members, exclude, i)[j] < members.len(),
    decreases members.len() - i,
{
    if !(i < 0 || i >= members.len()) {
        lemma_select_workspace_range(members, exclude, i + 1);
        let rest = spec_select_workspace(members, exclude, i + 1);
        if !name_in(exclude, members[i].name) {
            let whole = spec_select_workspace(members, exclude, i);
            assert(whole == seq![i] + rest);
            assert forall|j: int| 0 <= j < whole.len() implies 0 <= #[trigger] whole[j]
                < members.len() by {
                if j > 0 {
                    assert(whole[j] == rest[j - 1]);
                }
            }
        }
    }
}

/// Every index a selection resolves to is in range.
pub proof fn lemma_select_range(members: Seq<MemberView>, sel: SelectionView)
    ensures
        spec_select(members, sel) matches Ok(idxs) ==> forall|j: int|
            0 <= j < idxs.len() ==> 0 <= #[trigger] idxs[j] < members.len(),
{
    lemma_select_specific_range(members, sel.packages, sel.exclude);
    lemma_select_workspace_range(members, sel.exclude, 0);
}

/// The views of a sequence of indices.
pub open spec fn idxs_view(v: Seq<usize>) -> Seq<int> {
    Seq::new(v.len(), |i: int| v[i] as int)
}

/// `skip` peels one element at a time.
proof fn lemma_skip_step<A>(s: Seq<A>, k: int)
    requires
        0 <= k < s.len(),
    ensures
        s.skip(k).len() == s.len() - k,
        s.skip(k)[0] == s[k],
        s.skip(k).drop_first() =~= s.skip(k + 1),
{
}

/// Whether `name` occurs among the strings of `names`.
fn contains_name(names: &Vec<String>, name: &str) -> (r: bool)
    ensures
        r == name_in(names_view(names@), name@),
{
    let mut i: usize = 0;
    while i < names.len()
        invariant
            0 <= i <= names@.len(),
            forall|j: int| 0 <= j < i ==> names_view(names@)[j] != name@,
        decreases names@.len() - i,
    {
        if str_eq(names[i].as_str(), name) {
            assert(names_view(names@)[i as int] == name@);
            return true;
        }
        i = i + 1;
    }
    false
}

/// The first member whose name is `name`, if any.
fn find_member_index(members: &Vec<WorkspaceMember>, name: &str) -> (r: Option<usize>)
    ensures
        (match r {
            Some(k) => Some(k as int),
            None => None::<int>,
        }) == find_from(members_view(members@), name@, 0),
{
    let mut i: usize = 0;
    while i < members.len()
        invariant
            0 <= i <= members@.len(),
            find_from(members_view(members@), name@, 0) == find_from(
                members_view(members@),
                name@,
                i as int,
            ),
        decreases members@.len() - i,
    {
        if str_eq(members[i].name(), name) {
            return Some(i);
        }
        i = i + 1;
    }
    None
}

fn select_specific_rec(
    members: &Vec<WorkspaceMember>,
    packages: &Vec<String>,
    exclude: &Vec<String>,
    k: usize,
) -> (r: Result<Vec<usize>, OperationError>)
    requires
        k <= packages@.len(),
    ensures
        (match r {
            Ok(v) => Ok::<Seq<int>, Seq<char>>(idxs_view(v@)),
            Err(e) => match e@ {
                OperationErrorView::PackageNotFound { name } => Err(name),
                _ => Err(Seq::empty()),
            },
        }) == spec_select_specific(
            members_view(members@),
            names_view(packages@).skip(k as int),
            names_view(exclude@),
        ),
        r is Err ==> (r matches Err(e) && e@ is PackageNotFound),
    decreases packages@.len() - k,
{
    let ghost names = names_view(packages@);
    if k == packages.len() {
        let v: Vec<usize> = Vec::new();
        proof {
            assert(names.skip(k as int) =~= Seq::<Seq<char>>::empty());
            assert(idxs_view(v@) =~= Seq::<int>::empty());
        }
        return Ok(v);
    }
    proof {
        lemma_skip_step(names, k as int);
    }
    let nm = &packages[k];
    if contains_name(exclude, nm.as_str()) {
        select_specific_rec(members, packages, exclude, k + 1)
    } else {
        match find_member_index(members, nm.as_str()) {
            None => Err(OperationError::PackageNotFound { name: nm.clone() }),
            Some(i) => {
                match select_specific_rec(members, packages, exclude, k + 1) {
                    Ok(mut rest) => {
                        let mut v: Vec<usize> = Vec::new();
                        v.push(i);
                        v.append(&mut rest);
                        proof {
                            let full = spec_select_specific(
                                members_view(members@),
                                names.skip(k as int),
                                names_view(exclude@),
                            );
                            assert(idxs_view(v@) =~= full->Ok_0);
                        }
                        Ok(v)
                    },
                    Err(e) => Err(e),
                }
            },
        }
    }
}

fn select_workspace_rec(
    members: &Vec<WorkspaceMember>,
    exclude: &Vec<String>,
    k: usize,
) -> (r: Vec<usize>)
    requires
        k <= members@.len(),
    ensures
        idxs_view(r@) == spec_select_workspace(
            members_view(members@),
            names_view(exclude@),
            k as int,
        ),
    decreases members@.len() - k,
{
    if k == members.len() {
        let v: Vec<usize> = Vec::new();
        proof {
            assert(idxs_view(v@) =~= spec_select_workspace(
                members_view(members@),
                names_view(exclude@),
                k as int,
            ));
        }
        return v;
    }
    if contains_name(exclude, members[k].name()) {
        select_workspace_rec(members, exclude, k + 1)
    } else {
        let mut rest = select_workspace_rec(members, exclude, k + 1);
        let mut v: Vec<usize> = Vec::new();
        v.push(k);
        v.append(&mut rest);
        proof {
            assert(idxs_view(v@) =~= spec_select_workspace(
                members_view(members@),
                names_view(exclude@),
                k as int,
            ));
        }
        v
    }
}

impl Workspace {
    /// Resolves a selection to the ordered member indices it touches.
    fn select_member_indices(&self, selection: &PackageSelection) -> (r: Result<
        Vec<usize>,
        OperationError,
    >)
        ensures
            (match r {
                Ok(v) => Ok::<Seq<int>, OperationErrorView>(idxs_view(v@)),
                Err(e) => Err(e@),
            }) == spec_select(self@, selection@),
    {
        if selection.packages.len() > 0 {
            proof {
                assert(names_view(selection.packages@).skip(0) =~= names_view(
                    selection.packages@,
                ));
            }
            select_specific_rec(&self.members, &selection.packages, &selection.exclude, 0)
        } else if selection.workspace {
            Ok(select_workspace_rec(&self.members, &selection.exclude, 0))
        } else if self.members.len() == 0 {
            Err(OperationError::EmptyWorkspace)
        } else if contains_name(&selection.exclude, self.members[0].name()) {
            let v: Vec<usize> = Vec::new();
            proof {
                assert(idxs_view(v@) =~= Seq::<int>::empty());
            }
            Ok(v)
        } else {
            let mut v: Vec<usize> = Vec::new();
            v.push(0);
            proof {
                assert(idxs_view(v@) =~= seq![0int]);
            }
            Ok(v)
        }
    }
}

/// What a roll pass leaves behind: either every selected member
/// processed, or the state at the first version-engine failure.
pub enum RollOutcome {
    Done { members: Seq<MemberView>, changes: Seq<ChangeView> },
    Fail { members: Seq<MemberView>, err: VersionErrorView },
}

/// Applies a bump to the members at `idxs`, in order. Members without a
/// concrete version are skipped; a member whose version the engine
/// rejects stops the pass, leaving the members processed so far mutated
/// in memory. A member whose version does not change is not recorded.
pub open spec fn spec_roll(members: Seq<MemberView>, idxs: Seq<int>, b: VersionBump) -> RollOutcome
    decreases idxs.len(),
{
    if idxs.len() == 0 {
        RollOutcome::Done { members, changes: Seq::empty() }
    } else {
        let i = idxs[0];
        if !(0 <= i < members.len()) {
            spec_roll(members, idxs.drop_first(), b)
        } else {
            match members[i].version {
                VersionFieldView::Concrete(cur) => match spec_apply_to_version(b, cur) {
                    Err(e) => RollOutcome::Fail { members, err: e },
                    Ok(nv) => if nv != cur {
                        let m2 = member_with_version(members[i], VersionFieldView::Concrete(nv));
                        let ch = ChangeView {
                            package: members[i].name,
                            old_version: cur,
                            new_version: nv,
                            path: members[i].path,
                        };
                        match spec_roll(members.update(i, m2), idxs.drop_first(), b) {
                            RollOutcome::Done { members: mm, changes: cc } => RollOutcome::Done {
                                members: mm,
                                changes: seq![ch] + cc,
                            },
                            RollOutcome::Fail { members: mm, err } => RollOutcome::Fail {
                                members: mm,
                                err,
                            },
                        }
                    } else {
                        spec_roll(members, idxs.drop_first(), b)
                    },
                },
                _ => spec_roll(members, idxs.drop_first(), b),
            }
        }
    }
}

/// Sets the members at `idxs` to the literal version `v`, in order,
/// skipping members without a concrete version and recording only the
/// members whose version actually changes.
pub open spec fn spec_set(members: Seq<MemberView>, idxs: Seq<int>, v: Seq<char>) -> (
    Seq<MemberView>,
    Seq<ChangeView>,
)
    decreases idxs.len(),
{
    if idxs.len() == 0 {
        (members, Seq::empty())
    } else {
        let i = idxs[0];
        if !(0 <= i < members.len()) {
            spec_set(members, idxs.drop_first(), v)
        } else {
            match members[i].version {
                VersionFieldView::Concrete(cur) => if cur != v {
                    let m2 = member_with_version(members[i], VersionFieldView::Concrete(v));
                    let ch = ChangeView {
                        package: members[i].name,
                        old_version: cur,
                        new_version: v,
                        path: members[i].path,
                    };
                    let rest = spec_set(members.update(i, m2), idxs.drop_first(), v);
                    (rest.0, seq![ch] + rest.1)
                } else {
                    spec_set(members, idxs.drop_first(), v)
                },
                _ => spec_set(members, idxs.drop_first(), v),
            }
        }
    }
}

/// Sets every member from index `k` on to the literal version `v`,
/// under the same concrete-only rule as `spec_set`.
pub open spec fn spec_sync(members: Seq<MemberView>, v: Seq<char>, k: int) -> (
    Seq<MemberView>,
    Seq<ChangeView>,
)
    decreases members.len() - k,
{
    if k < 0 || k >= members.len() {
        (members, Seq::empty())
    } else {
        match members[k].version {
            VersionFieldView::Concrete(cur) => if cur != v {
                let m2 = member_with_version(members[k], VersionFieldView::Concrete(v));
                let ch = ChangeView {
                    package: members[k].name,
                    old_version: cur,
                    new_version: v,
                    path: members[k].path,
                };
                let rest = spec_sync(members.update(k, m2), v, k + 1);
                (rest.0, seq![ch] + rest.1)
            } else {
                spec_sync(members, v, k + 1)
            },
            _ => spec_sync(members, v, k + 1),
        }
    }
}

/// The word naming the component a bump aims at.
pub open spec fn spec_bump_word(b: VersionBump) -> Seq<char> {
    match b {
        VersionBump::Major(_) => "major"@,
        VersionBump::Minor(_) => "minor"@,
        VersionBump::Patch(_) => "patch"@,
    }
}

/// The label of a roll operation, e.g. `roll patch 1`.
pub open spec fn spec_roll_label(b: VersionBump) -> Seq<char> {
    "roll "@ + spec_bump_word(b) + " "@ + dec_int_str(amount_of(b))
}

/// The label of a set operation, e.g. `set 2.0.0`.
pub open spec fn spec_set_label(v: Seq<char>) -> Seq<char> {
    "set "@ + v
}

/// The label of a sync operation, e.g. `sync 2.0.0`.
pub open spec fn spec_sync_label(v: Seq<char>) -> Seq<char> {
    "sync "@ + v
}

fn roll_label(bump: &VersionBump) -> (s: String)
    ensures
        s@ == spec_roll_label(*bump),
{
    let mut s = "roll ".to_owned();
    s.append(match bump {
        VersionBump::Major(_) => "major",
        VersionBump::Minor(_) => "minor",
        VersionBump::Patch(_) => "patch",
    });
    s.append(" ");
    let a = match bump {
        VersionBump::Major(x) => *x,
        VersionBump::Minor(x) => *x,
        VersionBump::Patch(x) => *x,
    };
    s.append(i32_to_string(a).as_str());
    proof {
        assert(s@ =~= spec_roll_label(*bump));
    }
    s
}

fn roll_apply_rec(
    members: &mut Vec<WorkspaceMember>,
    idxs: &Vec<usize>,
    k: usize,
    bump: &VersionBump,
    changes: &mut Vec<VersionChange>,
) -> (r: Result<(), VersionError>)
    requires
        k <= idxs@.len(),
    ensures
        final(members)@.len() == old(members)@.len(),
        match spec_roll(members_view(old(members)@), idxs_view(idxs@).skip(k as int), *bump) {
            RollOutcome::Done { members: mm, changes: cc } => r is Ok && members_view(
                final(members)@,
            ) == mm && changes_view(final(changes)@) == changes_view(old(changes)@) + cc,
            RollOutcome::Fail { members: mm, err } => (r matches Err(e) && e@ == err)
                && members_view(final(members)@) == mm,
        },
    decreases idxs@.len() - k,
{
    let ghost iv = idxs_view(idxs@);
    let ghost v_k = members_view(members@);
    if k == idxs.len() {
        proof {
            assert(iv.skip(k as int) =~= Seq::<int>::empty());
            assert(changes_view(changes@) =~= changes_view(changes@) + Seq::<ChangeView>::empty());
        }
        return Ok(());
    }
    proof {
        lemma_skip_step(iv, k as int);
        assert(iv.skip(k as int).drop_first() =~= iv.skip(k as int + 1));
    }
    let i = idxs[k];
    if i >= members.len() {
        return roll_apply_rec(members, idxs, k + 1, bump, changes);
    }
    let cur_opt: Option<String> = match members[i].version() {
        VersionField::Concrete(s) => Some(s.clone()),
        _ => None,
    };
    match cur_opt {
        None => roll_apply_rec(members, idxs, k + 1, bump, changes),
        Some(cur) => {
            match bump.apply_to_version(cur.as_str()) {
                Err(e) => Err(e),
                Ok(nv) => {
                    if !str_eq(nv.as_str(), cur.as_str()) {
                        let ghost m2 = member_with_version(
                            v_k[i as int],
                            VersionFieldView::Concrete(nv@),
                        );
                        let ghost ch = ChangeView {
                            package: v_k[i as int].name,
                            old_version: cur@,
                            new_version: nv@,
                            path: v_k[i as int].path,
                        };
                        let (pkg, pth) = {
                            let m = &members[i];
                            (m.name().to_owned(), m.path().clone())
                        };
                        let ghost changes_0 = changes_view(changes@);
                        changes.push(
                            VersionChange {
                                package: pkg,
                                old_version: cur,
                                new_version: nv.clone(),
                                path: pth,
                            },
                        );
                        proof {
                            assert(changes_view(changes@) =~= changes_0.push(ch));
                        }
                        members[i].set_version(VersionField::Concrete(nv));
                        proof {
                            assert(members_view(members@) =~= v_k.update(i as int, m2));
                        }
                        let r = roll_apply_rec(members, idxs, k + 1, bump, changes);
                        proof {
                            match spec_roll(v_k.update(i as int, m2), iv.skip(k as int + 1), *bump) {
                                RollOutcome::Done { members: mm, changes: cc } => {
                                    assert(changes_view(changes@) =~= changes_0 + (seq![ch] + cc));
                                },
                                RollOutcome::Fail { .. } => {},
                            }
                        }
                        r
                    } else {
                        roll_apply_rec(members, idxs, k + 1, bump, changes)
                    }
                },
            }
        },
    }
}

fn set_apply_rec(
    members: &mut Vec<WorkspaceMember>,
    idxs: &Vec<usize>,
    k: usize,
    version: &str,
    changes: &mut Vec<VersionChange>,
)
    requires
        k <= idxs@.len(),
    ensures
        final(members)@.len() == old(members)@.len(),
        members_view(final(members)@) == spec_set(
            members_view(old(members)@),
            idxs_view(idxs@).skip(k as int),
            version@,
        ).0,
        changes_view(final(changes)@) == changes_view(old(changes)@) + spec_set(
            members_view(old(members)@),
            idxs_view(idxs@).skip(k as int),
            version@,
        ).1,
    decreases idxs@.len() - k,
{
    let ghost iv = idxs_view(idxs@);
    let ghost v_k = members_view(members@);
    if k == idxs.len() {
        proof {
            assert(iv.skip(k as int) =~= Seq::<int>::empty());
            assert(changes_view(changes@) =~= changes_view(changes@) + Seq::<ChangeView>::empty());
        }
        return ;
    }
    proof {
        lemma_skip_step(iv, k as int);
        assert(iv.skip(k as int).drop_first() =~= iv.skip(k as int + 1));
    }
    let i = idxs[k];
    if i >= members.len() {
        return set_apply_rec(members, idxs, k + 1, version, changes);
    }
    let cur_opt: Option<String> = match members[i].version() {
        VersionField::Concrete(s) => Some(s.clone()),
        _ => None,
    };
    match cur_opt {
        None => set_apply_rec(members, idxs, k + 1, version, changes),
        Some(cur) => {
            if !str_eq(cur.as_str(), version) {
                let ghost m2 = member_with_version(
                    v_k[i as int],
                    VersionFieldView::Concrete(version@),
                );
                let ghost ch = ChangeView {
                    package: v_k[i as int].name,
                    old_version: cur@,
                    new_version: version@,
                    path: v_k[i as int].path,
                };
                let (pkg, pth) = {
                    let m = &members[i];
                    (m.name().to_owned(), m.path().clone())
                };
                let ghost changes_0 = changes_view(changes@);
                changes.push(
                    VersionChange {
                        package: pkg,
                        old_version: cur,
                        new_version: version.to_owned(),
                        path: pth,
                    },
                );
                proof {
                    assert(changes_view(changes@) =~= changes_0.push(ch));
                }
                members[i].set_version(VersionField::Concrete(version.to_owned()));
                proof {
                    assert(members_view(members@) =~= v_k.update(i as int, m2));
                }
                set_apply_rec(members, idxs, k + 1, version, changes);
                proof {
                    let rest = spec_set(v_k.update(i as int, m2), iv.skip(k as int + 1), version@);
                    assert(changes_view(changes@) =~= changes_0 + (seq![ch] + rest.1));
                }
            } else {
                set_apply_rec(members, idxs, k + 1, version, changes);
            }
        },
    }
}

fn sync_apply_rec(
    members: &mut Vec<WorkspaceMember>,
    k: usize,
    version: &str,
    changes: &mut Vec<VersionChange>,
)
    requires
        k <= old(members)@.len(),
    ensures
        final(members)@.len() == old(members)@.len(),
        members_view(final(members)@) == spec_sync(
            members_view(old(members)@),
            version@,
            k as int,
        ).0,
        changes_view(final(changes)@) == changes_view(old(changes)@) + spec_sync(
            members_view(old(members)@),
            version@,
            k as int,
        ).1,
    decreases old(members)@.len() - k,
{
    let ghost v_k = members_view(members@);
    if k == members.len() {
        proof {
            assert(changes_view(changes@) =~= changes_view(changes@) + Seq::<ChangeView>::empty());
        }
        return ;
    }
    let cur_opt: Option<String> = match members[k].version() {
        VersionField::Concrete(s) => Some(s.clone()),
        _ => None,
    };
    match cur_opt {
        None => sync_apply_rec(members, k + 1, version, changes),
        Some(cur) => {
            if !str_eq(cur.as_str(), version) {
                let ghost m2 = member_with_version(
                    v_k[k as int],
                    VersionFieldView::Concrete(version@),
                );
                let ghost ch = ChangeView {
                    package: v_k[k as int].name,
                    old_version: cur@,
                    new_version: version@,
                    path: v_k[k as int].path,
                };
                let (pkg, pth) = {
                    let m = &members[k];
                    (m.name().to_owned(), m.path().clone())
                };
                let ghost changes_0 = changes_view(changes@);
                changes.push(
                    VersionChange {
                        package: pkg,
                        old_version: cur,
                        new_version: version.to_owned(),
                        path: pth,
                    },
                );
                proof {
                    assert(changes_view(changes@) =~= changes_0.push(ch));
                }
                members[k].set_version(VersionField::Concrete(version.to_owned()));
                proof {
                    assert(members_view(members@) =~= v_k.update(k as int, m2));
                }
                sync_apply_rec(members, k + 1, version, changes);
                proof {
                    let rest = spec_sync(v_k.update(k as int, m2), version@, k as int + 1);
                    assert(changes_view(changes@) =~= changes_0 + (seq![ch] + rest.1));
                }
            } else {
                sync_apply_rec(members, k + 1, version, changes);
            }
        },
    }
}

impl Workspace {
    /// Bumps the version of every selected member. On a selection
    /// failure nothing is touched; on a version-engine failure the
    /// members already processed stay mutated in memory and no result
    /// is returned, so nothing is persisted.
    pub fn roll_version(&mut self, bump: VersionBump, selection: &PackageSelection) -> (r: Result<
        OperationResult,
        OperationError,
    >)
        ensures
            match spec_select(old(self)@, selection@) {
                Err(e) => (r matches Err(err) && err@ == e) && final(self)@ == old(self)@,
                Ok(idxs) => match spec_roll(old(self)@, idxs, bump) {
                    RollOutcome::Done { members: mm, changes: cc } => (r matches Ok(res) && res@.changes
                        == cc && res@.operation == spec_roll_label(bump)) && final(self)@ == mm,
                    RollOutcome::Fail { members: mm, err } => (r matches Err(e2) && e2@
                        == OperationErrorView::Version(err)) && final(self)@ == mm,
                },
            },
    {
        let idxs = match self.select_member_indices(selection) {
            Ok(v) => v,
            Err(e) => {
                return Err(e);
            },
        };
        proof {
            assert(idxs_view(idxs@).skip(0) =~= idxs_view(idxs@));
        }
        let mut changes: Vec<VersionChange> = Vec::new();
        let rr = roll_apply_rec(&mut self.members, &idxs, 0, &bump, &mut changes);
        match rr {
            Err(e) => Err(OperationError::Version(e)),
            Ok(_) => {
                let label = roll_label(&bump);
                Ok(OperationResult { changes, operation: label })
            },
        }
    }

    /// Sets every selected member with a concrete version to `version`.
    /// Only a selection failure can stop this operation.
    pub fn set_version(&mut self, version: &str, selection: &PackageSelection) -> (r: Result<
        OperationResult,
        OperationError,
    >)
        ensures
            match spec_select(old(self)@, selection@) {
                Err(e) => (r matches Err(err) && err@ == e) && final(self)@ == old(self)@,
                Ok(idxs) => (r matches Ok(res) && res@.changes == spec_set(
                    old(self)@,
                    idxs,
                    version@,
                ).1 && res@.operation == spec_set_label(version@)) && final(self)@ == spec_set(
                    old(self)@,
                    idxs,
                    version@,
                ).0,
            },
    {
        let idxs = match self.select_member_indices(selection) {
            Ok(v) => v,
            Err(e) => {
                return Err(e);
            },
        };
        proof {
            assert(idxs_view(idxs@).skip(0) =~= idxs_view(idxs@));
        }
        let mut changes: Vec<VersionChange> = Vec::new();
        set_apply_rec(&mut self.members, &idxs, 0, version, &mut changes);
        let mut label = "set ".to_owned();
        label.append(version);
        proof {
            assert(label@ =~= spec_set_label(version@));
        }
        Ok(OperationResult { changes, operation: label })
    }

    /// Sets every member with a concrete version to `version`,
    /// regardless of any selection.
    pub fn sync_version(&mut self, version: &str) -> (r: Result<OperationResult, OperationError>)
        ensures
            r matches Ok(res) && res@.changes == spec_sync(old(self)@, version@, 0).1
                && res@.operation == spec_sync_label(version@),
            final(self)@ == spec_sync(old(self)@, version@, 0).0,
    {
        let mut changes: Vec<VersionChange> = Vec::new();
        sync_apply_rec(&mut self.members, 0, version, &mut changes);
        let mut label = "sync ".to_owned();
        label.append(version);
        proof {
            assert(label@ =~= spec_sync_label(version@));
        }
        Ok(OperationResult { changes, operation: label })
    }
}

proof fn lemma_sync_members_from(members: Seq<MemberView>, v: Seq<char>, k: int)
    requires
        0 <= k <= members.len(),
    ensures
        spec_sync(members, v, k).0.len() == members.len(),
        forall|i: int| 0 <= i < k ==> spec_sync(members, v, k).0[i] == members[i],
        forall|i: int|
            k <= i < members.len() ==> spec_sync(members, v, k).0[i] == (
            match members[i].version {
                VersionFieldView::Concrete(_) => member_with_version(
                    members[i],
                    VersionFieldView::Concrete(v),
                ),
                _ => members[i],
            }),
    decreases members.len() - k,
{
    if k < members.len() {
        match members[k].version {
            VersionFieldView::Concrete(cur) => {
                if cur != v {
                    let m2 = member_with_version(members[k], VersionFieldView::Concrete(v));
                    let members2 = members.update(k, m2);
                    lemma_sync_members_from(members2, v, k + 1);
                    assert(forall|i: int|
                        k + 1 <= i < members.len() ==> members2[i] == members[i]);
                } else {
                    lemma_sync_members_from(members, v, k + 1);
                    assert(member_with_version(members[k], VersionFieldView::Concrete(v))
                        == members[k]);
                }
            },
            _ => {
                lemma_sync_members_from(members, v, k + 1);
            },
        }
    }
}

/// A sync to `v` sets every member with a concrete version to exactly
/// `v`, and leaves inherited and absent members untouched.
pub proof fn lemma_sync_effect(members: Seq<MemberView>, v: Seq<char>)
    ensures
        spec_sync(members, v, 0).0.len() == members.len(),
        forall|i: int|
            0 <= i < members.len() ==> spec_sync(members, v, 0).0[i] == (
            match members[i].version {
                VersionFieldView::Concrete(_) => member_with_version(
                    members[i],
                    VersionFieldView::Concrete(v),
                ),
                _ => members[i],
            }),
{
    lemma_sync_members_from(members, v, 0);
}

/// No member is named `name`, so `find_from` finds nothing.
proof fn lemma_find_from_absent(members: Seq<MemberView>, name: Seq<char>, i: int)
    requires
        forall|j: int| 0 <= j < members.len() ==> (#[trigger] members[j]).name != name,
    ensures
        find_from(members, name, i) is None,
    decreases members.len() - i,
{
    if !(i < 0 || i >= members.len()) {
        lemma_find_from_absent(members, name, i + 1);
    }
}

proof fn lemma_specific_missing(
    members: Seq<MemberView>,
    names: Seq<Seq<char>>,
    exclude: Seq<Seq<char>>,
    name: Seq<char>,
)
    requires
        name_in(names, name),
        !name_in(exclude, name),
        forall|j: int| 0 <= j < members.len() ==> (#[trigger] members[j]).name != name,
    ensures
        spec_select_specific(members, names, exclude) is Err,
    decreases names.len(),
{
    let w = choose|w: int| 0 <= w < names.len() && names[w] == name;
    if names[0] == name {
        lemma_find_from_absent(members, name, 0);
    } else {
        assert(name_in(names.drop_first(), name)) by {
            assert(names.drop_first()[w - 1] == name);
        }
        lemma_specific_missing(members, names.drop_first(), exclude, name);
    }
}

/// Requesting a package name that no workspace member carries (and that
/// is not excluded) fails the whole selection, whatever else was
/// requested, so the operation mutates nothing.
pub proof fn lemma_selection_missing_name_fails(
    members: Seq<MemberView>,
    sel: SelectionView,
    name: Seq<char>,
)
    requires
        name_in(sel.packages, name),
        !name_in(sel.exclude, name),
        forall|j: int| 0 <= j < members.len() ==> (#[trigger] members[j]).name != name,
    ensures
        spec_select(members, sel) is Err,
{
    lemma_specific_missing(members, sel.packages, sel.exclude, name);
}

/// Order on member indices: by name in lexicographic order, and for
/// equal names by index, so that the sorted order is unique.
pub open spec fn idx_le_by_name(members: Seq<MemberView>, i: int, j: int) -> bool {
    if members[i].name == members[j].name {
        i <= j
    } else {
        lex_le(members[i].name, members[j].name)
    }
}

/// Whether the index sequence `v` is sorted by member name.
pub open spec fn sorted_by_name(members: Seq<MemberView>, v: Seq<int>) -> bool {
    forall|p: int, q: int| 0 <= p < q < v.len() ==> idx_le_by_name(members, v[p], v[q])
}

/// Inserts `x` into the name-sorted index sequence `v`, keeping it sorted.
pub open spec fn spec_insert_by_name(members: Seq<MemberView>, v: Seq<int>, x: int) -> Seq<int>
    decreases v.len(),
{
    if v.len() == 0 {
        seq![x]
    } else if idx_le_by_name(members, v[0], x) {
        seq![v[0]] + spec_insert_by_name(members, v.drop_first(), x)
    } else {
        seq![x] + v
    }
}

/// Sorts an index sequence by member name, by insertion.
pub open spec fn spec_sort_by_name(members: Seq<MemberView>, v: Seq<int>) -> Seq<int>
    decreases v.len(),
{
    if v.len() == 0 {
        Seq::empty()
    } else {
        spec_insert_by_name(members, spec_sort_by_name(members, v.drop_first()), v[0])
    }
}

/// The index order relates every pair one way or the other.
proof fn lemma_idx_le_total(members: Seq<MemberView>, i: int, j: int)
    ensures
        idx_le_by_name(members, i, j) || idx_le_by_name(members, j, i),
{
    crate::text::lemma_lex_le_total(members[i].name, members[j].name);
}

/// The index order is transitive.
proof fn lemma_idx_le_trans(members: Seq<MemberView>, i: int, j: int, k: int)
    requires
        idx_le_by_name(members, i, j),
        idx_le_by_name(members, j, k),
    ensures
        idx_le_by_name(members, i, k),
{
    let a = members[i].name;
    let b = members[j].name;
    let c = members[k].name;
    if a != b && b != c {
        crate::text::lemma_lex_le_trans(a, b, c);
        if a == c {
            crate::text::lemma_lex_le_antisym(a, b);
        }
    }
}

/// Prepending an element inserts it into the multiset of a sequence.
proof fn lemma_cons_multiset<A>(a: A, s: Seq<A>)
    ensures
        (seq![a] + s).to_multiset() =~= s.to_multiset().insert(a),
{
    broadcast use vstd::seq_lib::group_to_multiset_ensures;

    let t = seq![a] + s;
    assert(t.remove(0) =~= s);
    assert(t[0] == a);
    assert(t.remove(0).to_multiset() =~= t.to_multiset().remove(a));
    assert(t.contains(a));
    assert(t.to_multiset().count(a) > 0);
    assert(t.to_multiset() =~= s.to_multiset().insert(a)) by {
        assert(forall|b: A| b != a ==> t.to_multiset().count(b) == s.to_multiset().count(b));
        assert(t.to_multiset().count(a) == t.to_multiset().remove(a).count(a) + 1);
    }
}

/// Insertion keeps an index sequence sorted, keeps every entry, and
/// adds exactly the inserted one.
proof fn lemma_insert_by_name(members: Seq<MemberView>, v: Seq<int>, x: int)
    requires
        sorted_by_name(members, v),
    ensures
        sorted_by_name(members, spec_insert_by_name(members, v, x)),
        spec_insert_by_name(members, v, x).to_multiset() =~= v.to_multiset().insert(x),
        spec_insert_by_name(members, v, x).len() == v.len() + 1,
        forall|j: int|
            0 <= j < spec_insert_by_name(members, v, x).len() ==> (#[trigger] spec_insert_by_name(
                members,
                v,
                x,
            )[j]) == x || v.contains(spec_insert_by_name(members, v, x)[j]),
    decreases v.len(),
{
    broadcast use vstd::seq_lib::group_to_multiset_ensures;

    let r = spec_insert_by_name(members, v, x);
    if v.len() == 0 {
        lemma_cons_multiset(x, Seq::<int>::empty());
        assert(seq![x].drop_first() =~= Seq::<int>::empty());
        assert(r =~= seq![x] + Seq::<int>::empty());
        assert(v.to_multiset() =~= Seq::<int>::empty().to_multiset());
    } else if idx_le_by_name(members, v[0], x) {
        let tail = v.drop_first();
        assert(sorted_by_name(members, tail)) by {
            assert(forall|p: int, q: int|
                0 <= p < q < tail.len() ==> tail[p] == v[p + 1] && tail[q] == v[q + 1]);
        }
        lemma_insert_by_name(members, tail, x);
        let rt = spec_insert_by_name(members, tail, x);
        assert(r == seq![v[0]] + rt);
        lemma_cons_multiset(v[0], rt);
        lemma_cons_multiset(v[0], tail);
        assert(seq![v[0]] + tail =~= v);
        assert(r.to_multiset() =~= v.to_multiset().insert(x));
        assert forall|p: int, q: int| 0 <= p < q < r.len() implies idx_le_by_name(
            members,
            r[p],
            r[q],
        ) by {
            if p == 0 {
                assert(r[q] == rt[q - 1]);
                if rt[q - 1] == x {
                    assert(idx_le_by_name(members, v[0], x));
                } else {
                    assert(tail.contains(rt[q - 1]));
                    let w = choose|w: int| 0 <= w < tail.len() && tail[w] == rt[q - 1];
                    assert(v[w + 1] == rt[q - 1]);
                    assert(idx_le_by_name(members, v[0], v[w + 1]));
                }
            } else {
                assert(r[p] == rt[p - 1] && r[q] == rt[q - 1]);
            }
        }
    } else {
        assert(r == seq![x] + v);
        lemma_cons_multiset(x, v);
        lemma_idx_le_total(members, v[0], x);
        assert forall|p: int, q: int| 0 <= p < q < r.len() implies idx_le_by_name(
            members,
            r[p],
            r[q],
        ) by {
            if p == 0 {
                assert(r[q] == v[q - 1]);
                if q - 1 == 0 {
                    assert(idx_le_by_name(members, x, v[0]));
                } else {
                    assert(idx_le_by_name(members, v[0], v[q - 1]));
                    lemma_idx_le_trans(members, x, v[0], v[q - 1]);
                }
            } else {
                assert(r[p] == v[p - 1] && r[q] == v[q - 1]);
            }
        }
    }
}

/// Sorting by name yields a sorted permutation of the input indices.
pub proof fn lemma_sort_by_name(members: Seq<MemberView>, v: Seq<int>)
    ensures
        sorted_by_name(members, spec_sort_by_name(members, v)),
        spec_sort_by_name(members, v).to_multiset() =~= v.to_multiset(),
        spec_sort_by_name(members, v).len() == v.len(),
        forall|j: int|
            0 <= j < spec_sort_by_name(members, v).len() ==> v.contains(
                #[trigger] spec_sort_by_name(members, v)[j],
            ),
    decreases v.len(),
{
    broadcast use vstd::seq_lib::group_to_multiset_ensures;

    if v.len() > 0 {
        let tail = v.drop_first();
        lemma_sort_by_name(members, tail);
        let st = spec_sort_by_name(members, tail);
        lemma_insert_by_name(members, st, v[0]);
        lemma_cons_multiset(v[0], tail);
        assert(seq![v[0]] + tail =~= v);
        let r = spec_sort_by_name(members, v);
        assert(r == spec_insert_by_name(members, st, v[0]));
        assert(r.to_multiset() =~= v.to_multiset());
        assert forall|j: int| 0 <= j < r.len() implies v.contains(#[trigger] r[j]) by {
            if r[j] == v[0] {
                assert(v[0] == v[0int]);
            } else {
                assert(st.contains(r[j]));
                let w = choose|w: int| 0 <= w < st.len() && st[w] == r[j];
                assert(tail.contains(st[w]));
                let u = choose|u: int| 0 <= u < tail.len() && tail[u] == st[w];
                assert(v[u + 1] == r[j]);
            }
        }
    }
}

fn idx_le_exec(members: &Vec<WorkspaceMember>, i: usize, j: usize) -> (r: bool)
    requires
        i < members@.len(),
        j < members@.len(),
    ensures
        r == idx_le_by_name(members_view(members@), i as int, j as int),
{
    let a = members[i].name();
    let b = members[j].name();
    if str_eq(a, b) {
        i <= j
    } else {
        str_le(a, b)
    }
}

fn insert_by_name(members: &Vec<WorkspaceMember>, sorted: Vec<usize>, x: usize) -> (r: Vec<usize>)
    requires
        x < members@.len(),
        forall|j: int| 0 <= j < sorted@.len() ==> (#[trigger] sorted@[j]) < members@.len(),
    ensures
        idxs_view(r@) == spec_insert_by_name(members_view(members@), idxs_view(sorted@), x as int),
        forall|j: int| 0 <= j < r@.len() ==> (#[trigger] r@[j]) < members@.len(),
    decreases sorted@.len(),
{
    let ghost sv = idxs_view(sorted@);
    if sorted.len() == 0 {
        let mut v: Vec<usize> = Vec::new();
        v.push(x);
        proof {
            assert(idxs_view(v@) =~= seq![x as int]);
        }
        v
    } else if idx_le_exec(members, sorted[0], x) {
        let mut rest = sorted;
        let h = rest.remove(0);
        proof {
            assert(idxs_view(rest@) =~= sv.drop_first());
        }
        let mut r = insert_by_name(members, rest, x);
        r.insert(0, h);
        proof {
            assert(idxs_view(r@) =~= seq![h as int] + spec_insert_by_name(
                members_view(members@),
                sv.drop_first(),
                x as int,
            ));
        }
        r
    } else {
        let mut v = sorted;
        v.insert(0, x);
        proof {
            assert(idxs_view(v@) =~= seq![x as int] + sv);
        }
        v
    }
}

fn sort_by_name(members: &Vec<WorkspaceMember>, v: Vec<usize>) -> (r: Vec<usize>)
    requires
        forall|j: int| 0 <= j < v@.len() ==> (#[trigger] v@[j]) < members@.len(),
    ensures
        idxs_view(r@) == spec_sort_by_name(members_view(members@), idxs_view(v@)),
        forall|j: int| 0 <= j < r@.len() ==> (#[trigger] r@[j]) < members@.len(),
    decreases v@.len(),
{
    let ghost vv = idxs_view(v@);
    if v.len() == 0 {
        proof {
            assert(idxs_view(v@) =~= Seq::<int>::empty());
        }
        v
    } else {
        let mut rest = v;
        let h = rest.remove(0);
        proof {
            assert(idxs_view(rest@) =~= vv.drop_first());
        }
        let s = sort_by_name(members, rest);
        insert_by_name(members, s, h)
    }
}

/// Whether a member sequence is sorted by name, ascending.
pub open spec fn members_sorted(ms: Seq<MemberView>) -> bool {
    forall|p: int, q: int| 0 <= p < q < ms.len() ==> lex_le(ms[p].name, ms[q].name)
}

/// Inserts a member into a name-sorted member sequence, before the
/// first member whose name is not smaller, so that members with equal
/// names keep the order they were given in.
pub open spec fn spec_insert_member(ms: Seq<MemberView>, m: MemberView) -> Seq<MemberView>
    decreases ms.len(),
{
    if ms.len() == 0 {
        seq![m]
    } else if ms[0].name != m.name && lex_le(ms[0].name, m.name) {
        seq![ms[0]] + spec_insert_member(ms.drop_first(), m)
    } else {
        seq![m] + ms
    }
}

/// Sorts a member sequence by name, by insertion.
pub open spec fn spec_sort_members(ms: Seq<MemberView>) -> Seq<MemberView>
    decreases ms.len(),
{
    if ms.len() == 0 {
        Seq::empty()
    } else {
        spec_insert_member(spec_sort_members(ms.drop_first()), ms[0])
    }
}

proof fn lemma_insert_member(ms: Seq<MemberView>, m: MemberView)
    requires
        members_sorted(ms),
    ensures
        members_sorted(spec_insert_member(ms, m)),
        spec_insert_member(ms, m).to_multiset() =~= ms.to_multiset().insert(m),
        spec_insert_member(ms, m).len() == ms.len() + 1,
        forall|j: int|
            0 <= j < spec_insert_member(ms, m).len() ==> (#[trigger] spec_insert_member(ms, m)[j])
                == m || ms.contains(spec_insert_member(ms, m)[j]),
    decreases ms.len(),
{
    broadcast use vstd::seq_lib::group_to_multiset_ensures;

    let r = spec_insert_member(ms, m);
    if ms.len() == 0 {
        lemma_cons_multiset(m, Seq::<MemberView>::empty());
        assert(r =~= seq![m] + Seq::<MemberView>::empty());
        assert(ms.to_multiset() =~= Seq::<MemberView>::empty().to_multiset());
    } else if ms[0].name != m.name && lex_le(ms[0].name, m.name) {
        let tail = ms.drop_first();
        assert(members_sorted(tail)) by {
            assert(forall|p: int, q: int|
                0 <= p < q < tail.len() ==> tail[p] == ms[p + 1] && tail[q] == ms[q + 1]);
        }
        lemma_insert_member(tail, m);
        let rt = spec_insert_member(tail, m);
        assert(r == seq![ms[0]] + rt);
        lemma_cons_multiset(ms[0], rt);
        lemma_cons_multiset(ms[0], tail);
        assert(seq![ms[0]] + tail =~= ms);
        assert(r.to_multiset() =~= ms.to_multiset().insert(m));
        assert forall|p: int, q: int| 0 <= p < q < r.len() implies lex_le(
            r[p].name,
            r[q].name,
        ) by {
            if p == 0 {
                assert(r[q] == rt[q - 1]);
                if rt[q - 1] == m {
                } else {
                    assert(tail.contains(rt[q - 1]));
                    let w = choose|w: int| 0 <= w < tail.len() && tail[w] == rt[q - 1];
                    assert(ms[w + 1] == rt[q - 1]);
                    if w + 1 > 0 {
                        assert(lex_le(ms[0].name, ms[w + 1].name));
                    }
                }
            } else {
                assert(r[p] == rt[p - 1] && r[q] == rt[q - 1]);
            }
        }
    } else {
        assert(r == seq![m] + ms);
        lemma_cons_multiset(m, ms);
        if ms[0].name == m.name {
            crate::text::lemma_lex_le_refl(m.name);
        } else {
            crate::text::lemma_lex_le_total(ms[0].name, m.name);
        }
        assert(lex_le(m.name, ms[0].name));
        assert forall|p: int, q: int| 0 <= p < q < r.len() implies lex_le(
            r[p].name,
            r[q].name,
        ) by {
            if p == 0 {
                assert(r[q] == ms[q - 1]);
                if q - 1 > 0 {
                    assert(lex_le(ms[0].name, ms[q - 1].name));
                    crate::text::lemma_lex_le_trans(m.name, ms[0].name, ms[q - 1].name);
                }
            } else {
                assert(r[p] == ms[p - 1] && r[q] == ms[q - 1]);
            }
        }
    }
}

/// Sorting members yields a name-sorted permutation of the input.
pub proof fn lemma_sort_members(ms: Seq<MemberView>)
    ensures
        members_sorted(spec_sort_members(ms)),
        spec_sort_members(ms).to_multiset() =~= ms.to_multiset(),
        spec_sort_members(ms).len() == ms.len(),
    decreases ms.len(),
{
    broadcast use vstd::seq_lib::group_to_multiset_ensures;

    if ms.len() > 0 {
        let tail = ms.drop_first();
        lemma_sort_members(tail);
        let st = spec_sort_members(tail);
        lemma_insert_member(st, ms[0]);
        lemma_cons_multiset(ms[0], tail);
        assert(seq![ms[0]] + tail =~= ms);
    }
}

fn insert_member_sorted(sorted: Vec<WorkspaceMember>, m: WorkspaceMember) -> (r: Vec<
    WorkspaceMember,
>)
    ensures
        members_view(r@) == spec_insert_member(members_view(sorted@), m@),
    decreases sorted@.len(),
{
    let ghost sv = members_view(sorted@);
    if sorted.len() == 0 {
        let mut v: Vec<WorkspaceMember> = Vec::new();
        v.push(m);
        proof {
            assert(members_view(v@) =~= seq![m@]);
        }
        v
    } else {
        let goes_after = !str_eq(sorted[0].name(), m.name()) && str_le(sorted[0].name(), m.name());
        if goes_after {
            let mut rest = sorted;
            let h = rest.remove(0);
            proof {
                assert(members_view(rest@) =~= sv.drop_first());
            }
            let mut r = insert_member_sorted(rest, m);
            let ghost rv = members_view(r@);
            r.insert(0, h);
            proof {
                assert(members_view(r@) =~= seq![h@] + rv);
            }
            r
        } else {
            let mut v = sorted;
            v.insert(0, m);
            proof {
                assert(members_view(v@) =~= seq![m@] + sv);
            }
            v
        }
    }
}

fn sort_members(ms: Vec<WorkspaceMember>) -> (r: Vec<WorkspaceMember>)
    ensures
        members_view(r@) == spec_sort_members(members_view(ms@)),
    decreases ms@.len(),
{
    let ghost mv = members_view(ms@);
    if ms.len() == 0 {
        proof {
            assert(members_view(ms@) =~= Seq::<MemberView>::empty());
        }
        ms
    } else {
        let mut rest = ms;
        let h = rest.remove(0);
        proof {
            assert(members_view(rest@) =~= mv.drop_first());
        }
        let s = sort_members(rest);
        insert_member_sorted(s, h)
    }
}

impl Workspace {
    /// Builds the workspace out of the members discovery found, sorted
    /// by name ascending.
    pub fn from_members(members: Vec<WorkspaceMember>) -> (r: Workspace)
        ensures
            r@ == spec_sort_members(members_view(members@)),
    {
        Workspace { members: sort_members(members) }
    }
}

/// The member order a display or lint pass walks: the selected
/// indices, sorted by name; a selection failure aborts the whole
/// operation with its error.
pub open spec fn spec_display_order(members: Seq<MemberView>, sel: SelectionView) -> Result<
    Seq<int>,
    OperationErrorView,
> {
    match spec_select(members, sel) {
        Ok(idxs) => Ok(spec_sort_by_name(members, idxs)),
        Err(e) => Err(e),
    }
}

/// One line of `show` output: `name: version` for a concrete version,
/// nothing otherwise.
pub open spec fn spec_show_line(m: MemberView) -> Seq<char> {
    match m.version {
        VersionFieldView::Concrete(v) => m.name + ": "@ + v + "\n"@,
        _ => Seq::empty(),
    }
}

/// The `show` output for the members at `order`, in that order.
pub open spec fn spec_show_list(members: Seq<MemberView>, order: Seq<int>) -> Seq<char>
    decreases order.len(),
{
    if order.len() == 0 {
        Seq::empty()
    } else if !(0 <= order[0] < members.len()) {
        spec_show_list(members, order.drop_first())
    } else {
        spec_show_line(members[order[0]]) + spec_show_list(members, order.drop_first())
    }
}

/// The views of a sequence of lint findings.
pub open spec fn lint_errors_view(es: Seq<LintError>) -> Seq<LintErrorView> {
    Seq::new(es.len(), |i: int| es[i]@)
}

/// The lint findings for the members at `order`: one finding, naming
/// the member and quoting the version text and the parser's reason,
/// for each concrete version that is not valid semver.
pub open spec fn spec_lint_list(members: Seq<MemberView>, order: Seq<int>) -> Seq<LintErrorView>
    decreases order.len(),
{
    if order.len() == 0 {
        Seq::empty()
    } else if !(0 <= order[0] < members.len()) {
        spec_lint_list(members, order.drop_first())
    } else {
        let m = members[order[0]];
        let rest = spec_lint_list(members, order.drop_first());
        match m.version {
            VersionFieldView::Concrete(v) => match semver_parse(v) {
                Err(reason) => seq![
                    LintErrorView {
                        member: m.name,
                        message: "Invalid version '"@ + v + "': "@ + reason,
                    },
                ] + rest,
                Ok(_) => rest,
            },
            _ => rest,
        }
    }
}

fn show_rec(members: &Vec<WorkspaceMember>, order: &Vec<usize>, k: usize) -> (s: String)
    requires
        k <= order@.len(),
    ensures
        s@ == spec_show_list(members_view(members@), idxs_view(order@).skip(k as int)),
    decreases order@.len() - k,
{
    let ghost ov = idxs_view(order@);
    if k == order.len() {
        proof {
            assert(ov.skip(k as int) =~= Seq::<int>::empty());
        }
        return String::new();
    }
    proof {
        lemma_skip_step(ov, k as int);
        assert(ov.skip(k as int).drop_first() =~= ov.skip(k as int + 1));
    }
    let i = order[k];
    if i >= members.len() {
        return show_rec(members, order, k + 1);
    }
    let mut line: String = match members[i].version() {
        VersionField::Concrete(v) => {
            let mut l = members[i].name().to_owned();
            l.append(": ");
            l.append(v.as_str());
            l.append("\n");
            l
        },
        _ => String::new(),
    };
    let rest = show_rec(members, order, k + 1);
    line.append(rest.as_str());
    proof {
        assert(line@ =~= spec_show_list(members_view(members@), ov.skip(k as int)));
    }
    line
}

fn lint_rec(members: &Vec<WorkspaceMember>, order: &Vec<usize>, k: usize) -> (r: Vec<LintError>)
    requires
        k <= order@.len(),
    ensures
        lint_errors_view(r@) == spec_lint_list(members_view(members@), idxs_view(order@).skip(
            k as int,
        )),
    decreases order@.len() - k,
{
    let ghost ov = idxs_view(order@);
    if k == order.len() {
        let v: Vec<LintError> = Vec::new();
        proof {
            assert(ov.skip(k as int) =~= Seq::<int>::empty());
            assert(lint_errors_view(v@) =~= Seq::<LintErrorView>::empty());
        }
        return v;
    }
    proof {
        lemma_skip_step(ov, k as int);
        assert(ov.skip(k as int).drop_first() =~= ov.skip(k as int + 1));
    }
    let i = order[k];
    if i >= members.len() {
        return lint_rec(members, order, k + 1);
    }
    let finding: Option<LintError> = match members[i].version() {
        VersionField::Concrete(v) => match parse_semver(v.as_str()) {
            Err(reason) => {
                let mut msg = "Invalid version '".to_owned();
                msg.append(v.as_str());
                msg.append("': ");
                msg.append(reason.as_str());
                Some(LintError { member: members[i].name().to_owned(), message: msg })
            },
            Ok(_) => None,
        },
        _ => None,
    };
    match finding {
        Some(e) => {
            let mut out: Vec<LintError> = Vec::new();
            out.push(e);
            let mut rest = lint_rec(members, order, k + 1);
            out.append(&mut rest);
            proof {
                assert(lint_errors_view(out@) =~= spec_lint_list(
                    members_view(members@),
                    ov.skip(k as int),
                ));
            }
            out
        },
        None => lint_rec(members, order, k + 1),
    }
}

impl Workspace {
    fn display_order(&self, selection: &PackageSelection) -> (r: Result<Vec<usize>, OperationError>)
        ensures
            (match r {
                Ok(v) => Ok::<Seq<int>, OperationErrorView>(idxs_view(v@)),
                Err(e) => Err(e@),
            }) == spec_display_order(self@, selection@),
            r matches Ok(v) ==> forall|j: int|
                0 <= j < v@.len() ==> (#[trigger] v@[j]) < self@.len(),
    {
        let base = match self.select_member_indices(selection) {
            Ok(v) => {
                proof {
                    lemma_select_range(self@, selection@);
                    match spec_select(self@, selection@) {
                        Ok(idxs) => {
                            assert forall|j: int| 0 <= j < v@.len() implies (#[trigger] v@[j])
                                < self.members@.len() by {
                                assert(idxs_view(v@)[j] == idxs[j]);
                            }
                        },
                        Err(_) => {
                            assert(false);
                        },
                    }
                }
                v
            },
            Err(e) => {
                return Err(e);
            },
        };
        Ok(sort_by_name(&self.members, base))
    }

    /// The selected members, sorted by name ascending; a failing
    /// selection aborts with its error and touches nothing.
    pub fn selected_members(&self, selection: &PackageSelection) -> (r: Result<
        Vec<&WorkspaceMember>,
        OperationError,
    >)
        ensures
            match spec_display_order(self@, selection@) {
                Ok(order) => r matches Ok(v) && v@.len() == order.len() && forall|i: int|
                    0 <= i < v@.len() ==> 0 <= order[i] < self@.len() && (#[trigger] v@[i])@
                        == self@[order[i]],
                Err(e) => r matches Err(err) && err@ == e,
            },
    {
        let order = match self.display_order(selection) {
            Ok(o) => o,
            Err(e) => {
                return Err(e);
            },
        };
        let mut out: Vec<&WorkspaceMember> = Vec::new();
        let mut k: usize = 0;
        while k < order.len()
            invariant
                0 <= k <= order@.len(),
                forall|j: int| 0 <= j < order@.len() ==> (#[trigger] order@[j]) < self@.len(),
                spec_display_order(self@, selection@) == Ok::<Seq<int>, OperationErrorView>(
                    idxs_view(order@),
                ),
                out@.len() == k,
                forall|i: int|
                    0 <= i < k ==> (#[trigger] out@[i])@ == self@[idxs_view(order@)[i]],
            decreases order@.len() - k,
        {
            out.push(&self.members[order[k]]);
            k = k + 1;
        }
        Ok(out)
    }

    /// One `name: version` line per selected member with a concrete
    /// version, sorted by name; a failing selection aborts with its
    /// error.
    pub fn show(&self, selection: &PackageSelection) -> (r: Result<String, OperationError>)
        ensures
            match spec_display_order(self@, selection@) {
                Ok(order) => r matches Ok(s) && s@ == spec_show_list(self@, order),
                Err(e) => r matches Err(err) && err@ == e,
            },
    {
        let order = match self.display_order(selection) {
            Ok(o) => o,
            Err(e) => {
                return Err(e);
            },
        };
        proof {
            assert(idxs_view(order@).skip(0) =~= idxs_view(order@));
        }
        Ok(show_rec(&self.members, &order, 0))
    }

    /// The lint findings for the selected members, sorted by name: one
    /// per concrete version that is not valid semver. A failing
    /// selection aborts with its error.
    pub fn lint(&self, selection: &PackageSelection) -> (r: Result<Vec<LintError>, OperationError>)
        ensures
            match spec_display_order(self@, selection@) {
                Ok(order) => r matches Ok(v) && lint_errors_view(v@) == spec_lint_list(
                    self@,
                    order,
                ),
                Err(e) => r matches Err(err) && err@ == e,
            },
    {
        let order = match self.display_order(selection) {
            Ok(o) => o,
            Err(e) => {
                return Err(e);
            },
        };
        proof {
            assert(idxs_view(order@).skip(0) =~= idxs_view(order@));
        }
        Ok(lint_rec(&self.members, &order, 0))
    }
}

} // verus!
