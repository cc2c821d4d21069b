//! Adding components: where each file of each item goes, and what is
//! written there.

use crate::config::{resolved_paths, Config, ConfigError, ResolvedPaths, ResolvedPathsView};
use crate::json::{parsed_text, read_text};
use crate::schemas::registry_item::item_of;
use crate::text::same_text;
use vstd::string::*;
use crate::paths::{file_name, join, joined, name_file};
use crate::preflights::add::{preflight_add, PreflightAdd, Probe};
use crate::resolver::RegistryError;
use crate::schemas::registry_item::{items_view, RegistryItem, RegistryItemView};
use crate::schemas::registry_item_file::{files_view, RegistryItemFile, RegistryItemFileView};
use crate::schemas::registry_type::RegistryType;
use crate::text::opt_text;
use vstd::prelude::*;

verus! {

/// Why components could not be added.
#[derive(Debug)]
pub enum AddError {
    /// No component was asked for.
    ComponentsEmpty,
    ConfigError(ConfigError),
    PreflightAdd(PreflightAdd),
    RegistryError(RegistryError),
    /// A directory or a file could not be written; the cause is what the
    /// system reported.
    IoFailure(std::io::Error),
    /// The file at `path` of the item `component` has no content.
    ContentEmpty { component: String, path: String },
    /// The project declares no directory for the kind of the file at `path`
    /// of the item `component`.
    TargetPathUnresolvable { component: String, path: String },
}

/// What the add command was asked to do.
#[derive(Debug, Clone, PartialEq)]
pub struct AddSchema {
    pub cwd: String,
    pub components: Vec<String>,
}

/// The directory for files of a kind: that of the UI for UI files, that of
/// the components for every other kind.
pub open spec fn kind_directory(kind: RegistryType, paths: ResolvedPathsView) -> Option<Seq<char>> {
    match kind {
        RegistryType::UI => paths.ui,
        _ => paths.components,
    }
}

/// The stem of the file name: the item's name for a style, `index` for
/// every other kind.
pub open spec fn stem_of(kind: RegistryType, item_name: Seq<char>) -> Seq<char> {
    match kind {
        RegistryType::Style => item_name,
        _ => "index"@,
    }
}

/// The extension of the file name: `rsml` for a style, `tsx` for every
/// other kind.
pub open spec fn extension_of(kind: RegistryType) -> Seq<char> {
    match kind {
        RegistryType::Style => "rsml"@,
        _ => "tsx"@,
    }
}

/// Where a file goes: the directory of its item, and its name there.
#[derive(Debug, Clone, PartialEq)]
pub struct Target {
    pub directory: String,
    pub filename: String,
}

/// The mathematical value of a [`Target`].
pub struct TargetView {
    pub directory: Seq<char>,
    pub filename: Seq<char>,
}

impl View for Target {
    type V = TargetView;

    open spec fn view(&self) -> TargetView {
        TargetView { directory: self.directory@, filename: self.filename@ }
    }
}

/// Where a file of the kind `kind` of the item `item_name` goes: into the
/// item's own directory under the directory of the kind. `None` where the
/// project declares no directory for the kind.
pub open spec fn target_of(
    kind: RegistryType,
    item_name: Seq<char>,
    paths: ResolvedPathsView,
) -> Option<TargetView> {
    match kind_directory(kind, paths) {
        Some(directory) => Some(
            TargetView {
                directory: joined(directory, item_name),
                filename: file_name(stem_of(kind, item_name), extension_of(kind)),
            },
        ),
        None => None,
    }
}

/// Why a file is not written: the project declares no directory for its
/// kind, or, where `empty` holds, the file has no content.
pub struct StopView {
    pub component: Seq<char>,
    pub path: Seq<char>,
    pub empty: bool,
}

impl AddError {
    /// The error reports `stop`.
    pub open spec fn reports(self, stop: StopView) -> bool {
        match self {
            AddError::TargetPathUnresolvable { component, path } => !stop.empty && component@
                == stop.component && path@ == stop.path,
            AddError::ContentEmpty { component, path } => stop.empty && component@
                == stop.component && path@ == stop.path,
            _ => false,
        }
    }
}

/// The directory that files of a kind are installed under.
pub fn directory_for(kind: RegistryType, paths: &ResolvedPaths) -> (r: &Option<String>)
    ensures
        opt_text(*r) == kind_directory(kind, paths@),
{
    match kind {
        RegistryType::UI => &paths.ui,
        _ => &paths.components,
    }
}

/// The directory that a file's kind is installed under.
pub fn resolve_file_target_path(file: &RegistryItemFile, config: &Config) -> (r: Option<String>)
    ensures
        opt_text(r) == kind_directory(file@.item_type, config@.resolved_paths),
{
    crate::text::copy_opt_text(directory_for(file.item_type, &config.resolved_paths))
}

/// Where a file of an item goes.
pub fn target_for(file: &RegistryItemFile, item_name: &str, paths: &ResolvedPaths) -> (r: Result<
    Target,
    AddError,
>)
    ensures
        match target_of(file@.item_type, item_name@, paths@) {
            Some(target) => r is Ok && r->Ok_0@ == target,
            None => r is Err && r->Err_0.reports(
                StopView { component: item_name@, path: file@.path, empty: false },
            ),
        },
{
    match directory_for(file.item_type, paths) {
        None => Err(
            AddError::TargetPathUnresolvable {
                component: item_name.to_owned(),
                path: file.path.clone(),
            },
        ),
        Some(directory) => {
            let filename = match file.item_type {
                RegistryType::Style => name_file(item_name, "rsml"),
                _ => name_file("index", "tsx"),
            };
            Ok(Target { directory: join(directory.as_str(), item_name), filename })
        },
    }
}

/// A project that declares no alias `@/ui` has no place for a UI file:
/// whatever the item and the root.
pub proof fn lemma_undeclared_ui_has_no_target(
    cwd: Seq<char>,
    table: Map<Seq<char>, Seq<Seq<char>>>,
    item_name: Seq<char>,
)
    requires
        !table.dom().contains("@/ui"@),
    ensures
        target_of(RegistryType::UI, item_name, resolved_paths(cwd, table)) is None,
{
}

/// In a project at `root` whose alias `@/components` is declared with the
/// pattern `./src/components` first, a component file of the item
/// `item_name` goes to `index.tsx` in `<root>/src/components/<item_name>`.
/// The root is a directory's path that does not end in a separator, and the
/// item's name does not start with one.
pub proof fn lemma_component_target(
    root: Seq<char>,
    table: Map<Seq<char>, Seq<Seq<char>>>,
    item_name: Seq<char>,
)
    requires
        root.len() > 0,
        root.last() != '/',
        item_name.len() > 0,
        item_name[0] != '/',
        table.dom().contains("@/components"@),
        table["@/components"@].len() > 0,
        table["@/components"@][0] == "./src/components"@,
    ensures
        target_of(RegistryType::Component, item_name, resolved_paths(root, table)) == Some(
            TargetView {
                directory: root + "/src/components/"@ + item_name,
                filename: "index.tsx"@,
            },
        ),
{
    reveal_strlit("./src/components");
    reveal_strlit("/src/components/");
    reveal_strlit("index");
    reveal_strlit("tsx");
    reveal_strlit("index.tsx");
    let declared = "./src/components"@;
    let tail = crate::paths::from_here(declared);
    assert(declared.subrange(0, 2) =~= seq!['.', '/']);
    assert(tail == declared.skip(2));
    assert(tail.len() == 14 && tail[0] == 's');
    let directory = joined(root, tail);
    assert(directory == root + seq!['/'] + tail);
    assert(directory.last() == tail[13]);
    assert(root + seq!['/'] + tail + seq!['/'] + item_name =~= root + "/src/components/"@
        + item_name);
    assert("index"@ + seq!['.'] + "tsx"@ =~= "index.tsx"@);
}

/// One file to write: the directory to make, the file's path in it, and
/// what the file holds.
#[derive(Debug, Clone, PartialEq)]
pub struct WritePlan {
    pub directory: String,
    pub path: String,
    pub content: String,
}

/// The mathematical value of a [`WritePlan`].
pub struct WritePlanView {
    pub directory: Seq<char>,
    pub path: Seq<char>,
    pub content: Seq<char>,
}

impl View for WritePlan {
    type V = WritePlanView;

    open spec fn view(&self) -> WritePlanView {
        WritePlanView { directory: self.directory@, path: self.path@, content: self.content@ }
    }
}

/// The views of a list of plans, in order.
pub open spec fn plans_view(plans: Seq<WritePlan>) -> Seq<WritePlanView> {
    Seq::new(plans.len(), |i: int| plans[i]@)
}

/// What is written for one file of an item, or why nothing is: the target
/// is worked out first, then the content is asked for.
pub open spec fn planned(
    item_name: Seq<char>,
    file: RegistryItemFileView,
    paths: ResolvedPathsView,
) -> Result<WritePlanView, StopView> {
    match target_of(file.item_type, item_name, paths) {
        None => Err(StopView { component: item_name, path: file.path, empty: false }),
        Some(target) => match file.content {
            None => Err(StopView { component: item_name, path: file.path, empty: true }),
            Some(content) => Ok(
                WritePlanView {
                    directory: target.directory,
                    path: joined(target.directory, target.filename),
                    content,
                },
            ),
        },
    }
}

/// Plans one file of an item.
pub fn plan_file(file: &RegistryItemFile, item_name: &str, paths: &ResolvedPaths) -> (r: Result<
    WritePlan,
    AddError,
>)
    ensures
        match planned(item_name@, file@, paths@) {
            Ok(plan) => r is Ok && r->Ok_0@ == plan,
            Err(stop) => r is Err && r->Err_0.reports(stop),
        },
{
    let target = match target_for(file, item_name, paths) {
        Ok(target) => target,
        Err(e) => {
            return Err(e);
        },
    };
    match &file.content {
        None => Err(
            AddError::ContentEmpty { component: item_name.to_owned(), path: file.path.clone() },
        ),
        Some(content) => {
            let path = join(target.directory.as_str(), target.filename.as_str());
            Ok(WritePlan { directory: target.directory, path, content: content.clone() })
        },
    }
}

/// What a batch comes to: the files to write, in order, and why the batch
/// stopped, if it did. The files before the stop are written all the same.
pub struct BatchView {
    pub writes: Seq<WritePlanView>,
    pub stop: Option<StopView>,
}

/// The batch for the first files of one item: file after file, up to the
/// first that cannot be planned.
pub open spec fn plan_files(
    item_name: Seq<char>,
    files: Seq<RegistryItemFileView>,
    paths: ResolvedPathsView,
) -> BatchView
    decreases files.len(),
{
    if files.len() == 0 {
        BatchView { writes: Seq::empty(), stop: None }
    } else {
        let front = plan_files(item_name, files.drop_last(), paths);
        if front.stop is Some {
            front
        } else {
            match planned(item_name, files.last(), paths) {
                Ok(plan) => BatchView { writes: front.writes.push(plan), stop: None },
                Err(stop) => BatchView { writes: front.writes, stop: Some(stop) },
            }
        }
    }
}

/// The batch for a list of items: item after item, the files of each in
/// order, up to the first file that cannot be planned.
pub open spec fn plan_items(items: Seq<RegistryItemView>, paths: ResolvedPathsView) -> BatchView
    decreases items.len(),
{
    if items.len() == 0 {
        BatchView { writes: Seq::empty(), stop: None }
    } else {
        let front = plan_items(items.drop_last(), paths);
        if front.stop is Some {
            front
        } else {
            let here = plan_files(items.last().name, items.last().files, paths);
            BatchView { writes: front.writes + here.writes, stop: here.stop }
        }
    }
}

/// A batch of files that has stopped stays as it is, whatever files follow.
proof fn lemma_files_stay_stopped(
    item_name: Seq<char>,
    files: Seq<RegistryItemFileView>,
    paths: ResolvedPathsView,
    k: int,
)
    requires
        0 <= k <= files.len(),
        plan_files(item_name, files.take(k), paths).stop is Some,
    ensures
        plan_files(item_name, files, paths) == plan_files(item_name, files.take(k), paths),
    decreases files.len(),
{
    if k == files.len() {
        assert(files.take(k) =~= files);
    } else {
        assert(files.drop_last().take(k) =~= files.take(k));
        lemma_files_stay_stopped(item_name, files.drop_last(), paths, k);
    }
}

/// A batch of items that has stopped stays as it is, whatever items
/// follow.
proof fn lemma_items_stay_stopped(items: Seq<RegistryItemView>, paths: ResolvedPathsView, k: int)
    requires
        0 <= k <= items.len(),
        plan_items(items.take(k), paths).stop is Some,
    ensures
        plan_items(items, paths) == plan_items(items.take(k), paths),
    decreases items.len(),
{
    if k == items.len() {
        assert(items.take(k) =~= items);
    } else {
        assert(items.drop_last().take(k) =~= items.take(k));
        lemma_items_stay_stopped(items.drop_last(), paths, k);
    }
}

/// The files to write for a batch, and the error that ends it, if one
/// does.
#[derive(Debug)]
pub struct Batch {
    pub writes: Vec<WritePlan>,
    pub failure: Option<AddError>,
}

impl Batch {
    /// The batch is the one that `plan` describes.
    pub open spec fn is_plan(self, plan: BatchView) -> bool {
        &&& plans_view(self.writes@) == plan.writes
        &&& match plan.stop {
            Some(stop) => self.failure is Some && self.failure->0.reports(stop),
            None => self.failure is None,
        }
    }
}

/// Plans the batch for `items`, in order: the files to write, and the
/// first failure. Nothing after the failure is planned; what comes before
/// it is written all the same.
pub fn add_components(items: &Vec<RegistryItem>, config: &Config) -> (r: Batch)
    ensures
        r.is_plan(plan_items(items_view(items@), config@.resolved_paths)),
{
    let ghost all = items_view(items@);
    let ghost paths = config@.resolved_paths;
    let mut writes: Vec<WritePlan> = Vec::new();
    let mut i: usize = 0;
    assert(all.take(0) =~= Seq::<RegistryItemView>::empty());
    assert(plans_view(writes@) =~= Seq::<WritePlanView>::empty());
    while i < items.len()
        invariant
            i <= items.len(),
            all == items_view(items@),
            paths == config@.resolved_paths,
            plan_items(all.take(i as int), paths).stop is None,
            plans_view(writes@) == plan_items(all.take(i as int), paths).writes,
        decreases items.len() - i,
    {
        let item = &items[i];
        let ghost name = all[i as int].name;
        let ghost files = all[i as int].files;
        let ghost front = plan_items(all.take(i as int), paths).writes;
        proof {
            assert(all.take(i + 1).drop_last() =~= all.take(i as int));
            assert(all.take(i + 1).last() == all[i as int]);
            assert(files == files_view(item.files@));
            assert(files.take(0) =~= Seq::<RegistryItemFileView>::empty());
            assert(front + Seq::<WritePlanView>::empty() =~= front);
        }
        let mut k: usize = 0;
        while k < item.files.len()
            invariant
                k <= item.files.len(),
                i < items.len(),
                all == items_view(items@),
                name == all[i as int].name,
                files == all[i as int].files,
                front == plan_items(all.take(i as int), paths).writes,
                plan_items(all.take(i as int), paths).stop is None,
                all.take(i + 1).drop_last() == all.take(i as int),
                all.take(i + 1).last() == all[i as int],
                files == files_view(item.files@),
                name == item.name@,
                paths == config@.resolved_paths,
                plan_files(name, files.take(k as int), paths).stop is None,
                plans_view(writes@) == front + plan_files(name, files.take(k as int), paths).writes,
            decreases item.files.len() - k,
        {
            proof {
                assert(files.take(k + 1).drop_last() =~= files.take(k as int));
                assert(files.take(k + 1).last() == files[k as int]);
            }
            let ghost so_far = plan_files(name, files.take(k as int), paths).writes;
            match plan_file(&item.files[k], item.name.as_str(), &config.resolved_paths) {
                Ok(plan) => {
                    let ghost before = plans_view(writes@);
                    let ghost added = plan@;
                    writes.push(plan);
                    proof {
                        assert(plans_view(writes@) =~= before.push(added));
                        assert(before.push(added) =~= front + so_far.push(added));
                    }
                },
                Err(e) => {
                    proof {
                        lemma_files_stay_stopped(name, files, paths, k + 1);
                        lemma_items_stay_stopped(all, paths, i + 1);
                    }
                    return Batch { writes, failure: Some(e) };
                },
            }
            k = k + 1;
        }
        proof {
            assert(files.take(k as int) =~= files);
        }
        i = i + 1;
    }
    proof {
        assert(all.take(i as int) =~= all);
    }
    Batch { writes, failure: None }
}

/// What the add command checks before it reads or writes anything: that
/// a component was asked for, and then what the checks of the project say,
/// given what the file system said of the working directory, of
/// `package.json` and of `components.json` in it.
pub fn add_command(
    options: &AddSchema,
    cwd: Probe,
    package_json: Probe,
    components_json: Probe,
) -> (r: Result<(), AddError>)
    ensures
        options.components@.len() == 0 ==> r matches Err(AddError::ComponentsEmpty),
        options.components@.len() > 0 ==> match cwd {
            Probe::Failed(cause) => r matches Err(AddError::PreflightAdd(PreflightAdd::IoError(e)))
                && e == cause,
            Probe::Absent => r matches Err(AddError::PreflightAdd(PreflightAdd::MissingCWD)),
            Probe::Present => match package_json {
                Probe::Failed(cause) => r matches Err(
                    AddError::PreflightAdd(PreflightAdd::IoError(e)),
                ) && e == cause,
                Probe::Absent => r matches Err(
                    AddError::PreflightAdd(PreflightAdd::PackageJsonNotFound),
                ),
                Probe::Present => match components_json {
                    Probe::Failed(cause) => r matches Err(
                        AddError::PreflightAdd(PreflightAdd::IoError(e)),
                    ) && e == cause,
                    Probe::Absent => r matches Err(
                        AddError::PreflightAdd(PreflightAdd::ComponentsJsonMissing),
                    ),
                    Probe::Present => r is Ok,
                },
            },
        },
{
    if options.components.len() == 0 {
        return Err(AddError::ComponentsEmpty);
    }
    match preflight_add(cwd, package_json, components_json) {
        Ok(()) => Ok(()),
        Err(e) => Err(AddError::PreflightAdd(e)),
    }
}

/// The address of the descriptor of the item `component`.
pub open spec fn item_address(component: Seq<char>) -> Seq<char> {
    "https://lumina-ui.com/r/"@ + component + ".json"@
}

/// The address to ask for the descriptor of `component`.
pub fn registry_item_url(component: &str) -> (r: String)
    ensures
        r@ == item_address(component@),
{
    let mut url: String = "https://lumina-ui.com/r/".to_owned();
    url.append(component);
    url.append(".json");
    url
}

/// The registry answered the request with a descriptor.
pub open spec fn answered(status: u16) -> bool {
    200 <= status < 300
}

/// The descriptor that an answer holds for `component`: the body is JSON,
/// describes an item, and the item goes by the name that was asked for.
pub open spec fn described(component: Seq<char>, body: Seq<char>) -> Option<RegistryItemView> {
    match parsed_text(body) {
        None => None,
        Some(tree) => match item_of(tree) {
            None => None,
            Some(item) => if item.name == component {
                Some(item)
            } else {
                None
            },
        },
    }
}

/// What the registry's answer to the request for `component` comes to,
/// given the status and the body of the answer. The status 404 says that
/// the registry has no such item; any other status that is no success
/// counts as a failure of the network, reported with the body; a body that
/// holds no descriptor of `component` is malformed.
pub fn resolve_registry_item(component: &str, status: u16, body: &str) -> (r: Result<
    RegistryItem,
    RegistryError,
>)
    ensures
        status == 404 ==> (r matches Err(RegistryError::RegistryItemNotFound(name)) && name@
            == component@),
        status != 404 && !answered(status) ==> (r matches Err(
            RegistryError::NetworkFailure(said),
        ) && said@ == body@),
        answered(status) ==> match described(component@, body@) {
            Some(item) => r is Ok && r->Ok_0@ == item,
            None => r matches Err(RegistryError::RegistryItemMalformed(name)) && name@
                == component@,
        },
{
    if status == 404 {
        return Err(RegistryError::RegistryItemNotFound(component.to_owned()));
    }
    if status < 200 || status >= 300 {
        return Err(RegistryError::NetworkFailure(body.to_owned()));
    }
    let tree = match read_text(body) {
        Ok(tree) => tree,
        Err(_) => {
            return Err(RegistryError::RegistryItemMalformed(component.to_owned()));
        },
    };
    match RegistryItem::from_tree(&tree) {
        Some(item) => {
            if same_text(item.name.as_str(), component) {
                Ok(item)
            } else {
                Err(RegistryError::RegistryItemMalformed(component.to_owned()))
            }
        },
        None => Err(RegistryError::RegistryItemMalformed(component.to_owned())),
    }
}

} // verus!
