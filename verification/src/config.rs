//! The registry of projects in the home directory and the layout of one project.
//!
//! Reading the two files is left to the caller. What is decided here is where the
//! files stand, what a registry looks like after a project was entered into it, and
//! what a layout looks like once the project-wide defaults have been filled in.

use vstd::prelude::*;
use crate::error::{Error, ErrorModel};
use crate::text;

verus! {

/// A project as the registry names it.
#[derive(Clone, Debug, PartialEq, Eq)]
pub struct ProjectDefinition {
    pub name: String,
    pub path: String,
}

/// What a [`ProjectDefinition`] holds, as plain text.
pub struct DefinitionModel {
    pub name: Seq<char>,
    pub path: Seq<char>,
}

impl View for ProjectDefinition {
    type V = DefinitionModel;

    open spec fn view(&self) -> DefinitionModel {
        DefinitionModel { name: self.name@, path: self.path@ }
    }
}

impl DeepView for ProjectDefinition {
    type V = DefinitionModel;

    open spec fn deep_view(&self) -> DefinitionModel {
        self@
    }
}

/// The registry: every project that was entered, in the order of the file.
#[derive(Clone, Debug, PartialEq, Eq)]
pub struct HomeConfig {
    pub project: Vec<ProjectDefinition>,
}

impl View for HomeConfig {
    type V = Seq<DefinitionModel>;

    open spec fn view(&self) -> Seq<DefinitionModel> {
        self.project.deep_view()
    }
}

/// One declared window. Every field may be left out.
#[derive(Clone, Debug, PartialEq, Eq)]
pub struct Window {
    /// The window's title.
    pub name: Option<String>,
    /// The directory the window works in, relative to the project's path.
    pub folder: Option<String>,
    /// The command that the window's first pane runs.
    pub command: Option<String>,
    /// A script, relative to the project's path, that both panes source first.
    pub start: Option<String>,
}

/// What a [`Window`] holds, as plain text.
pub struct WindowModel {
    pub name: Option<Seq<char>>,
    pub folder: Option<Seq<char>>,
    pub command: Option<Seq<char>>,
    pub start: Option<Seq<char>>,
}

impl View for Window {
    type V = WindowModel;

    open spec fn view(&self) -> WindowModel {
        WindowModel {
            name: self.name.deep_view(),
            folder: self.folder.deep_view(),
            command: self.command.deep_view(),
            start: self.start.deep_view(),
        }
    }
}

impl DeepView for Window {
    type V = WindowModel;

    open spec fn deep_view(&self) -> WindowModel {
        self@
    }
}

/// What a project's windows fall back on where they leave a field out.
#[derive(Clone, Debug, PartialEq, Eq)]
pub struct Default {
    pub start: Option<String>,
}

/// What a [`Default`] holds, as plain text.
pub struct DefaultModel {
    pub start: Option<Seq<char>>,
}

impl View for Default {
    type V = DefaultModel;

    open spec fn view(&self) -> DefaultModel {
        DefaultModel { start: self.start.deep_view() }
    }
}

impl DeepView for Default {
    type V = DefaultModel;

    open spec fn deep_view(&self) -> DefaultModel {
        self@
    }
}

/// A project's layout file: its windows as declared, and the optional defaults.
#[derive(Clone, Debug, PartialEq, Eq)]
pub struct ProjectConfig {
    pub windows: Vec<Window>,
    pub default: Option<Default>,
}

/// What a [`ProjectConfig`] holds, as plain text.
pub struct ProjectConfigModel {
    pub windows: Seq<WindowModel>,
    pub default: Option<DefaultModel>,
}

impl View for ProjectConfig {
    type V = ProjectConfigModel;

    open spec fn view(&self) -> ProjectConfigModel {
        ProjectConfigModel {
            windows: self.windows.deep_view(),
            default: self.default.deep_view(),
        }
    }
}

/// A project that is ready to be started: its name, the directory it lives in and
/// its windows with the defaults filled in. A project without windows is in order.
#[derive(Clone, Debug, PartialEq, Eq)]
pub struct Project {
    pub windows: Vec<Window>,
    pub path: String,
    pub name: String,
}

/// What a [`Project`] holds, as plain text.
pub struct ProjectModel {
    pub windows: Seq<WindowModel>,
    pub path: Seq<char>,
    pub name: Seq<char>,
}

impl View for Project {
    type V = ProjectModel;

    open spec fn view(&self) -> ProjectModel {
        ProjectModel { windows: self.windows.deep_view(), path: self.path@, name: self.name@ }
    }
}

/// What the file system answered when a configuration file was asked for.
#[derive(Clone, Debug, PartialEq, Eq)]
pub enum ReadOutcome {
    /// Nothing stands at the path, or what stands there is not a regular file.
    Missing,
    /// The file is there, but opening or reading it failed for the reason given.
    Failed(String),
    /// The file was read; this is its text.
    Contents(String),
}

/// The configuration file of `directory`: the fixed file name inside it.
pub open spec fn config_path(directory: Seq<char>) -> Seq<char> {
    directory + "/.pjconfig"@
}

/// `path` with a leading `~` replaced by the home directory, where `path` begins
/// with `~/`; any other path is left as it is.
pub open spec fn expanded(path: Seq<char>, home_directory: Seq<char>) -> Seq<char> {
    if "~/"@.is_prefix_of(path) {
        home_directory + path.skip(1)
    } else {
        path
    }
}

/// A path that begins at the root of the file system.
pub open spec fn is_absolute(path: Seq<char>) -> bool {
    path.len() > 0 && path[0] == '/'
}

/// A window as it stands after the defaults were filled in: a start script that
/// the window declares itself is kept, one that it leaves out is taken from the
/// defaults, and no other field is touched.
pub open spec fn with_defaults(window: WindowModel, defaults: Option<DefaultModel>) -> WindowModel {
    WindowModel {
        name: window.name,
        folder: window.folder,
        command: window.command,
        start: match (window.start, defaults) {
            (None, Some(d)) => d.start,
            _ => window.start,
        },
    }
}

/// The windows of a layout with the defaults filled in, in the declared order.
pub open spec fn merged(defaults: Option<DefaultModel>, windows: Seq<WindowModel>) -> Seq<
    WindowModel,
> {
    Seq::new(windows.len(), |i: int| with_defaults(windows[i], defaults))
}

/// The project that a registry entry and its layout file describe.
pub open spec fn loaded(
    definition: DefinitionModel,
    home_directory: Seq<char>,
    config: ProjectConfigModel,
) -> ProjectModel {
    ProjectModel {
        windows: merged(config.default, config.windows),
        path: expanded(definition.path, home_directory),
        name: definition.name,
    }
}

/// The test that keeps every registry entry but those called `name`.
pub open spec fn named_otherwise(name: Seq<char>) -> spec_fn(DefinitionModel) -> bool {
    |d: DefinitionModel| d.name != name
}

/// The test that picks the registry entries called `name`.
pub open spec fn named(name: Seq<char>) -> spec_fn(DefinitionModel) -> bool {
    |d: DefinitionModel| d.name == name
}

/// The registry after `name` was entered with `path`: every entry of that name is
/// gone, the others stand as they stood, and the new entry comes last.
pub open spec fn upserted(
    registry: Seq<DefinitionModel>,
    name: Seq<char>,
    path: Seq<char>,
) -> Seq<DefinitionModel> {
    registry.filter(named_otherwise(name)).push(DefinitionModel { name, path })
}

/// No two entries of the registry have the same name.
pub open spec fn has_unique_names(registry: Seq<DefinitionModel>) -> bool {
    forall|i: int, j: int|
        0 <= i < j < registry.len() ==> (#[trigger] registry[i]).name != (
        #[trigger] registry[j]).name
}

/// The entry at place `at` is called `name`, and none before it is.
pub open spec fn is_first_named(registry: Seq<DefinitionModel>, name: Seq<char>, at: int) -> bool {
    &&& 0 <= at < registry.len()
    &&& registry[at].name == name
    &&& forall|k: int| 0 <= k < at ==> (#[trigger] registry[k]).name != name
}

/// No entry of the registry is called `name`.
pub open spec fn is_unregistered(registry: Seq<DefinitionModel>, name: Seq<char>) -> bool {
    forall|k: int| 0 <= k < registry.len() ==> (#[trigger] registry[k]).name != name
}

/// Entering a project leaves exactly one entry of its name, which holds the path
/// that was entered, and keeps every entry of another name in its order.
/// Entering the same project a second time changes nothing.
pub proof fn lemma_upsert(registry: Seq<DefinitionModel>, name: Seq<char>, path: Seq<char>)
    ensures
        upserted(registry, name, path).filter(named(name)) == seq![DefinitionModel { name, path }],
        upserted(registry, name, path).filter(named_otherwise(name)) == registry.filter(
            named_otherwise(name),
        ),
        upserted(upserted(registry, name, path), name, path) == upserted(registry, name, path),
{
    let entry = DefinitionModel { name, path };
    let others = registry.filter(named_otherwise(name));
    lemma_others_only(registry, name);
    others.lemma_filter_push(entry, named(name));
    others.lemma_filter_push(entry, named_otherwise(name));
}

/// Entering a project into a registry in which no name occurs twice gives such a
/// registry again.
pub proof fn lemma_upsert_keeps_names_unique(
    registry: Seq<DefinitionModel>,
    name: Seq<char>,
    path: Seq<char>,
)
    requires
        has_unique_names(registry),
    ensures
        has_unique_names(upserted(registry, name, path)),
{
    let others = registry.filter(named_otherwise(name));
    let entry = DefinitionModel { name, path };
    lemma_selection_keeps_names_unique(registry, named_otherwise(name));
    let after = others.push(entry);
    assert forall|i: int, j: int| 0 <= i < j < after.len() implies (#[trigger] after[i]).name != (
    #[trigger] after[j]).name by {
        if j == others.len() {
            registry.lemma_filter_pred(named_otherwise(name), i);
        }
    }
}

/// Picking entries out of a registry in which no name occurs twice leaves no name
/// twice.
proof fn lemma_selection_keeps_names_unique(
    registry: Seq<DefinitionModel>,
    picked: spec_fn(DefinitionModel) -> bool,
)
    requires
        has_unique_names(registry),
    ensures
        has_unique_names(registry.filter(picked)),
    decreases registry.len(),
{
    reveal(Seq::filter);
    if registry.len() > 0 {
        let front = registry.drop_last();
        let last = registry.last();
        assert forall|i: int, j: int| 0 <= i < j < front.len() implies (#[trigger] front[i]).name
            != (#[trigger] front[j]).name by {
            assert(front[i] == registry[i] && front[j] == registry[j]);
        }
        lemma_selection_keeps_names_unique(front, picked);
        let kept = front.filter(picked);
        if picked(last) {
            let after = kept.push(last);
            assert forall|i: int, j: int| 0 <= i < j < after.len() implies (
            #[trigger] after[i]).name != (#[trigger] after[j]).name by {
                if j == kept.len() {
                    assert(kept.contains(kept[i]));
                    front.lemma_filter_contains_rev(picked, kept[i]);
                    let k = choose|k: int| 0 <= k < front.len() && front[k] == kept[i];
                    assert(registry[k] == kept[i]);
                    assert(registry[registry.len() - 1] == last);
                }
            }
        }
    }
}

/// Among the entries of other names none is called `name`, and taking the entries
/// of other names a second time changes nothing.
proof fn lemma_others_only(registry: Seq<DefinitionModel>, name: Seq<char>)
    ensures
        registry.filter(named_otherwise(name)).filter(named(name)) == Seq::<
            DefinitionModel,
        >::empty(),
        registry.filter(named_otherwise(name)).filter(named_otherwise(name)) == registry.filter(
            named_otherwise(name),
        ),
    decreases registry.len(),
{
    reveal(Seq::filter);
    if registry.len() > 0 {
        let front = registry.drop_last();
        lemma_others_only(front, name);
        assert(front.push(registry.last()) =~= registry);
        front.lemma_filter_push(registry.last(), named_otherwise(name));
        let kept = front.filter(named_otherwise(name));
        if registry.last().name != name {
            kept.lemma_filter_push(registry.last(), named(name));
            kept.lemma_filter_push(registry.last(), named_otherwise(name));
        }
    }
}

/// A path that is absolute, or that begins with `~/` while the home directory is
/// absolute, expands to an absolute path.
pub proof fn lemma_expanded_is_absolute(path: Seq<char>, home_directory: Seq<char>)
    requires
        is_absolute(path) || ("~/"@.is_prefix_of(path) && is_absolute(home_directory)),
    ensures
        is_absolute(expanded(path, home_directory)),
{
    reveal_strlit("~/");
    if "~/"@.is_prefix_of(path) {
        assert(path[0] == "~/"@[0]);
        assert((home_directory + path.skip(1))[0] == home_directory[0]);
    }
}

/// Filling in defaults keeps the number and the order of the windows, keeps every
/// name, folder and command, and never replaces a start script that a window
/// declares. Without defaults the windows stay as they are.
pub proof fn lemma_merged(defaults: Option<DefaultModel>, windows: Seq<WindowModel>)
    ensures
        merged(defaults, windows).len() == windows.len(),
        forall|i: int|
            #![trigger merged(defaults, windows)[i]]
            0 <= i < windows.len() ==> {
                let before = windows[i];
                let after = merged(defaults, windows)[i];
                &&& after.name == before.name
                &&& after.folder == before.folder
                &&& after.command == before.command
                &&& before.start is Some ==> after.start == before.start
                &&& before.start is None ==> after.start == match defaults {
                    Some(d) => d.start,
                    None => None,
                }
            },
        defaults is None ==> merged(defaults, windows) == windows,
        merged(defaults, merged(defaults, windows)) == merged(defaults, windows),
{
    if defaults is None {
        assert(merged(defaults, windows) =~= windows);
    }
    assert(merged(defaults, merged(defaults, windows)) =~= merged(defaults, windows));
}

/// Where the configuration file of `directory` stands.
pub fn get_config_path(directory: &str) -> (path: String)
    ensures
        path@ == config_path(directory@),
{
    let mut path = String::from_str(directory);
    path.append("/.pjconfig");
    path
}

/// Where the registry stands, given the user's home directory.
pub fn get_home_config_path(home_directory: &str) -> (path: String)
    ensures
        path@ == config_path(home_directory@),
{
    get_config_path(home_directory)
}

/// Replaces a leading `~` by the home directory where `path` begins with `~/`.
pub fn expand_home(path: &str, home_directory: &str) -> (full: String)
    ensures
        full@ == expanded(path@, home_directory@),
{
    if text::starts_with(path, "~/") {
        proof {
            reveal_strlit("~/");
        }
        let length: usize = path.unicode_len();
        let mut full = String::from_str(home_directory);
        full.append(path.substring_char(1, length));
        assert(path@.subrange(1, length as int) =~= path@.skip(1));
        full
    } else {
        String::from_str(path)
    }
}

/// Turns what the file system answered for the file at `file_path` into its text
/// or into the failure that ends the command.
pub fn read_config(file_path: &str, outcome: ReadOutcome) -> (contents: Result<String, Error>)
    ensures
        match outcome {
            ReadOutcome::Missing => contents matches Err(e) && e@ == (ErrorModel::ConfigNotFound {
                path: file_path@,
            }),
            ReadOutcome::Failed(why) => contents matches Err(e) && e@ == (
            ErrorModel::ConfigUnreadable { path: file_path@, reason: why@ }),
            ReadOutcome::Contents(text) => contents == Ok::<String, Error>(text),
        },
{
    match outcome {
        ReadOutcome::Missing => Err(Error::ConfigNotFound { path: String::from_str(file_path) }),
        ReadOutcome::Failed(why) => Err(
            Error::ConfigUnreadable { path: String::from_str(file_path), reason: why },
        ),
        ReadOutcome::Contents(text) => Ok(text),
    }
}

/// Turns what the parser made of the file at `file_path` into the value it read
/// or into the failure that ends the command.
pub fn parsed<T>(file_path: &str, outcome: Result<T, String>) -> (value: Result<T, Error>)
    ensures
        match outcome {
            Ok(read) => value == Ok::<T, Error>(read),
            Err(why) => value matches Err(e) && e@ == (ErrorModel::ConfigMalformed {
                path: file_path@,
                reason: why@,
            }),
        },
{
    match outcome {
        Ok(read) => Ok(read),
        Err(why) => Err(Error::ConfigMalformed { path: String::from_str(file_path), reason: why }),
    }
}

/// A copy of an optional text.
fn copy_text(text: &Option<String>) -> (copy: Option<String>)
    ensures
        copy.deep_view() == text.deep_view(),
{
    match text {
        Some(s) => Some(s.clone()),
        None => None,
    }
}

/// Fills the project-wide defaults into the windows of a layout.
///
/// A window that declares no start script takes the one of the defaults, if there
/// is one. Nothing else is changed, and the windows keep their order.
pub fn merge(defaults: &Option<Default>, windows: Vec<Window>) -> (filled: Vec<Window>)
    ensures
        filled.deep_view() == merged(defaults.deep_view(), windows.deep_view()),
{
    let ghost declared = windows.deep_view();
    let mut filled: Vec<Window> = Vec::new();
    for window in it: windows
        invariant
            it.seq().len() == declared.len(),
            forall|k: int| 0 <= k < declared.len() ==> (#[trigger] it.seq()[k]).deep_view() == declared[k],
            filled.deep_view() == merged(defaults.deep_view(), declared.take(it.index() as int)),
    {
        let ghost position = it.index() as int;
        let ghost so_far = filled.deep_view();
        let Window { name, folder, command, start } = window;
        let start = match start {
            Some(script) => Some(script),
            None => match defaults {
                Some(d) => copy_text(&d.start),
                None => None,
            },
        };
        filled.push(Window { name, folder, command, start });
        proof {
            assert(filled.deep_view() =~= so_far.push(
                with_defaults(declared[position], defaults.deep_view()),
            ));
            assert(filled.deep_view() =~= merged(
                defaults.deep_view(),
                declared.take(position + 1),
            ));
        }
    }
    proof {
        assert(declared.take(declared.len() as int) =~= declared);
    }
    filled
}

/// Builds the project that a registry entry and the contents of its layout file
/// describe. The layout file is the one at `get_config_path` of the expanded path.
pub fn load_project(
    project: &ProjectDefinition,
    home_directory: &str,
    config: ProjectConfig,
) -> (resolved: Project)
    ensures
        resolved@ == loaded(project@, home_directory@, config@),
{
    let ProjectConfig { windows, default } = config;
    let path = expand_home(project.path.as_str(), home_directory);
    let windows = merge(&default, windows);
    Project { windows, path, name: project.name.clone() }
}

/// Enters the project `project_name` with the path `current_path` into the
/// registry: entries of that name are dropped, the new one is added at the end.
pub fn add_current_path_to_home_config(
    current_config: HomeConfig,
    project_name: &str,
    current_path: &str,
) -> (new_config: HomeConfig)
    ensures
        new_config@ == upserted(current_config@, project_name@, current_path@),
{
    let ghost registry = current_config@;
    let ghost keep = named_otherwise(project_name@);
    let mut filtered_projects: Vec<ProjectDefinition> = Vec::new();
    proof {
        reveal(Seq::filter);
        assert(registry.take(0).filter(keep) =~= Seq::<DefinitionModel>::empty());
    }
    for definition in it: current_config.project
        invariant
            keep == named_otherwise(project_name@),
            it.seq().len() == registry.len(),
            forall|k: int| 0 <= k < registry.len() ==> (#[trigger] it.seq()[k]).deep_view() == registry[k],
            filtered_projects.deep_view() == registry.take(it.index() as int).filter(keep),
    {
        let ghost position = it.index() as int;
        let ghost so_far = filtered_projects.deep_view();
        proof {
            assert(registry.take(position + 1) =~= registry.take(position).push(registry[position]));
            registry.take(position).lemma_filter_push(registry[position], keep);
        }
        if !text::equal(definition.name.as_str(), project_name) {
            filtered_projects.push(definition);
            assert(filtered_projects.deep_view() =~= so_far.push(registry[position]));
        }
    }
    proof {
        assert(registry.take(registry.len() as int) =~= registry);
    }
    let ghost others = filtered_projects.deep_view();
    filtered_projects.push(
        ProjectDefinition {
            name: String::from_str(project_name),
            path: String::from_str(current_path),
        },
    );
    assert(filtered_projects.deep_view() =~= others.push(
        DefinitionModel { name: project_name@, path: current_path@ },
    ));
    HomeConfig { project: filtered_projects }
}

/// The projects of the registry, in its order.
pub fn get_project_defintions(home_config: HomeConfig) -> (definitions: Vec<ProjectDefinition>)
    ensures
        definitions == home_config.project,
{
    home_config.project
}

/// Looks a project up in the registry by its name.
///
/// Returns a copy of the first entry of that name, and `ProjectNotRegistered`
/// exactly when no entry has it.
pub fn get_project(projects: &Vec<ProjectDefinition>, project_name: &str) -> (found: Result<
    ProjectDefinition,
    Error,
>)
    ensures
        match found {
            Ok(definition) => exists|at: int|
                #![trigger projects.deep_view()[at]]
                is_first_named(projects.deep_view(), project_name@, at) && definition@
                    == projects.deep_view()[at],
            Err(e) => is_unregistered(projects.deep_view(), project_name@) && e@ == (
            ErrorModel::ProjectNotRegistered { name: project_name@ }),
        },
{
    let ghost registry = projects.deep_view();
    let mut i: usize = 0;
    while i < projects.len()
        invariant
            registry == projects.deep_view(),
            i <= projects.len(),
            forall|k: int| 0 <= k < i ==> (#[trigger] registry[k]).name != project_name@,
        decreases projects.len() - i,
    {
        let definition = &projects[i];
        if text::equal(definition.name.as_str(), project_name) {
            let copy = ProjectDefinition {
                name: definition.name.clone(),
                path: definition.path.clone(),
            };
            assert(is_first_named(registry, project_name@, i as int));
            assert(copy@ == registry[i as int]);
            return Ok(copy);
        }
        i += 1;
    }
    Err(Error::ProjectNotRegistered { name: String::from_str(project_name) })
}

} // verus!
