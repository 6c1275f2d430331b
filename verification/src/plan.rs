//! Planning the package-manager command that installs a set of packages.

use vstd::prelude::*;
use crate::chars;
use crate::ordered::{sort_strings, sorted};
use crate::string_map::StringMap;
use crate::text;
use crate::types::option_view;
use crate::workspace::{PackageManagerContext, PackageManagerKind};

verus! {

/// The scope in which a package is installed.
#[derive(Clone, Copy, Debug, PartialEq, Eq, Structural)]
pub enum DependencyScope {
    Regular,
    Dev,
    Peer,
}

/// One invocation of a package manager, fully resolved and not yet run.
#[derive(Clone, Debug, PartialEq, Eq)]
pub struct DependencyInstallPlan {
    pub package_manager: PackageManagerKind,
    pub program: String,
    pub args: Vec<String>,
    pub working_directory: String,
    pub workspace_descriptor: Option<String>,
    pub dependencies: Vec<String>,
    pub env: Vec<(String, String)>,
}

/// What a `DependencyInstallPlan` says.
pub struct DependencyInstallPlanView {
    pub package_manager: PackageManagerKind,
    pub program: Seq<char>,
    pub args: Seq<Seq<char>>,
    pub working_directory: Seq<char>,
    pub workspace_descriptor: Option<Seq<char>>,
    pub dependencies: Seq<Seq<char>>,
    pub env: Seq<(Seq<char>, Seq<char>)>,
}

/// The pairs of texts that a list of pairs of strings holds.
pub open spec fn pair_views(pairs: Seq<(String, String)>) -> Seq<(Seq<char>, Seq<char>)> {
    Seq::new(pairs.len(), |i: int| (pairs[i].0@, pairs[i].1@))
}

impl View for DependencyInstallPlan {
    type V = DependencyInstallPlanView;

    open spec fn view(&self) -> DependencyInstallPlanView {
        DependencyInstallPlanView {
            package_manager: self.package_manager,
            program: self.program@,
            args: chars::views(self.args@),
            working_directory: self.working_directory@,
            workspace_descriptor: option_view(self.workspace_descriptor),
            dependencies: chars::views(self.dependencies@),
            env: pair_views(self.env@),
        }
    }
}

/// What became of a request to install packages.
#[derive(Clone, Debug, PartialEq, Eq)]
pub enum DependencyInstallOutcome {
    /// There was nothing to install.
    Skipped,
    /// The plan was carried out.
    Executed(DependencyInstallPlan),
}

impl DependencyInstallPlan {
    /// The program followed by its arguments.
    pub fn command_line(&self) -> (r: Vec<String>)
        ensures
            chars::views(r@) == seq![self.program@] + chars::views(self.args@),
    {
        let mut line: Vec<String> = Vec::new();
        line.push(self.program.clone());
        let mut i: usize = 0;
        while i < self.args.len()
            invariant
                i <= self.args.len(),
                line@.len() == i + 1,
                line@[0]@ == self.program@,
                forall|j: int| 0 <= j < i ==> line@[j + 1]@ == self.args@[j]@,
            decreases self.args.len() - i,
        {
            line.push(self.args[i].clone());
            i += 1;
        }
        assert(chars::views(line@) =~= seq![self.program@] + chars::views(self.args@));
        line
    }

    /// The workspace or directory that the plan installs into, as shown to
    /// the user.
    pub fn target_label(&self) -> (r: Option<&str>)
        ensures
            (match r {
                Some(label) => Some(label@),
                None => None,
            }) == option_view(self.workspace_descriptor),
    {
        match &self.workspace_descriptor {
            Some(label) => Some(label.as_str()),
            None => None,
        }
    }
}

/// What the surroundings of a project add to a context: the package manager
/// that its lock files point to, and the linker that bun is configured with.
#[derive(Clone, Debug)]
pub struct InstallEnvironment {
    pub detected_package_manager: Option<PackageManagerKind>,
    pub bun_linker: Option<String>,
}

/// The token that names one package and its version range.
pub open spec fn install_token(entry: (Seq<char>, Seq<char>)) -> Seq<char> {
    entry.0 + "@"@ + entry.1
}

/// The tokens of the packages to install, in the map's order.
pub open spec fn install_tokens(dependencies: Seq<(Seq<char>, Seq<char>)>) -> Seq<Seq<char>> {
    Seq::new(dependencies.len(), |i: int| install_token(dependencies[i]))
}

/// The package manager of a plan: the context's, else the detected one,
/// else npm.
pub open spec fn plan_package_manager(
    context: PackageManagerContext,
    environment: InstallEnvironment,
) -> PackageManagerKind {
    match context.package_manager {
        Some(kind) => kind,
        None => match environment.detected_package_manager {
            Some(kind) => kind,
            None => PackageManagerKind::Npm,
        },
    }
}

/// How a plan names its target: the workspace's package, else its directory.
pub open spec fn plan_descriptor(context: PackageManagerContext) -> Option<Seq<char>> {
    match context.workspace_package {
        Some(package) => Some("workspace `"@ + package@ + "`"@),
        None => match context.workspace_root {
            Some(root) => Some("directory "@ + root@),
            None => None,
        },
    }
}

/// The arguments of the install command in the shape that each package
/// manager takes.
pub open spec fn plan_args(
    kind: PackageManagerKind,
    tokens: Seq<Seq<char>>,
    package: Option<Seq<char>>,
    root: Option<Seq<char>>,
) -> Seq<Seq<char>> {
    match kind {
        PackageManagerKind::Yarn => match package {
            Some(name) => seq!["workspace"@, name, "add"@] + tokens,
            None => seq!["add"@] + tokens,
        },
        PackageManagerKind::Pnpm => match package {
            Some(name) => seq!["add"@, "--filter"@, name] + tokens,
            None => seq!["add"@] + tokens,
        },
        PackageManagerKind::Bun => match root {
            Some(dir) => seq!["add"@] + tokens + seq!["--cwd"@, dir],
            None => seq!["add"@] + tokens,
        },
        PackageManagerKind::Npm => match package {
            Some(name) => seq!["install"@] + tokens + seq!["--workspace"@, name],
            None => seq!["install"@] + tokens,
        },
    }
}

/// The directory in which the command runs: the repository's root where
/// the package is named or bun is used, else the workspace's directory.
pub open spec fn plan_directory(
    kind: PackageManagerKind,
    repo_root: Seq<char>,
    package: Option<Seq<char>>,
    root: Option<Seq<char>>,
) -> Seq<char> {
    if kind == PackageManagerKind::Bun || package is Some {
        repo_root
    } else {
        match root {
            Some(dir) => dir,
            None => repo_root,
        }
    }
}

/// The environment of the command: bun is told its linker where one is
/// configured.
pub open spec fn plan_env(kind: PackageManagerKind, linker: Option<Seq<char>>) -> Seq<
    (Seq<char>, Seq<char>),
> {
    match linker {
        Some(value) => if kind == PackageManagerKind::Bun {
            seq![("BUN_INSTALL_LINKER"@, value)]
        } else {
            seq![]
        },
        None => seq![],
    }
}

/// The plan that installs the packages named by `tokens`.
pub open spec fn plan_for(
    tokens: Seq<Seq<char>>,
    context: PackageManagerContext,
    environment: InstallEnvironment,
) -> DependencyInstallPlanView {
    let kind = plan_package_manager(context, environment);
    let package = option_view(context.workspace_package);
    let root = option_view(context.workspace_root);
    DependencyInstallPlanView {
        package_manager: kind,
        program: kind.name(),
        args: plan_args(kind, tokens, package, root),
        working_directory: plan_directory(kind, context.repo_root@, package, root),
        workspace_descriptor: plan_descriptor(context),
        dependencies: tokens,
        env: plan_env(kind, option_view(environment.bun_linker)),
    }
}

/// The text of two strings, one after the other.
fn joined(a: &str, b: &str) -> (r: String)
    ensures
        r@ == a@ + b@,
{
    let mut all = chars::chars_of(a);
    let rest = chars::chars_of(b);
    chars::append(&mut all, &rest);
    chars::string_of(&all)
}

/// Appends copies of `items` to `target`.
fn extend_with(target: &mut Vec<String>, items: &Vec<String>)
    ensures
        chars::views(final(target)@) == chars::views(old(target)@) + chars::views(items@),
{
    let mut i: usize = 0;
    assert(chars::views(target@) =~= chars::views(old(target)@) + chars::views(items@).take(0));
    while i < items.len()
        invariant
            i <= items.len(),
            chars::views(target@) == chars::views(old(target)@) + chars::views(items@).take(
                i as int,
            ),
        decreases items.len() - i,
    {
        let ghost before = chars::views(target@);
        target.push(items[i].clone());
        assert(chars::views(target@) =~= before.push(items@[i as int]@));
        assert(chars::views(items@).take(i + 1) =~= chars::views(items@).take(i as int).push(
            items@[i as int]@,
        ));
        i += 1;
    }
    assert(chars::views(items@).take(items@.len() as int) =~= chars::views(items@));
}

/// Plans the command that installs `dependencies` in the given context.
/// There is no plan where there is nothing to install. The packages are
/// named in rising order of their tokens.
pub fn plan_dependency_install(
    dependencies: &StringMap,
    context: &PackageManagerContext,
    environment: &InstallEnvironment,
) -> (r: Option<DependencyInstallPlan>)
    ensures
        r is None <==> dependencies@.len() == 0,
        r matches Some(plan) ==> {
            &&& sorted(plan@.dependencies)
            &&& plan@.dependencies.to_multiset() == install_tokens(dependencies@).to_multiset()
            &&& plan@ == plan_for(plan@.dependencies, *context, *environment)
        },
{
    if dependencies.is_empty() {
        return None;
    }
    let mut tokens: Vec<String> = Vec::new();
    let mut i: usize = 0;
    while i < dependencies.entries.len()
        invariant
            i <= dependencies.entries.len(),
            chars::views(tokens@) == install_tokens(dependencies@).take(i as int),
        decreases dependencies.entries.len() - i,
    {
        let ghost before = chars::views(tokens@);
        let head = joined(dependencies.entries[i].0.as_str(), "@");
        let token = joined(head.as_str(), dependencies.entries[i].1.as_str());
        tokens.push(token);
        assert(chars::views(tokens@) =~= before.push(install_token(dependencies@[i as int])));
        assert(install_tokens(dependencies@).take(i + 1) =~= before.push(
            install_token(dependencies@[i as int]),
        ));
        i += 1;
    }
    assert(install_tokens(dependencies@).take(dependencies@.len() as int) =~= install_tokens(
        dependencies@,
    ));
    let tokens = sort_strings(tokens);

    let kind = match context.package_manager {
        Some(kind) => kind,
        None => match environment.detected_package_manager {
            Some(kind) => kind,
            None => PackageManagerKind::Npm,
        },
    };
    let workspace_descriptor = match &context.workspace_package {
        Some(package) => {
            let head = joined("workspace `", package.as_str());
            Some(joined(head.as_str(), "`"))
        },
        None => match &context.workspace_root {
            Some(root) => Some(joined("directory ", root.as_str())),
            None => None,
        },
    };
    let ghost package = option_view(context.workspace_package);
    let ghost root = option_view(context.workspace_root);
    let mut args: Vec<String> = Vec::new();
    let mut env: Vec<(String, String)> = Vec::new();
    assert(chars::views(args@) =~= Seq::<Seq<char>>::empty());
    match kind {
        PackageManagerKind::Yarn => {
            match &context.workspace_package {
                Some(name) => {
                    args.push("workspace".to_owned());
                    args.push(name.clone());
                    args.push("add".to_owned());
                    assert(chars::views(args@) =~= seq!["workspace"@, name@, "add"@]);
                },
                None => {
                    args.push("add".to_owned());
                    assert(chars::views(args@) =~= seq!["add"@]);
                },
            }
            extend_with(&mut args, &tokens);
        },
        PackageManagerKind::Pnpm => {
            args.push("add".to_owned());
            match &context.workspace_package {
                Some(name) => {
                    args.push("--filter".to_owned());
                    args.push(name.clone());
                    assert(chars::views(args@) =~= seq!["add"@, "--filter"@, name@]);
                },
                None => {
                    assert(chars::views(args@) =~= seq!["add"@]);
                },
            }
            extend_with(&mut args, &tokens);
        },
        PackageManagerKind::Bun => {
            args.push("add".to_owned());
            assert(chars::views(args@) =~= seq!["add"@]);
            extend_with(&mut args, &tokens);
            match &context.workspace_root {
                Some(dir) => {
                    let ghost before = chars::views(args@);
                    args.push("--cwd".to_owned());
                    args.push(dir.clone());
                    assert(chars::views(args@) =~= before + seq!["--cwd"@, dir@]);
                },
                None => {},
            }
            match &environment.bun_linker {
                Some(linker) => {
                    env.push(("BUN_INSTALL_LINKER".to_owned(), linker.clone()));
                },
                None => {},
            }
        },
        PackageManagerKind::Npm => {
            args.push("install".to_owned());
            assert(chars::views(args@) =~= seq!["install"@]);
            extend_with(&mut args, &tokens);
            match &context.workspace_package {
                Some(name) => {
                    let ghost before = chars::views(args@);
                    args.push("--workspace".to_owned());
                    args.push(name.clone());
                    assert(chars::views(args@) =~= before + seq!["--workspace"@, name@]);
                },
                None => {},
            }
        },
    }
    assert(chars::views(args@) == plan_args(kind, chars::views(tokens@), package, root));
    assert(pair_views(env@) =~= plan_env(kind, option_view(environment.bun_linker)));
    let in_repo_root = match kind {
        PackageManagerKind::Bun => true,
        _ => context.workspace_package.is_some(),
    };
    let working_directory = if in_repo_root {
        context.repo_root.clone()
    } else {
        match &context.workspace_root {
            Some(dir) => dir.clone(),
            None => context.repo_root.clone(),
        }
    };
    Some(
        DependencyInstallPlan {
            package_manager: kind,
            program: kind.as_str().to_owned(),
            args,
            working_directory,
            workspace_descriptor,
            dependencies: tokens,
            env,
        },
    )
}

/// The linker that one line of bun's configuration sets: the value of the
/// key `linker`, without a trailing comment and without quotes, unless empty.
pub open spec fn linker_value(line: Seq<char>) -> Option<Seq<char>> {
    match text::split_once(line, '=') {
        Some((key, value)) => if text::trim(key) == "linker"@ {
            let shown = text::trim_quotes(text::trim(text::before_char(value, '#')));
            if shown.len() == 0 {
                None
            } else {
                Some(shown)
            }
        } else {
            None
        },
        None => None,
    }
}

/// The linker that the lines from `i` on set, `in_install` saying whether
/// the section `[install]` is open at `i`. Empty lines and comments are
/// passed over, a line that starts with `[` opens a section, and the first
/// line of `[install]` that sets a linker decides.
pub open spec fn bun_linker_from(lines: Seq<Seq<char>>, i: int, in_install: bool) -> Option<
    Seq<char>,
>
    decreases lines.len() - i,
{
    if i < 0 || i >= lines.len() {
        None
    } else {
        let line = text::trim(lines[i]);
        if line.len() == 0 || line[0] == '#' {
            bun_linker_from(lines, i + 1, in_install)
        } else if line[0] == '[' {
            bun_linker_from(lines, i + 1, line == "[install]"@)
        } else if !in_install {
            bun_linker_from(lines, i + 1, in_install)
        } else {
            match linker_value(line) {
                Some(value) => Some(value),
                None => bun_linker_from(lines, i + 1, in_install),
            }
        }
    }
}

/// The linker that bun's configuration file sets in its section `[install]`.
pub open spec fn bun_linker(contents: Seq<char>) -> Option<Seq<char>> {
    bun_linker_from(text::lines(contents), 0, false)
}

/// The linker that one line of bun's configuration sets.
fn linker_of_line(line: &Vec<char>) -> (r: Option<Vec<char>>)
    ensures
        (match r {
            Some(v) => Some(v@),
            None => None,
        }) == linker_value(line@),
{
    match chars::split_once(line, '=') {
        Some((key, value)) => {
            let key = chars::trim(&key);
            let wanted = chars::chars_of("linker");
            if !chars::equal(&key, &wanted) {
                return None;
            }
            let shown = chars::trim_quotes(&chars::trim(&chars::before_char(&value, '#')));
            if shown.len() == 0 {
                None
            } else {
                Some(shown)
            }
        },
        None => None,
    }
}

/// Reads the linker out of bun's configuration file.
pub fn parse_bun_linker(contents: &str) -> (r: Option<String>)
    ensures
        option_view(r) == bun_linker(contents@),
{
    let all = chars::chars_of(contents);
    let lines = chars::lines(&all);
    let section = chars::chars_of("[install]");
    let mut in_install = false;
    let mut i: usize = 0;
    while i < lines.len()
        invariant
            i <= lines.len(),
            chars::views(lines@) == text::lines(contents@),
            section@ == "[install]"@,
            bun_linker(contents@) == bun_linker_from(text::lines(contents@), i as int, in_install),
        decreases lines.len() - i,
    {
        let line = chars::trim(&lines[i]);
        assert(line@ == text::trim(text::lines(contents@)[i as int]));
        if line.len() == 0 || line[0] == '#' {
        } else if line[0] == '[' {
            in_install = chars::equal(&line, &section);
        } else if in_install {
            match linker_of_line(&line) {
                Some(value) => {
                    return Some(chars::string_of(&value));
                },
                None => {},
            }
        }
        i += 1;
    }
    None
}

} // verus!
