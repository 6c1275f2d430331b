//! Paths as texts with `/` between their parts, and the place of a
//! component's file below the components directory.

use vstd::prelude::*;
use crate::chars;
use crate::text;
use crate::types::Config;

verus! {

/// `rel` adjoined to `base`: `rel` itself where it starts at the root or
/// `base` is empty, else `base`, one `/` and `rel`.
pub open spec fn joined_path(base: Seq<char>, rel: Seq<char>) -> Seq<char> {
    if text::starts_with(rel, "/"@) || base.len() == 0 {
        rel
    } else if base.last() == '/' {
        base + rel
    } else {
        base + "/"@ + rel
    }
}

/// `rel` adjoined to `base`.
pub fn join_path(base: &str, rel: &str) -> (r: String)
    ensures
        r@ == joined_path(base@, rel@),
{
    let b = chars::chars_of(base);
    let p = chars::chars_of(rel);
    let slash = chars::chars_of("/");
    if chars::starts_with(&p, &slash) || b.len() == 0 {
        return rel.to_owned();
    }
    let mut all = b;
    if all[all.len() - 1] != '/' {
        chars::append(&mut all, &slash);
    }
    chars::append(&mut all, &p);
    chars::string_of(&all)
}

/// The path `path` below the current directory.
pub fn project_path(path: &str) -> (r: String)
    ensures
        r@ == joined_path("."@, path@),
{
    join_path(".", path)
}

/// The parts among the first `n` pieces of a path that name something:
/// neither empty nor the single dot.
pub open spec fn naming_parts(pieces: Seq<Seq<char>>, n: int) -> Seq<Seq<char>>
    decreases n,
{
    if n <= 0 {
        seq![]
    } else {
        let before = naming_parts(pieces, n - 1);
        let piece = pieces[n - 1];
        if piece.len() == 0 || piece == "."@ {
            before
        } else {
            before.push(piece)
        }
    }
}

/// The parts of a path: what stands between its slashes, empty parts and
/// single dots left out.
pub open spec fn path_parts(path: Seq<char>) -> Seq<Seq<char>> {
    let pieces = text::split_char(path, '/');
    naming_parts(pieces, pieces.len() as int)
}

/// The parts of a path.
pub fn parts_of(path: &Vec<char>) -> (r: Vec<Vec<char>>)
    ensures
        chars::views(r@) == path_parts(path@),
{
    let pieces = chars::split_char(path, '/');
    let dot = chars::chars_of(".");
    let mut parts: Vec<Vec<char>> = Vec::new();
    let mut n: usize = 0;
    assert(chars::views(parts@) =~= naming_parts(chars::views(pieces@), 0));
    while n < pieces.len()
        invariant
            n <= pieces.len(),
            dot@ == "."@,
            chars::views(parts@) == naming_parts(chars::views(pieces@), n as int),
        decreases pieces.len() - n,
    {
        let ghost before = chars::views(parts@);
        if !(pieces[n].len() == 0 || chars::equal(&pieces[n], &dot)) {
            parts.push(pieces[n].clone());
            assert(chars::views(parts@) =~= before.push(pieces@[n as int]@));
        }
        n += 1;
    }
    parts
}

/// The last part of a path, where it names a file or directory: not for a
/// path without parts, nor for one that ends in two dots.
pub open spec fn file_name(path: Seq<char>) -> Option<Seq<char>> {
    let parts = path_parts(path);
    if parts.len() == 0 || parts.last() == ".."@ {
        None
    } else {
        Some(parts.last())
    }
}

/// The last part of a path, where it names a file or directory.
pub fn file_name_of(path: &Vec<char>) -> (r: Option<Vec<char>>)
    ensures
        (match r {
            Some(name) => Some(name@),
            None => None,
        }) == file_name(path@),
{
    let parts = parts_of(path);
    if parts.len() == 0 {
        return None;
    }
    let last = &parts[parts.len() - 1];
    assert(last@ == path_parts(path@).last());
    if chars::equal(last, &chars::chars_of("..")) {
        None
    } else {
        Some(last.clone())
    }
}

/// `path` without one leading `app/` and then one leading `src/`.
pub open spec fn without_known_prefixes(path: Seq<char>) -> Seq<char> {
    let first = match text::strip_prefix(path, "app/"@) {
        Some(rest) => rest,
        None => path,
    };
    match text::strip_prefix(first, "src/"@) {
        Some(rest) => rest,
        None => first,
    }
}

/// `path` without one leading `app/` and then one leading `src/`.
pub fn strip_known_prefixes(path: &Vec<char>) -> (r: Vec<char>)
    ensures
        r@ == without_known_prefixes(path@),
{
    let first = match chars::strip_prefix(path, &chars::chars_of("app/")) {
        Some(rest) => rest,
        None => path.clone(),
    };
    match chars::strip_prefix(&first, &chars::chars_of("src/")) {
        Some(rest) => rest,
        None => first,
    }
}

/// `path` without leading `./` and `/`.
pub open spec fn without_leading_dots(path: Seq<char>) -> Seq<char> {
    text::trim_start_pat(text::trim_start_pat(path, "./"@), "/"@)
}

/// `path` without leading `./` and `/`.
pub fn strip_leading_dots(path: &Vec<char>) -> (r: Vec<char>)
    ensures
        r@ == without_leading_dots(path@),
{
    chars::trim_start_pat(&chars::trim_start_pat(path, &chars::chars_of("./")), &chars::chars_of("/"))
}

/// What the components directory adds below `components/`: its path
/// without leading `./`, `/`, `app/`, `src/` and `components/`.
pub open spec fn alias_suffix(path: Seq<char>) -> Seq<char> {
    text::trim_start_pat(
        text::trim_start_pat(without_known_prefixes(without_leading_dots(path)), "components/"@),
        "/"@,
    )
}

/// What the components directory adds below `components/`.
pub fn extract_alias_suffix(path: &str) -> (r: String)
    ensures
        r@ == alias_suffix(path@),
{
    let all = chars::chars_of(path);
    let inner = strip_known_prefixes(&strip_leading_dots(&all));
    let inner = chars::trim_start_pat(&inner, &chars::chars_of("components/"));
    chars::string_of(&chars::trim_start_pat(&inner, &chars::chars_of("/")))
}

/// `relative` without the alias suffix where it stands at its head as a
/// directory of its own.
pub open spec fn without_alias_suffix(relative: Seq<char>, suffix: Seq<char>) -> Seq<char> {
    if suffix.len() == 0 || relative.len() == 0 {
        relative
    } else if relative == suffix {
        seq![]
    } else if text::starts_with(relative, suffix) && text::starts_with(
        relative.skip(suffix.len() as int),
        "/"@,
    ) {
        text::trim_start_pat(relative.skip(suffix.len() as int), "/"@)
    } else {
        relative
    }
}

/// `relative` without the alias suffix at its head.
pub fn trim_alias_suffix(relative: &Vec<char>, suffix: &Vec<char>) -> (r: Vec<char>)
    ensures
        r@ == without_alias_suffix(relative@, suffix@),
{
    if suffix.len() == 0 || relative.len() == 0 {
        return relative.clone();
    }
    if chars::equal(relative, suffix) {
        return Vec::new();
    }
    if chars::starts_with(relative, suffix) {
        let remainder = chars::slice(relative, suffix.len(), relative.len());
        let slash = chars::chars_of("/");
        if chars::starts_with(&remainder, &slash) {
            return chars::trim_start_pat(&remainder, &slash);
        }
    }
    relative.clone()
}

/// The path of a registry file below `components/`, the directory's own
/// alias suffix set aside.
pub open spec fn effective_relative(file_path: Seq<char>, base: Seq<char>) -> Seq<char> {
    let relative = without_known_prefixes(without_leading_dots(file_path));
    let inner = match text::strip_prefix(relative, "components/"@) {
        Some(rest) => rest,
        None => if relative == "components"@ {
            seq![]
        } else {
            relative
        },
    };
    without_alias_suffix(inner, alias_suffix(base))
}

/// Where a registry file goes: below the components directory, at its
/// path below `components/`; a file that has no such path by its name.
pub open spec fn component_path(file_path: Seq<char>, base: Seq<char>) -> Seq<char> {
    let effective = effective_relative(file_path, base);
    if effective.len() == 0 {
        match file_name(file_path) {
            Some(name) => joined_path(base, name),
            None => joined_path(base, file_path),
        }
    } else {
        joined_path(base, effective)
    }
}

/// Where the registry file `component_file_path` goes in a workspace with
/// the given configuration.
pub fn resolve_component_path(component_file_path: &str, config: &Config) -> (r: String)
    ensures
        r@ == component_path(component_file_path@, config.aliases.components.filesystem()),
{
    let all = chars::chars_of(component_file_path);
    let relative = strip_known_prefixes(&strip_leading_dots(&all));
    let base_path = config.aliases.components.filesystem_path();
    let suffix = chars::chars_of(extract_alias_suffix(base_path).as_str());
    let inner = match chars::strip_prefix(&relative, &chars::chars_of("components/")) {
        Some(rest) => rest,
        None => if chars::equal(&relative, &chars::chars_of("components")) {
            Vec::new()
        } else {
            relative
        },
    };
    let effective = trim_alias_suffix(&inner, &suffix);
    if effective.len() == 0 {
        match file_name_of(&all) {
            Some(name) => join_path(base_path, chars::string_of(&name).as_str()),
            None => join_path(base_path, component_file_path),
        }
    } else {
        join_path(base_path, chars::string_of(&effective).as_str())
    }
}

/// Whether `prefix` is the head of `all`, part by part.
pub open spec fn parts_start_with(all: Seq<Seq<char>>, prefix: Seq<Seq<char>>) -> bool {
    prefix.len() <= all.len() && all.take(prefix.len() as int) == prefix
}

/// The path starts at the current directory by name: it is the single dot
/// or begins with `./`.
pub open spec fn starts_at_dot(path: Seq<char>) -> bool {
    path == "."@ || text::starts_with(path, "./"@)
}

/// Whether the path starts at the current directory by name.
pub fn starts_at_dot_exec(path: &Vec<char>) -> (r: bool)
    ensures
        r == starts_at_dot(path@),
{
    chars::equal(path, &chars::chars_of(".")) || chars::starts_with(path, &chars::chars_of("./"))
}

/// A component's file that lies in a directory named after the component,
/// directly below the components directory, moved up into the components
/// directory itself. `None` for any other file.
pub open spec fn flattened_path(relative_path: Seq<char>, base: Seq<char>, slug: Seq<char>) -> Option<
    Seq<char>,
> {
    let all = path_parts(relative_path);
    let head = path_parts(base);
    if text::starts_with(relative_path, "/"@) != text::starts_with(base, "/"@) {
        None
    } else if starts_at_dot(relative_path) != starts_at_dot(base) {
        None
    } else if !parts_start_with(all, head) {
        None
    } else if all.len() < head.len() + 2 || all[head.len() as int] != slug {
        None
    } else {
        Some(joined_path(base, text::join(all.skip(head.len() as int + 1), "/"@)))
    }
}

/// Moves a component's file out of the directory named after the component.
#[verifier::loop_isolation(false)]
pub fn flatten_relative_path_for_slug(relative_path: &str, config: &Config, slug: &str) -> (r:
    Option<String>)
    ensures
        (match r {
            Some(path) => Some(path@),
            None => None,
        }) == flattened_path(relative_path@, config.aliases.components.filesystem(), slug@),
{
    let base_path = config.aliases.components.filesystem_path();
    let path = chars::chars_of(relative_path);
    let base = chars::chars_of(base_path);
    let slash = chars::chars_of("/");
    if chars::starts_with(&path, &slash) != chars::starts_with(&base, &slash) {
        return None;
    }
    if starts_at_dot_exec(&path) != starts_at_dot_exec(&base) {
        return None;
    }
    let all = parts_of(&path);
    let head = parts_of(&base);
    if head.len() > all.len() {
        return None;
    }
    let mut i: usize = 0;
    while i < head.len()
        invariant
            i <= head.len() <= all.len(),
            forall|j: int| 0 <= j < i ==> all@[j]@ == head@[j]@,
        decreases head.len() - i,
    {
        if !chars::equal(&all[i], &head[i]) {
            assert(chars::views(all@).take(head@.len() as int)[i as int] != chars::views(
                head@,
            )[i as int]);
            return None;
        }
        i += 1;
    }
    assert(chars::views(all@).take(head@.len() as int) =~= chars::views(head@));
    if all.len() - head.len() < 2 {
        return None;
    }
    if !chars::equal(&all[head.len()], &chars::chars_of(slug)) {
        return None;
    }
    let mut rest: Vec<Vec<char>> = Vec::new();
    let mut k: usize = head.len() + 1;
    while k < all.len()
        invariant
            head.len() + 1 <= k <= all.len(),
            chars::views(rest@) == chars::views(all@).subrange(head.len() + 1, k as int),
        decreases all.len() - k,
    {
        let ghost before = chars::views(rest@);
        rest.push(all[k].clone());
        assert(chars::views(rest@) =~= before.push(all@[k as int]@));
        assert(chars::views(all@).subrange(head.len() + 1, k + 1) =~= before.push(all@[k as int]@));
        k += 1;
    }
    assert(chars::views(all@).subrange(head.len() + 1, all.len() as int) =~= chars::views(
        all@,
    ).skip(head.len() + 1));
    let remainder = chars::join(&rest, &slash);
    Some(join_path(base_path, chars::string_of(&remainder).as_str()))
}

/// The directory that holds `path`: what stands before its last part.
/// `None` for the root and for the empty path.
pub open spec fn parent_dir(path: Seq<char>) -> Option<Seq<char>> {
    let plain = text::trim_end_char(path, '/');
    if plain.len() == 0 {
        None
    } else {
        match text::rfind_char(plain, '/') {
            None => Some(seq![]),
            Some(k) => {
                let head = text::trim_end_char(plain.take(k), '/');
                if head.len() == 0 {
                    Some("/"@)
                } else {
                    Some(head)
                }
            },
        }
    }
}

/// The directory that holds `path`.
pub fn parent_of(path: &str) -> (r: Option<String>)
    ensures
        (match r {
            Some(dir) => Some(dir@),
            None => None,
        }) == parent_dir(path@),
{
    let plain = chars::trim_end_char(&chars::chars_of(path), '/');
    if plain.len() == 0 {
        return None;
    }
    match chars::rfind_char(&plain, '/') {
        None => Some(String::new()),
        Some(k) => {
            let head = chars::trim_end_char(&chars::slice(&plain, 0, k), '/');
            if head.len() == 0 {
                Some("/".to_owned())
            } else {
                Some(chars::string_of(&head))
            }
        },
    }
}

/// `path` without the extension of its last part: what follows the last
/// dot of that part, with the dot, unless the part begins with that dot.
pub open spec fn without_extension(path: Seq<char>) -> Seq<char> {
    let start = match text::rfind_char(path, '/') {
        Some(k) => k + 1,
        None => 0,
    };
    let name = path.skip(start);
    match text::rfind_char(name, '.') {
        Some(dot) => if dot > 0 && name != ".."@ {
            path.take(start + dot)
        } else {
            path
        },
        None => path,
    }
}

/// `path` without the extension of its last part.
pub fn strip_extension(path: &Vec<char>) -> (r: Vec<char>)
    ensures
        r@ == without_extension(path@),
{
    let start: usize = match chars::rfind_char(path, '/') {
        Some(k) => k + 1,
        None => 0,
    };
    let name = chars::slice(path, start, path.len());
    match chars::rfind_char(&name, '.') {
        Some(dot) => {
            if dot > 0 && !chars::equal(&name, &chars::chars_of("..")) {
                chars::slice(path, 0, start + dot)
            } else {
                path.clone()
            }
        },
        None => path.clone(),
    }
}

/// The module path under which a barrel re-exports the file at the
/// relative path `relative`: without extension, with slashes for
/// backslashes, and marked as relative by a leading dot.
pub open spec fn module_path_of(relative: Seq<char>) -> Seq<char> {
    let module = text::replace_char(without_extension(relative), '\\', '/');
    if text::starts_with(module, "/"@) {
        "."@ + module
    } else if !text::starts_with(module, "."@) {
        "./"@ + module
    } else {
        module
    }
}

/// The module path of the file at the relative path `relative`.
pub fn module_path_from_relative(relative: &str) -> (r: String)
    ensures
        r@ == module_path_of(relative@),
{
    let module = chars::replace_char(&strip_extension(&chars::chars_of(relative)), '\\', '/');
    if chars::starts_with(&module, &chars::chars_of("/")) {
        let mut all = chars::chars_of(".");
        chars::append(&mut all, &module);
        chars::string_of(&all)
    } else if !chars::starts_with(&module, &chars::chars_of(".")) {
        let mut all = chars::chars_of("./");
        chars::append(&mut all, &module);
        chars::string_of(&all)
    } else {
        chars::string_of(&module)
    }
}

/// Calls `pathdiff::diff_paths`, which gives the way from `base` to `path`
/// in the path syntax of the platform. Trusted, with nothing claimed of
/// the result.
#[verifier::external_body]
fn diff_paths(path: &str, base: &str) -> (r: Option<String>) {
    pathdiff::diff_paths(path, base).map(|relative| relative.to_string_lossy().into_owned())
}

/// The path to show for `absolute`: the way to it from the current
/// directory, where there is one.
pub open spec fn shown(relative: Option<Seq<char>>, absolute: Seq<char>) -> Seq<char> {
    match relative {
        Some(path) => path,
        None => absolute,
    }
}

/// The path to show for `absolute`, given the way to it from the current
/// directory, where there is one.
pub fn shown_path(relative: Option<String>, absolute: &str) -> (r: String)
    ensures
        r@ == shown(crate::types::option_view(relative), absolute@),
{
    match relative {
        Some(path) => path,
        None => absolute.to_owned(),
    }
}

/// The path to show for `absolute`: the way to it from `current_dir`, or
/// `absolute` itself where there is no such way.
pub fn display_path(absolute: &str, current_dir: &str) -> (r: String)
    ensures
        exists|relative: Option<Seq<char>>| r@ == #[trigger] shown(relative, absolute@),
{
    let relative = diff_paths(absolute, current_dir);
    let ghost found = crate::types::option_view(relative);
    let text = shown_path(relative, absolute);
    assert(text@ == shown(found, absolute@));
    text
}

/// The module path under which a barrel in `barrel_dir` re-exports the
/// file `target_path`: that of the way from the one to the other, or of
/// `target_path` itself where there is no such way.
pub fn module_path_from_barrel(barrel_dir: &str, target_path: &str) -> (r: String)
    ensures
        exists|relative: Seq<char>| r@ == module_path_of(relative),
{
    let relative = shown_path(diff_paths(target_path, barrel_dir), target_path);
    module_path_from_relative(relative.as_str())
}

} // verus!
