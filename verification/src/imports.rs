//! Rewriting the import paths of a fetched file to the conventions of the
//! workspace that receives it.

use vstd::prelude::*;
use crate::chars;
use crate::paths::{strip_leading_dots, without_leading_dots};
use crate::targets::WorkspaceHandle;
use crate::text;
use crate::types::option_view;

verus! {

/// An import path without leading `./` and `/`, and without one leading
/// `app/` or, failing that, one leading `src/`.
pub open spec fn normalized_import_path(path: Seq<char>) -> Seq<char> {
    let inner = without_leading_dots(path);
    match text::strip_prefix(inner, "app/"@) {
        Some(rest) => rest,
        None => match text::strip_prefix(inner, "src/"@) {
            Some(rest) => rest,
            None => inner,
        },
    }
}

/// An import path without its leading `./`, `/`, `app/` or `src/`.
pub fn normalize_import_path(import_path: &str) -> (r: String)
    ensures
        r@ == normalized_import_path(import_path@),
{
    chars::string_of(&normalize_import_chars(&chars::chars_of(import_path)))
}

/// An import path without its leading `./`, `/`, `app/` or `src/`.
fn normalize_import_chars(path: &Vec<char>) -> (r: Vec<char>)
    ensures
        r@ == normalized_import_path(path@),
{
    let inner = strip_leading_dots(path);
    match chars::strip_prefix(&inner, &chars::chars_of("app/")) {
        Some(rest) => rest,
        None => match chars::strip_prefix(&inner, &chars::chars_of("src/")) {
            Some(rest) => rest,
            None => inner,
        },
    }
}

/// `import_path` below `prefix`: the prefix without trailing slashes, then,
/// unless the path is empty, a slash and the path without leading slashes.
pub open spec fn joined_import_path(prefix: Seq<char>, import_path: Seq<char>) -> Seq<char> {
    let head = text::trim_end_char(prefix, '/');
    if import_path.len() == 0 {
        head
    } else {
        head + "/"@ + text::trim_start_pat(import_path, "/"@)
    }
}

/// `import_path` below `prefix`.
pub fn join_import_path(prefix: &str, import_path: &str) -> (r: String)
    ensures
        r@ == joined_import_path(prefix@, import_path@),
{
    chars::string_of(&join_import_chars(&chars::chars_of(prefix), &chars::chars_of(import_path)))
}

/// `import_path` below `prefix`.
fn join_import_chars(prefix: &Vec<char>, import_path: &Vec<char>) -> (r: Vec<char>)
    ensures
        r@ == joined_import_path(prefix@, import_path@),
{
    let mut head = chars::trim_end_char(prefix, '/');
    if import_path.len() == 0 {
        return head;
    }
    let slash = chars::chars_of("/");
    chars::append(&mut head, &slash);
    chars::append(&mut head, &chars::trim_start_pat(import_path, &slash));
    head
}

/// The path of an alias without leading `./`, `/`, `src/` and `app/`.
pub open spec fn alias_path(path: Seq<char>) -> Seq<char> {
    text::trim_start_pat(text::trim_start_pat(without_leading_dots(path), "src/"@), "app/"@)
}

/// The path of an alias without leading `./`, `/`, `src/` and `app/`.
pub fn normalize_alias_path(path: &str) -> (r: String)
    ensures
        r@ == alias_path(path@),
{
    chars::string_of(&normalize_alias_chars(&chars::chars_of(path)))
}

/// The path of an alias without leading `./`, `/`, `src/` and `app/`.
fn normalize_alias_chars(path: &Vec<char>) -> (r: Vec<char>)
    ensures
        r@ == alias_path(path@),
{
    chars::trim_start_pat(
        &chars::trim_start_pat(&strip_leading_dots(path), &chars::chars_of("src/")),
        &chars::chars_of("app/"),
    )
}

/// What the components directory adds below `components/`.
pub open spec fn components_suffix(components_dir: Seq<char>) -> Seq<char> {
    text::trim_start_pat(text::trim_start_pat(alias_path(components_dir), "components/"@), "/"@)
}

/// The path of an import below the components directory; `None` for an
/// import that does not lead into `components`.
pub open spec fn component_relative(components_dir: Seq<char>, path: Seq<char>) -> Option<
    Seq<char>,
> {
    let normalized = without_leading_dots(path);
    if normalized == "components"@ {
        Some(seq![])
    } else {
        match text::strip_prefix(normalized, "components/"@) {
            None => None,
            Some(stripped) => {
                let suffix = components_suffix(components_dir);
                if suffix.len() > 0 {
                    match text::strip_prefix(stripped, suffix) {
                        Some(after) => Some(text::trim_start_pat(after, "/"@)),
                        None => Some(stripped),
                    }
                } else {
                    Some(stripped)
                }
            },
        }
    }
}

/// The path of an import below the components directory.
fn component_relative_chars(components_dir: &Vec<char>, path: &Vec<char>) -> (r: Option<Vec<char>>)
    ensures
        (match r {
            Some(p) => Some(p@),
            None => None,
        }) == component_relative(components_dir@, path@),
{
    let normalized = strip_leading_dots(path);
    if chars::equal(&normalized, &chars::chars_of("components")) {
        return Some(Vec::new());
    }
    let stripped = match chars::strip_prefix(&normalized, &chars::chars_of("components/")) {
        Some(stripped) => stripped,
        None => {
            return None;
        },
    };
    let slash = chars::chars_of("/");
    let suffix = chars::trim_start_pat(
        &chars::trim_start_pat(
            &normalize_alias_chars(components_dir),
            &chars::chars_of("components/"),
        ),
        &slash,
    );
    if suffix.len() > 0 {
        match chars::strip_prefix(&stripped, &suffix) {
            Some(after) => Some(chars::trim_start_pat(&after, &slash)),
            None => Some(stripped),
        }
    } else {
        Some(stripped)
    }
}

/// The path of an import below the components directory of a workspace.
pub fn component_relative_path(handle: &WorkspaceHandle, path: &str) -> (r: Option<String>)
    ensures
        option_view(r) == component_relative(handle.config.aliases.components.filesystem(), path@),
{
    let dir = chars::chars_of(handle.config.aliases.components.filesystem_path());
    match component_relative_chars(&dir, &chars::chars_of(path)) {
        Some(p) => Some(chars::string_of(&p)),
        None => None,
    }
}

/// The rules by which a workspace's imports are written.
pub struct ImportRules {
    /// The prefix of import paths.
    pub prefix: Seq<char>,
    /// The alias of the components directory, where it has one.
    pub component_alias: Option<Seq<char>>,
    /// The components directory.
    pub components_dir: Seq<char>,
}

/// The import rules of a workspace.
pub open spec fn rules_of(handle: WorkspaceHandle) -> ImportRules {
    ImportRules {
        prefix: text::trim_end_char(handle.alias_prefix@, '/'),
        component_alias: match handle.component_import_alias {
            Some(alias) => Some(text::trim_end_char(alias@, '/')),
            None => None,
        },
        components_dir: handle.config.aliases.components.filesystem(),
    }
}

/// What is written in place of the import path `path`, which followed the
/// marker `@/`: below the components alias where the workspace has one and
/// the path leads into `components`, else below the workspace's prefix.
pub open spec fn rewritten_import(path: Seq<char>, rules: ImportRules) -> Seq<char> {
    let inner = normalized_import_path(path);
    match rules.component_alias {
        Some(alias) => match component_relative(rules.components_dir, inner) {
            Some(relative) => if relative.len() == 0 {
                alias
            } else {
                joined_import_path(alias, relative)
            },
            None => joined_import_path(rules.prefix, inner),
        },
        None => joined_import_path(rules.prefix, inner),
    }
}

/// A character that may stand in an import path: neither a quote nor a
/// line feed.
pub open spec fn is_path_char(c: char) -> bool {
    !text::is_quote(c) && c != '\n'
}

/// Where the run of path characters that starts at `from` ends.
pub open spec fn path_end(s: Seq<char>, from: int) -> int
    decreases s.len() - from,
{
    if 0 <= from < s.len() && is_path_char(s[from]) {
        path_end(s, from + 1)
    } else {
        from
    }
}

/// The run of path characters ends at or behind its start, within the text.
pub proof fn lemma_path_end(s: Seq<char>, from: int)
    requires
        0 <= from <= s.len(),
    ensures
        from <= path_end(s, from) <= s.len(),
        forall|k: int| from <= k < path_end(s, from) ==> is_path_char(s[k]),
        path_end(s, from) < s.len() ==> !is_path_char(s[path_end(s, from)]),
    decreases s.len() - from,
{
    if from < s.len() && is_path_char(s[from]) {
        lemma_path_end(s, from + 1);
    }
}

/// Where the import that starts at `i` has its closing quote: an import is
/// a quote, the marker `@/`, at least one path character, and a quote.
pub open spec fn import_end(s: Seq<char>, i: int) -> Option<int> {
    if 0 <= i && i + 3 < s.len() && text::is_quote(s[i]) && s[i + 1] == '@' && s[i + 2] == '/' {
        let end = path_end(s, i + 3);
        if end > i + 3 && end < s.len() && text::is_quote(s[end]) {
            Some(end)
        } else {
            None
        }
    } else {
        None
    }
}

/// The text from `i` on with its imports rewritten, taken from left to
/// right: an import is written anew between its own quotes, any other
/// character stays.
pub open spec fn normalized_from(s: Seq<char>, i: int, rules: ImportRules) -> Seq<char>
    decreases s.len() - i,
{
    if i < 0 || i >= s.len() {
        seq![]
    } else {
        match import_end(s, i) {
            Some(end) => if i < end < s.len() {
                seq![s[i]] + rewritten_import(s.subrange(i + 3, end), rules) + seq![s[end]]
                    + normalized_from(s, end + 1, rules)
            } else {
                seq![s[i]] + normalized_from(s, i + 1, rules)
            },
            None => seq![s[i]] + normalized_from(s, i + 1, rules),
        }
    }
}

/// The text with its imports rewritten.
pub open spec fn normalized_content(s: Seq<char>, rules: ImportRules) -> Seq<char> {
    normalized_from(s, 0, rules)
}

/// Where the run of path characters that starts at `from` ends.
fn scan_path(s: &Vec<char>, from: usize) -> (end: usize)
    requires
        from <= s.len(),
    ensures
        end == path_end(s@, from as int),
        from <= end <= s.len(),
{
    let mut k: usize = from;
    while k < s.len() && !chars::is_quote(s[k]) && s[k] != '\n'
        invariant
            from <= k <= s.len(),
            path_end(s@, from as int) == path_end(s@, k as int),
        decreases s.len() - k,
    {
        k += 1;
    }
    k
}

/// Rewrites the imports of `content` by the rules of the workspace.
pub fn normalize_component_content(content: &str, handle: &WorkspaceHandle) -> (r: String)
    ensures
        r@ == normalized_content(content@, rules_of(*handle)),
{
    let s = chars::chars_of(content);
    let prefix = chars::trim_end_char(&chars::chars_of(handle.alias_prefix.as_str()), '/');
    let alias: Option<Vec<char>> = match &handle.component_import_alias {
        Some(alias) => Some(chars::trim_end_char(&chars::chars_of(alias.as_str()), '/')),
        None => None,
    };
    let dir = chars::chars_of(handle.config.aliases.components.filesystem_path());
    let ghost rules = rules_of(*handle);
    let mut out: Vec<char> = Vec::new();
    let mut i: usize = 0;
    assert(out@ + normalized_from(s@, 0, rules) =~= normalized_from(s@, 0, rules));
    while i < s.len()
        invariant
            i <= s.len(),
            rules == rules_of(*handle),
            prefix@ == rules.prefix,
            (match alias {
                Some(a) => Some(a@),
                None => None,
            }) == rules.component_alias,
            dir@ == rules.components_dir,
            normalized_from(s@, 0, rules) == out@ + normalized_from(s@, i as int, rules),
        decreases s.len() - i,
    {
        let ghost before = out@;
        let mut end: usize = 0;
        let mut found = false;
        if s.len() - i > 3 && chars::is_quote(s[i]) && s[i + 1] == '@' && s[i + 2] == '/' {
            end = scan_path(&s, i + 3);
            found = end > i + 3 && end < s.len() && chars::is_quote(s[end]);
        }
        assert(found == (import_end(s@, i as int) is Some));
        if found {
            assert(import_end(s@, i as int) == Some(end as int));
            let inner = normalize_import_chars(&chars::slice(&s, i + 3, end));
            let by_alias: Option<Vec<char>> = match &alias {
                Some(a) => match component_relative_chars(&dir, &inner) {
                    Some(relative) => if relative.len() == 0 {
                        Some(a.clone())
                    } else {
                        Some(join_import_chars(a, &relative))
                    },
                    None => None,
                },
                None => None,
            };
            let written = match by_alias {
                Some(w) => w,
                None => join_import_chars(&prefix, &inner),
            };
            assert(written@ == rewritten_import(s@.subrange(i + 3, end as int), rules));
            out.push(s[i]);
            chars::append(&mut out, &written);
            out.push(s[end]);
            assert(out@ =~= before + (seq![s@[i as int]] + written@ + seq![s@[end as int]]));
            assert(before + (seq![s@[i as int]] + written@ + seq![s@[end as int]]
                + normalized_from(s@, end + 1, rules)) =~= before + (seq![s@[i as int]] + written@
                + seq![s@[end as int]]) + normalized_from(s@, end + 1, rules));
            i = end + 1;
        } else {
            out.push(s[i]);
            assert(out@ =~= before + seq![s@[i as int]]);
            assert(before + (seq![s@[i as int]] + normalized_from(s@, i + 1, rules)) =~= before
                + seq![s@[i as int]] + normalized_from(s@, i + 1, rules));
            i += 1;
        }
    }
    assert(out@ + Seq::<char>::empty() =~= out@);
    chars::string_of(&out)
}

/// From `i` on, every import that the rewriting comes upon is one that it
/// writes back as it stands.
pub open spec fn settled_from(s: Seq<char>, i: int, rules: ImportRules) -> bool
    decreases s.len() - i,
{
    if i < 0 || i >= s.len() {
        true
    } else {
        match import_end(s, i) {
            Some(end) => if i < end < s.len() {
                rewritten_import(s.subrange(i + 3, end), rules) == s.subrange(i + 1, end)
                    && settled_from(s, end + 1, rules)
            } else {
                settled_from(s, i + 1, rules)
            },
            None => settled_from(s, i + 1, rules),
        }
    }
}

/// A text whose imports are all settled is left as it is.
pub proof fn lemma_settled_is_fixed(s: Seq<char>, i: int, rules: ImportRules)
    requires
        0 <= i <= s.len(),
        settled_from(s, i, rules),
    ensures
        normalized_from(s, i, rules) == s.skip(i),
    decreases s.len() - i,
{
    if i < s.len() {
        match import_end(s, i) {
            Some(end) => {
                if i < end < s.len() {
                    lemma_settled_is_fixed(s, end + 1, rules);
                    assert(seq![s[i]] + s.subrange(i + 1, end) + seq![s[end]] + s.skip(end + 1)
                        =~= s.skip(i));
                } else {
                    lemma_settled_is_fixed(s, i + 1, rules);
                    assert(seq![s[i]] + s.skip(i + 1) =~= s.skip(i));
                }
            },
            None => {
                lemma_settled_is_fixed(s, i + 1, rules);
                assert(seq![s[i]] + s.skip(i + 1) =~= s.skip(i));
            },
        }
    } else {
        assert(s.skip(i) =~= Seq::<char>::empty());
    }
}

/// Rewriting is idempotent on content whose rewritten form is settled:
/// a second run then changes nothing.
pub proof fn lemma_normalize_idempotent(s: Seq<char>, rules: ImportRules)
    requires
        settled_from(normalized_content(s, rules), 0, rules),
    ensures
        normalized_content(normalized_content(s, rules), rules) == normalized_content(s, rules),
{
    let once = normalized_content(s, rules);
    lemma_settled_is_fixed(once, 0, rules);
    assert(once.skip(0) =~= once);
}

/// A text without imports is settled.
pub proof fn lemma_without_imports_settled(s: Seq<char>, i: int, rules: ImportRules)
    requires
        0 <= i,
        forall|k: int| i <= k < s.len() ==> import_end(s, k) is None,
    ensures
        settled_from(s, i, rules),
    decreases s.len() - i,
{
    if i < s.len() {
        lemma_without_imports_settled(s, i + 1, rules);
    }
}

/// The import path of the components directory of a workspace: its alias
/// where it has one, else its path below the workspace's prefix.
pub open spec fn import_base(handle: WorkspaceHandle) -> Seq<char> {
    match handle.component_import_alias {
        Some(alias) => text::trim_end_char(alias@, '/'),
        None => {
            let path = alias_path(handle.config.aliases.components.filesystem());
            if path.len() == 0 {
                text::trim_end_char(handle.alias_prefix@, '/')
            } else {
                joined_import_path(text::trim_end_char(handle.alias_prefix@, '/'), path)
            }
        },
    }
}

/// The import path of the components directory of a workspace.
pub fn component_import_base(handle: &WorkspaceHandle) -> (r: String)
    ensures
        r@ == import_base(*handle),
{
    match &handle.component_import_alias {
        Some(alias) => chars::string_of(&chars::trim_end_char(&chars::chars_of(alias.as_str()), '/')),
        None => {
            let path = normalize_alias_chars(
                &chars::chars_of(handle.config.aliases.components.filesystem_path()),
            );
            let prefix = chars::trim_end_char(&chars::chars_of(handle.alias_prefix.as_str()), '/');
            if path.len() == 0 {
                chars::string_of(&prefix)
            } else {
                chars::string_of(&join_import_chars(&prefix, &path))
            }
        },
    }
}

/// The path under which the registry file `file_path` is imported once it
/// is installed in the workspace: its path without leading `./` and `/`
/// and without the extension `.tsx`, below the components directory where
/// it leads there.
pub open spec fn example_import(handle: WorkspaceHandle, file_path: Seq<char>) -> Seq<char> {
    let plain = without_leading_dots(file_path);
    let raw = match text::strip_suffix(plain, ".tsx"@) {
        Some(stem) => stem,
        None => plain,
    };
    let relative = match component_relative(handle.config.aliases.components.filesystem(), raw) {
        Some(path) => path,
        None => raw,
    };
    if relative.len() == 0 {
        import_base(handle)
    } else {
        joined_import_path(import_base(handle), relative)
    }
}

/// The path under which a registry file is imported once it is installed.
pub fn example_import_path(handle: &WorkspaceHandle, file_path: &str) -> (r: String)
    ensures
        r@ == example_import(*handle, file_path@),
{
    let plain = strip_leading_dots(&chars::chars_of(file_path));
    let raw = match chars::strip_suffix(&plain, &chars::chars_of(".tsx")) {
        Some(stem) => stem,
        None => plain,
    };
    let dir = chars::chars_of(handle.config.aliases.components.filesystem_path());
    let relative = match component_relative_chars(&dir, &raw) {
        Some(path) => path,
        None => raw,
    };
    let base = chars::chars_of(component_import_base(handle).as_str());
    if relative.len() == 0 {
        chars::string_of(&base)
    } else {
        chars::string_of(&join_import_chars(&base, &relative))
    }
}

} // verus!
