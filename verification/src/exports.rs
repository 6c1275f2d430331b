//! The block of re-exports that is kept, between two marker lines, in a
//! workspace's barrel file.

use vstd::prelude::*;
use crate::chars;
use crate::ordered::{
    insert_unique,
    lemma_strictly_sorted,
    lemma_strictly_sorted_unique,
    search_sorted,
    strictly_sorted,
};
use crate::string_map::{lemma_position, lemma_position_is, position};
use crate::text;

verus! {

/// The line that opens the generated block.
pub const EXPORT_BLOCK_START: &'static str = "// @nocta-ui/cli: auto-exports:start";

/// The line that closes the generated block.
pub const EXPORT_BLOCK_END: &'static str = "// @nocta-ui/cli: auto-exports:end";

/// The comment at the head of the generated block.
pub const EXPORT_BLOCK_COMMENT: &'static str =
    "// This section is auto-generated by Nocta UI CLI. Do not edit manually.";

/// The names re-exported from each module: modules in rising order, and
/// for each module its names in rising order, `names[i]` being those of
/// `modules[i]`.
#[derive(Clone, Debug, PartialEq, Eq)]
pub struct ExportMap {
    pub modules: Vec<String>,
    pub names: Vec<Vec<String>>,
}

/// The name lists of an export map, as texts.
pub open spec fn name_lists(names: Seq<Vec<String>>) -> Seq<Seq<Seq<char>>> {
    Seq::new(names.len(), |i: int| chars::views(names[i]@))
}

/// What an `ExportMap` says: its modules and, for each, its names.
pub struct ExportMapView {
    pub modules: Seq<Seq<char>>,
    pub names: Seq<Seq<Seq<char>>>,
}

impl View for ExportMap {
    type V = ExportMapView;

    open spec fn view(&self) -> ExportMapView {
        ExportMapView { modules: chars::views(self.modules@), names: name_lists(self.names@) }
    }
}

impl ExportMapView {
    /// Modules and names rise strictly, and every module has a name.
    pub open spec fn wf(self) -> bool {
        &&& self.modules.len() == self.names.len()
        &&& strictly_sorted(self.modules)
        &&& forall|i: int|
            0 <= i < self.names.len() ==> strictly_sorted(#[trigger] self.names[i])
                && self.names[i].len() > 0
    }

    /// The names re-exported from `module`; none where it is not listed.
    pub open spec fn exports_of(self, module: Seq<char>) -> Set<Seq<char>> {
        match position(self.modules, module) {
            Some(i) => self.names[i].to_set(),
            None => Set::empty(),
        }
    }

    /// In a sound map a module stands at one place only: there is one line
    /// for each module.
    pub proof fn lemma_one_entry_per_module(self)
        requires
            self.wf(),
        ensures
            forall|i: int, j: int|
                0 <= i < j < self.modules.len() ==> self.modules[i] != self.modules[j],
            forall|i: int|
                0 <= i < self.modules.len() ==> position(self.modules, #[trigger] self.modules[i])
                    == Some(i),
    {
        lemma_strictly_sorted(self.modules);
        assert forall|i: int| 0 <= i < self.modules.len() implies position(
            self.modules,
            #[trigger] self.modules[i],
        ) == Some(i) by {
            lemma_position_is(self.modules, self.modules[i], i);
        }
    }
}

impl ExportMap {
    /// Modules and names rise strictly, and every module has a name.
    pub open spec fn wf(&self) -> bool {
        self@.wf()
    }

    /// The map without modules.
    pub fn new() -> (r: Self)
        ensures
            r.wf(),
            r@.modules.len() == 0,
            forall|m: Seq<char>| r@.exports_of(m) == Set::<Seq<char>>::empty(),
    {
        let r = ExportMap { modules: Vec::new(), names: Vec::new() };
        assert forall|m: Seq<char>| r@.exports_of(m) == Set::<Seq<char>>::empty() by {
            lemma_position(r@.modules, m);
        }
        r
    }

    /// Whether no module is listed.
    pub fn is_empty(&self) -> (r: bool)
        ensures
            r == (self@.modules.len() == 0),
    {
        self.modules.len() == 0
    }

    /// Adds `name` to the names re-exported from `module`.
    pub fn add_export(&mut self, module: &str, name: &str)
        requires
            old(self).wf(),
        ensures
            final(self).wf(),
            final(self)@.exports_of(module@) == old(self)@.exports_of(module@).insert(name@),
            forall|m: Seq<char>| m != module@ ==> final(self)@.exports_of(m) == old(self)@.exports_of(m),
    {
        let ghost before = self@;
        proof {
            before.lemma_one_entry_per_module();
        }
        let (k, found) = search_sorted(&self.modules, module);
        if found {
            let mut list: Vec<String> = Vec::new();
            std::mem::swap(&mut list, &mut self.names[k]);
            assert(chars::views(list@) == before.names[k as int]);
            insert_unique(&mut list, name);
            let ghost added = chars::views(list@);
            self.names.set(k, list);
            proof {
                let after = self@;
                assert(after.modules == before.modules);
                assert(after.names =~= before.names.update(k as int, added));
                assert(added.to_set().contains(name@));
                assert(added.contains(name@));
                assert(before.modules[k as int] == module@);
                assert(position(before.modules, module@) == Some(k as int));
                assert forall|m: Seq<char>| m != module@ implies after.exports_of(m)
                    == before.exports_of(m) by {
                    lemma_position(before.modules, m);
                }
            }
        } else {
            self.modules.insert(k, module.to_owned());
            let mut list: Vec<String> = Vec::new();
            list.push(name.to_owned());
            let ghost added = chars::views(list@);
            self.names.insert(k, list);
            proof {
                let after = self@;
                assert(added =~= seq![name@]);
                assert(after.modules =~= before.modules.insert(k as int, module@));
                assert(after.names =~= before.names.insert(k as int, added));
                assert forall|i: int, j: int| 0 <= i < j < after.modules.len() implies text::lex_lt(
                    after.modules[i],
                    after.modules[j],
                ) by {
                    let i0 = if i < k { i } else { i - 1 };
                    let j0 = if j < k { j } else { j - 1 };
                    if i != k {
                        assert(after.modules[i] == before.modules[i0]);
                    }
                    if j != k {
                        assert(after.modules[j] == before.modules[j0]);
                    }
                }
                assert forall|i: int| 0 <= i < after.names.len() implies strictly_sorted(
                    #[trigger] after.names[i],
                ) && after.names[i].len() > 0 by {
                    if i < k {
                        assert(after.names[i] == before.names[i]);
                    } else if i > k {
                        assert(after.names[i] == before.names[i - 1]);
                    }
                }
                after.lemma_one_entry_per_module();
                lemma_position(before.modules, module@);
                assert(after.modules[k as int] == module@);
                assert(position(after.modules, module@) == Some(k as int));
                assert(added[0] == name@);
                assert(added.contains(name@));
                assert(added.to_set() =~= Set::<Seq<char>>::empty().insert(name@));
                assert forall|m: Seq<char>| m != module@ implies after.exports_of(m)
                    == before.exports_of(m) by {
                    lemma_position(before.modules, m);
                    lemma_position(after.modules, m);
                    match position(before.modules, m) {
                        Some(i) => {
                            let i1 = if i < k { i } else { i + 1 };
                            assert(after.modules[i1] == m);
                            assert(position(after.modules, m) == Some(i1));
                            assert(after.names[i1] == before.names[i]);
                        },
                        None => {
                            match position(after.modules, m) {
                                Some(i1) => {
                                    let i = if i1 < k { i1 } else { i1 - 1 };
                                    assert(before.modules[i] == m);
                                },
                                None => {},
                            }
                        },
                    }
                }
            }
        }
    }
}

/// The trimmed pieces among the first `n` of `parts` that are not empty.
pub open spec fn trimmed_names(parts: Seq<Seq<char>>, n: int) -> Seq<Seq<char>>
    decreases n,
{
    if n <= 0 {
        seq![]
    } else {
        let before = trimmed_names(parts, n - 1);
        let name = text::trim(parts[n - 1]);
        if name.len() == 0 {
            before
        } else {
            before.push(name)
        }
    }
}

/// What is left of a re-export line after the word `export` and the
/// opening brace: `None` unless the line starts with them.
pub open spec fn after_export_brace(line: Seq<char>) -> Option<Seq<char>> {
    match text::strip_prefix(line, "export"@) {
        Some(rest) => text::strip_prefix(text::trim_start(rest), "{"@),
        None => None,
    }
}

/// The module of a re-export line, given what follows its closing brace:
/// the text between the quotes that follow the word `from`.
pub open spec fn quoted_module(after_brace: Seq<char>) -> Option<Seq<char>> {
    match text::strip_prefix(text::trim_start(after_brace), "from"@) {
        Some(rest) => {
            let from_part = text::trim_start(rest);
            if from_part.len() == 0 || !text::is_quote(from_part[0]) {
                None
            } else {
                match text::find_char(from_part.skip(1), from_part[0]) {
                    Some(end) => Some(from_part.skip(1).take(end)),
                    None => None,
                }
            }
        },
        None => None,
    }
}

/// The module and the names of a line of the form
/// `export { a, b } from "module";`; `None` for any other line, and for
/// one that names nothing.
pub open spec fn export_line_parts(line: Seq<char>) -> Option<(Seq<char>, Seq<Seq<char>>)> {
    match after_export_brace(line) {
        Some(remainder) => match text::find_char(remainder, '}') {
            Some(brace_end) => match quoted_module(remainder.skip(brace_end + 1)) {
                Some(module) => {
                    let parts = text::split_char(remainder.take(brace_end), ',');
                    let names = trimmed_names(parts, parts.len() as int);
                    if names.len() == 0 {
                        None
                    } else {
                        Some((module, names))
                    }
                },
                None => None,
            },
            None => None,
        },
        None => None,
    }
}

/// The module of a re-export line, given what follows its closing brace.
fn module_after_brace(after_brace: &Vec<char>) -> (r: Option<Vec<char>>)
    ensures
        (match r {
            Some(m) => Some(m@),
            None => None,
        }) == quoted_module(after_brace@),
{
    let from = chars::chars_of("from");
    let rest = match chars::strip_prefix(&chars::trim_start(after_brace), &from) {
        Some(rest) => rest,
        None => {
            return None;
        },
    };
    let from_part = chars::trim_start(&rest);
    if from_part.len() == 0 {
        return None;
    }
    let quote = from_part[0];
    if !chars::is_quote(quote) {
        return None;
    }
    let after_quote = chars::slice(&from_part, 1, from_part.len());
    match chars::find_char(&after_quote, quote) {
        Some(end) => Some(chars::slice(&after_quote, 0, end)),
        None => None,
    }
}

/// Reads the module and the names of one re-export line.
pub fn parse_export_line(line: &str) -> (r: Option<(String, Vec<String>)>)
    ensures
        (match r {
            Some(parts) => Some((parts.0@, chars::views(parts.1@))),
            None => None,
        }) == export_line_parts(line@),
{
    let all = chars::chars_of(line);
    let export = chars::chars_of("export");
    let brace = chars::chars_of("{");
    let rest = match chars::strip_prefix(&all, &export) {
        Some(rest) => rest,
        None => {
            return None;
        },
    };
    let remainder = match chars::strip_prefix(&chars::trim_start(&rest), &brace) {
        Some(remainder) => remainder,
        None => {
            return None;
        },
    };
    let brace_end = match chars::find_char(&remainder, '}') {
        Some(i) => i,
        None => {
            return None;
        },
    };
    let module = match module_after_brace(&chars::slice(&remainder, brace_end + 1, remainder.len())) {
        Some(module) => module,
        None => {
            return None;
        },
    };
    let parts = chars::split_char(&chars::slice(&remainder, 0, brace_end), ',');
    let mut names: Vec<String> = Vec::new();
    let mut n: usize = 0;
    assert(chars::views(names@) =~= trimmed_names(chars::views(parts@), 0));
    while n < parts.len()
        invariant
            n <= parts.len(),
            chars::views(names@) == trimmed_names(chars::views(parts@), n as int),
        decreases parts.len() - n,
    {
        let name = chars::trim(&parts[n]);
        let ghost before = chars::views(names@);
        if name.len() > 0 {
            names.push(chars::string_of(&name));
            assert(chars::views(names@) =~= before.push(name@));
        }
        n += 1;
    }
    if names.len() == 0 {
        return None;
    }
    Some((chars::string_of(&module), names))
}

/// Whether a line of the block is passed over: an empty line or a comment.
pub open spec fn is_skipped_line(trimmed: Seq<char>) -> bool {
    trimmed.len() == 0 || text::starts_with(trimmed, "//"@)
}

/// The names that the first `n` lines re-export from `module`.
pub open spec fn exports_in_lines(lines: Seq<Seq<char>>, n: int, module: Seq<char>) -> Set<
    Seq<char>,
>
    decreases n,
{
    if n <= 0 {
        Set::empty()
    } else {
        let before = exports_in_lines(lines, n - 1, module);
        let line = text::trim(lines[n - 1]);
        if is_skipped_line(line) {
            before
        } else {
            match export_line_parts(line) {
                Some((m, names)) => if m == module {
                    before.union(names.to_set())
                } else {
                    before
                },
                None => before,
            }
        }
    }
}

/// Adds each of `names` to the names re-exported from `module`.
pub fn add_exports(map: &mut ExportMap, module: &str, names: &Vec<String>)
    requires
        old(map).wf(),
    ensures
        final(map).wf(),
        names@.len() > 0 ==> final(map)@.exports_of(module@) == old(map)@.exports_of(module@).union(
            chars::views(names@).to_set(),
        ),
        names@.len() == 0 ==> final(map)@.exports_of(module@) == old(map)@.exports_of(module@),
        forall|m: Seq<char>| m != module@ ==> final(map)@.exports_of(m) == old(map)@.exports_of(m),
{
    let ghost all = chars::views(names@);
    let mut i: usize = 0;
    assert(all.take(0).to_set() =~= Set::<Seq<char>>::empty());
    assert(map@.exports_of(module@).union(Set::<Seq<char>>::empty()) =~= map@.exports_of(module@));
    while i < names.len()
        invariant
            i <= names.len(),
            all == chars::views(names@),
            map.wf(),
            map@.exports_of(module@) == old(map)@.exports_of(module@).union(
                all.take(i as int).to_set(),
            ),
            forall|m: Seq<char>| m != module@ ==> map@.exports_of(m) == old(map)@.exports_of(m),
        decreases names.len() - i,
    {
        let ghost before = map@.exports_of(module@);
        map.add_export(module, names[i].as_str());
        proof {
            assert(all.take(i + 1) =~= all.take(i as int).push(all[i as int]));
            all.take(i as int).lemma_push_to_set_commute(all[i as int]);
            assert(all.take(i + 1).to_set() =~= all.take(i as int).to_set().insert(all[i as int]));
            assert(map@.exports_of(module@) =~= old(map)@.exports_of(module@).union(
                all.take(i + 1).to_set(),
            ));
        }
        i += 1;
    }
    assert(all.take(names@.len() as int) =~= all);
}

/// `map` is sound and re-exports from every module what the lines of
/// `body` re-export from it.
pub open spec fn is_parse_of(map: ExportMapView, body: Seq<char>) -> bool {
    &&& map.wf()
    &&& forall|m: Seq<char>|
        map.exports_of(m) == exports_in_lines(text::lines(body), text::lines(body).len() as int, m)
}

/// The map that the lines of a block's body say.
pub open spec fn block_exports(body: Seq<char>) -> ExportMapView {
    choose|map: ExportMapView| is_parse_of(map, body)
}

/// Reads the re-export lines of a block's body into a map: the names of
/// every well-formed line, empty lines and comments passed over.
pub fn parse_export_lines(body: &str) -> (r: ExportMap)
    ensures
        is_parse_of(r@, body@),
        r@ == block_exports(body@),
{
    let all = chars::chars_of(body);
    let lines = chars::lines(&all);
    let comment = chars::chars_of("//");
    let mut map = ExportMap::new();
    let mut n: usize = 0;
    while n < lines.len()
        invariant
            n <= lines.len(),
            chars::views(lines@) == text::lines(body@),
            comment@ == "//"@,
            map.wf(),
            forall|m: Seq<char>|
                map@.exports_of(m) == exports_in_lines(text::lines(body@), n as int, m),
        decreases lines.len() - n,
    {
        let line = chars::trim(&lines[n]);
        assert(line@ == text::trim(text::lines(body@)[n as int]));
        if !(line.len() == 0 || chars::starts_with(&line, &comment)) {
            let text_line = chars::string_of(&line);
            match parse_export_line(text_line.as_str()) {
                Some((module, names)) => {
                    let ghost before = map@;
                    add_exports(&mut map, module.as_str(), &names);
                    proof {
                        assert forall|m: Seq<char>| map@.exports_of(m) == exports_in_lines(
                            text::lines(body@),
                            n + 1,
                            m,
                        ) by {
                            if m != module@ {
                                assert(map@.exports_of(m) == before.exports_of(m));
                            }
                        }
                    }
                },
                None => {},
            }
        }
        n += 1;
    }
    proof {
        assert(is_parse_of(map@, body@));
        lemma_export_map_unique(map@, block_exports(body@));
    }
    map
}

/// The line that re-exports `names` from `module`.
pub open spec fn export_line(module: Seq<char>, names: Seq<Seq<char>>) -> Seq<char> {
    "export { "@ + text::join(names, ", "@) + " } from \""@ + module + "\";"@
}

/// The line that re-exports `names` from `module`.
pub fn format_export_line(module: &str, names: &Vec<String>) -> (r: String)
    ensures
        r@ == export_line(module@, chars::views(names@)),
{
    let mut parts: Vec<Vec<char>> = Vec::new();
    let mut i: usize = 0;
    while i < names.len()
        invariant
            i <= names.len(),
            parts@.len() == i,
            forall|j: int| 0 <= j < i ==> parts@[j]@ == names@[j]@,
        decreases names.len() - i,
    {
        parts.push(chars::chars_of(names[i].as_str()));
        i += 1;
    }
    assert(chars::views(parts@) =~= chars::views(names@));
    let mut line = chars::chars_of("export { ");
    chars::append(&mut line, &chars::join(&parts, &chars::chars_of(", ")));
    chars::append(&mut line, &chars::chars_of(" } from \""));
    chars::append(&mut line, &chars::chars_of(module));
    chars::append(&mut line, &chars::chars_of("\";"));
    chars::string_of(&line)
}

/// The lines of a map, one for each module, in the map's order.
pub open spec fn export_lines(map: ExportMapView) -> Seq<Seq<char>> {
    Seq::new(map.modules.len(), |i: int| export_line(map.modules[i], map.names[i]))
}

/// The lines of a map, one for each module, in the map's order.
pub fn export_lines_from_map(map: &ExportMap) -> (r: Vec<String>)
    requires
        map@.modules.len() == map@.names.len(),
    ensures
        chars::views(r@) == export_lines(map@),
{
    let mut lines: Vec<String> = Vec::new();
    let mut i: usize = 0;
    while i < map.modules.len()
        invariant
            i <= map.modules.len(),
            map@.modules.len() == map@.names.len(),
            chars::views(lines@) == export_lines(map@).take(i as int),
        decreases map.modules.len() - i,
    {
        let ghost before = chars::views(lines@);
        assert(map.names@.len() == map@.names.len());
        lines.push(format_export_line(map.modules[i].as_str(), &map.names[i]));
        proof {
            assert(chars::views(lines@) =~= before.push(export_lines(map@)[i as int]));
            assert(export_lines(map@).take(i + 1) =~= before.push(export_lines(map@)[i as int]));
        }
        i += 1;
    }
    assert(export_lines(map@).take(map@.modules.len() as int) =~= export_lines(map@));
    lines
}

/// The text of the first `n` lines, each with its line feed.
pub open spec fn lines_text(lines: Seq<Seq<char>>, n: int) -> Seq<char>
    decreases n,
{
    if n <= 0 {
        seq![]
    } else {
        lines_text(lines, n - 1) + lines[n - 1] + "\n"@
    }
}

/// The generated block: the opening marker, the comment, the lines and the
/// closing marker, each on a line of its own.
pub open spec fn export_block(lines: Seq<Seq<char>>) -> Seq<char> {
    EXPORT_BLOCK_START@ + "\n"@ + EXPORT_BLOCK_COMMENT@ + "\n"@ + lines_text(
        lines,
        lines.len() as int,
    ) + EXPORT_BLOCK_END@ + "\n"@
}

/// Builds the generated block around the given lines.
pub fn build_export_block(lines: &Vec<String>) -> (r: String)
    ensures
        r@ == export_block(chars::views(lines@)),
{
    let newline = chars::chars_of("\n");
    let mut block = chars::chars_of(EXPORT_BLOCK_START);
    chars::append(&mut block, &newline);
    chars::append(&mut block, &chars::chars_of(EXPORT_BLOCK_COMMENT));
    chars::append(&mut block, &newline);
    let ghost head = block@;
    let mut i: usize = 0;
    assert(block@ =~= head + lines_text(chars::views(lines@), 0));
    while i < lines.len()
        invariant
            i <= lines.len(),
            newline@ == "\n"@,
            block@ == head + lines_text(chars::views(lines@), i as int),
        decreases lines.len() - i,
    {
        let ghost before = block@;
        chars::append(&mut block, &chars::chars_of(lines[i].as_str()));
        chars::append(&mut block, &newline);
        assert(block@ =~= head + lines_text(chars::views(lines@), i + 1));
        i += 1;
    }
    chars::append(&mut block, &chars::chars_of(EXPORT_BLOCK_END));
    chars::append(&mut block, &newline);
    chars::string_of(&block)
}

// ---------------------------------------------------------------------------
// Merging
// ---------------------------------------------------------------------------

/// Two sound maps that re-export the same names from every module are the
/// same map: what a map says decides how it is written.
pub proof fn lemma_export_map_unique(a: ExportMapView, b: ExportMapView)
    requires
        a.wf(),
        b.wf(),
        forall|m: Seq<char>| a.exports_of(m) == b.exports_of(m),
    ensures
        a == b,
{
    a.lemma_one_entry_per_module();
    b.lemma_one_entry_per_module();
    assert forall|x: Seq<char>| a.modules.contains(x) <==> b.modules.contains(x) by {
        lemma_position(a.modules, x);
        lemma_position(b.modules, x);
        if a.modules.contains(x) {
            let i = position(a.modules, x)->0;
            assert(a.names[i].contains(a.names[i][0]));
            assert(a.exports_of(x).contains(a.names[i][0]));
            assert(b.exports_of(x).contains(a.names[i][0]));
        }
        if b.modules.contains(x) {
            let i = position(b.modules, x)->0;
            assert(b.names[i].contains(b.names[i][0]));
            assert(b.exports_of(x).contains(b.names[i][0]));
            assert(a.exports_of(x).contains(b.names[i][0]));
        }
    }
    lemma_strictly_sorted_unique(a.modules, b.modules);
    assert forall|i: int| 0 <= i < a.names.len() implies a.names[i] == b.names[i] by {
        let m = a.modules[i];
        assert(a.exports_of(m) == a.names[i].to_set());
        assert(b.exports_of(m) == b.names[i].to_set());
        assert forall|x: Seq<char>| a.names[i].contains(x) <==> b.names[i].contains(x) by {
            assert(a.names[i].to_set().contains(x) == b.names[i].to_set().contains(x));
        }
        lemma_strictly_sorted_unique(a.names[i], b.names[i]);
    }
    assert(a.names =~= b.names);
}

/// `merged` is sound and re-exports from every module what `a` or `b`
/// re-exports from it.
pub open spec fn is_union(merged: ExportMapView, a: ExportMapView, b: ExportMapView) -> bool {
    &&& merged.wf()
    &&& forall|m: Seq<char>| merged.exports_of(m) == a.exports_of(m).union(b.exports_of(m))
}

/// The map that re-exports from every module what `a` or `b` re-exports
/// from it.
pub open spec fn union_of(a: ExportMapView, b: ExportMapView) -> ExportMapView {
    choose|merged: ExportMapView| is_union(merged, a, b)
}

/// The map that re-exports what either of two maps re-exports.
pub fn merge_exports(existing: &ExportMap, added: &ExportMap) -> (r: ExportMap)
    requires
        existing.wf(),
        added.wf(),
    ensures
        is_union(r@, existing@, added@),
        r@ == union_of(existing@, added@),
{
    let mut merged = ExportMap { modules: Vec::new(), names: Vec::new() };
    let mut i: usize = 0;
    proof {
        assert forall|m: Seq<char>|
            merged@.exports_of(m) == (match position(existing@.modules, m) {
                Some(k) => if k < 0 {
                    existing@.names[k].to_set()
                } else {
                    Set::empty()
                },
                None => Set::empty(),
            }) by {
            lemma_position(merged@.modules, m);
            lemma_position(existing@.modules, m);
        }
    }
    while i < existing.modules.len()
        invariant
            i <= existing.modules.len(),
            existing.wf(),
            merged.wf(),
            forall|m: Seq<char>|
                merged@.exports_of(m) == (match position(existing@.modules, m) {
                    Some(k) => if k < i {
                        existing@.names[k].to_set()
                    } else {
                        Set::empty()
                    },
                    None => Set::empty(),
                }),
        decreases existing.modules.len() - i,
    {
        let ghost before = merged@;
        assert(existing.names@.len() == existing@.names.len());
        add_exports(&mut merged, existing.modules[i].as_str(), &existing.names[i]);
        proof {
            existing@.lemma_one_entry_per_module();
            let here = existing@.modules[i as int];
            assert(position(existing@.modules, here) == Some(i as int));
            assert(existing@.names[i as int].len() > 0);
            assert(before.exports_of(here) == Set::<Seq<char>>::empty());
            assert(Set::<Seq<char>>::empty().union(existing@.names[i as int].to_set())
                =~= existing@.names[i as int].to_set());
            assert forall|m: Seq<char>|
                merged@.exports_of(m) == (match position(existing@.modules, m) {
                    Some(k) => if k < i + 1 {
                        existing@.names[k].to_set()
                    } else {
                        Set::empty()
                    },
                    None => Set::empty(),
                }) by {
                lemma_position(existing@.modules, m);
                if m != here {
                    assert(merged@.exports_of(m) == before.exports_of(m));
                }
            }
        }
        i += 1;
    }
    proof {
        assert forall|m: Seq<char>|
            merged@.exports_of(m) == existing@.exports_of(m).union(
                match position(added@.modules, m) {
                    Some(j) => if j < 0 {
                        added@.names[j].to_set()
                    } else {
                        Set::empty()
                    },
                    None => Set::empty(),
                },
            ) by {
            lemma_position(existing@.modules, m);
            lemma_position(added@.modules, m);
            assert(existing@.exports_of(m).union(Set::<Seq<char>>::empty())
                =~= existing@.exports_of(m));
        }
    }
    let mut k: usize = 0;
    while k < added.modules.len()
        invariant
            k <= added.modules.len(),
            added.wf(),
            merged.wf(),
            forall|m: Seq<char>|
                merged@.exports_of(m) == existing@.exports_of(m).union(
                    match position(added@.modules, m) {
                        Some(j) => if j < k {
                            added@.names[j].to_set()
                        } else {
                            Set::empty()
                        },
                        None => Set::empty(),
                    },
                ),
        decreases added.modules.len() - k,
    {
        let ghost before = merged@;
        assert(added.names@.len() == added@.names.len());
        add_exports(&mut merged, added.modules[k].as_str(), &added.names[k]);
        proof {
            added@.lemma_one_entry_per_module();
            let here = added@.modules[k as int];
            assert(position(added@.modules, here) == Some(k as int));
            assert(added@.names[k as int].len() > 0);
            assert forall|m: Seq<char>|
                merged@.exports_of(m) == existing@.exports_of(m).union(
                    match position(added@.modules, m) {
                        Some(j) => if j < k + 1 {
                            added@.names[j].to_set()
                        } else {
                            Set::empty()
                        },
                        None => Set::empty(),
                    },
                ) by {
                lemma_position(added@.modules, m);
                if m != here {
                    assert(merged@.exports_of(m) == before.exports_of(m));
                } else {
                    assert(before.exports_of(m) =~= existing@.exports_of(m));
                }
            }
        }
        k += 1;
    }
    proof {
        assert forall|m: Seq<char>| merged@.exports_of(m) == existing@.exports_of(m).union(
            added@.exports_of(m),
        ) by {
            lemma_position(added@.modules, m);
        }
        assert(is_union(merged@, existing@, added@));
        lemma_export_map_unique(merged@, union_of(existing@, added@));
    }
    merged
}

// ---------------------------------------------------------------------------
// The barrel file
// ---------------------------------------------------------------------------

/// A barrel file taken apart: what stands before the generated block, what
/// stands after it, and what the block re-exports.
#[derive(Clone, Debug, PartialEq, Eq)]
pub struct ExportPartition {
    pub before: String,
    pub after: String,
    pub existing_map: ExportMap,
}

/// Where the generated block stands in `content`: the position of the
/// first opening marker and that of the first closing marker behind it.
pub open spec fn block_bounds(content: Seq<char>) -> Option<(int, int)> {
    match text::find(content, EXPORT_BLOCK_START@) {
        Some(start) => match text::find_from(
            content,
            EXPORT_BLOCK_END@,
            start + EXPORT_BLOCK_START@.len(),
        ) {
            Some(end) => Some((start, end)),
            None => None,
        },
        None => None,
    }
}

/// The text before the generated block; all of it where there is no block.
pub open spec fn text_before_block(content: Seq<char>) -> Seq<char> {
    match block_bounds(content) {
        Some((start, _)) => content.take(start),
        None => content,
    }
}

/// The text after the generated block; none where there is no block.
pub open spec fn text_after_block(content: Seq<char>) -> Seq<char> {
    match block_bounds(content) {
        Some((_, end)) => content.skip(end + EXPORT_BLOCK_END@.len()),
        None => seq![],
    }
}

/// The text between the markers of the generated block.
pub open spec fn block_body(content: Seq<char>) -> Seq<char> {
    match block_bounds(content) {
        Some((start, end)) => content.subrange(start + EXPORT_BLOCK_START@.len(), end),
        None => seq![],
    }
}

/// Takes a barrel file apart.
pub fn parse_existing_export_block(content: &str) -> (r: ExportPartition)
    ensures
        r.before@ == text_before_block(content@),
        r.after@ == text_after_block(content@),
        r.existing_map@ == block_exports(block_body(content@)),
        r.existing_map.wf(),
        block_bounds(content@) is Some ==> content@ == r.before@ + EXPORT_BLOCK_START@ + block_body(
            content@,
        ) + EXPORT_BLOCK_END@ + r.after@,
{
    let all = chars::chars_of(content);
    let start_marker = chars::chars_of(EXPORT_BLOCK_START);
    let end_marker = chars::chars_of(EXPORT_BLOCK_END);
    match chars::find(&all, &start_marker) {
        Some(start) => {
            match chars::find_from(&all, &end_marker, start + start_marker.len()) {
                Some(end) => {
                    let body = chars::slice(&all, start + start_marker.len(), end);
                    let before = chars::slice(&all, 0, start);
                    let after = chars::slice(&all, end + end_marker.len(), all.len());
                    let existing_map = parse_export_lines(chars::string_of(&body).as_str());
                    proof {
                        assert(content@ =~= before@ + EXPORT_BLOCK_START@ + body@
                            + EXPORT_BLOCK_END@ + after@);
                    }
                    return ExportPartition {
                        before: chars::string_of(&before),
                        after: chars::string_of(&after),
                        existing_map,
                    };
                },
                None => {},
            }
        },
        None => {},
    }
    let existing_map = ExportMap::new();
    proof {
        let none = Seq::<char>::empty();
        assert(text::lines(none) =~= Seq::<Seq<char>>::empty());
        assert(is_parse_of(existing_map@, none));
        lemma_export_map_unique(existing_map@, block_exports(none));
    }
    ExportPartition { before: content.to_owned(), after: String::new(), existing_map }
}

/// Whether a barrel was made or changed.
#[derive(Clone, Copy, Debug, PartialEq, Eq, Structural)]
pub enum ExportChangeKind {
    Created,
    Updated,
}

/// The new text of a barrel file, with the lines that were added or
/// changed in it.
#[derive(Clone, Debug, PartialEq, Eq)]
pub struct BarrelUpdate {
    pub content: String,
    pub statements: Vec<String>,
    pub change: ExportChangeKind,
}

/// The barrel with its block replaced: what stood before the block, on
/// lines of its own, then the block, then what stood after it.
pub open spec fn rewritten_barrel(before: Seq<char>, block: Seq<char>, after: Seq<char>) -> Seq<
    char,
> {
    if before.len() > 0 && before.last() != '\n' {
        before + "\n"@ + block + after
    } else {
        before + block + after
    }
}

/// The lines of the first `n` modules of `map` that are among `touched`.
pub open spec fn touched_lines(map: ExportMapView, touched: Seq<Seq<char>>, n: int) -> Seq<
    Seq<char>,
>
    decreases n,
{
    if n <= 0 {
        seq![]
    } else {
        let before = touched_lines(map, touched, n - 1);
        if touched.contains(map.modules[n - 1]) {
            before.push(export_line(map.modules[n - 1], map.names[n - 1]))
        } else {
            before
        }
    }
}

/// Whether two lists hold the same texts.
fn same_strings(a: &Vec<String>, b: &Vec<String>) -> (r: bool)
    ensures
        r == (chars::views(a@) == chars::views(b@)),
{
    if a.len() != b.len() {
        assert(chars::views(a@).len() != chars::views(b@).len());
        return false;
    }
    let mut i: usize = 0;
    while i < a.len()
        invariant
            i <= a.len(),
            a.len() == b.len(),
            forall|j: int| 0 <= j < i ==> a@[j]@ == b@[j]@,
        decreases a.len() - i,
    {
        if !crate::string_map::same_text(a[i].as_str(), b[i].as_str()) {
            assert(chars::views(a@)[i as int] != chars::views(b@)[i as int]);
            return false;
        }
        i += 1;
    }
    assert(chars::views(a@) =~= chars::views(b@));
    true
}

/// Whether two export maps say the same.
pub fn same_exports(a: &ExportMap, b: &ExportMap) -> (r: bool)
    ensures
        r == (a@ == b@),
{
    if !same_strings(&a.modules, &b.modules) {
        return false;
    }
    if a.names.len() != b.names.len() {
        assert(a@.names.len() != b@.names.len());
        return false;
    }
    let mut i: usize = 0;
    while i < a.names.len()
        invariant
            i <= a.names.len(),
            a.names.len() == b.names.len(),
            forall|j: int| 0 <= j < i ==> a@.names[j] == b@.names[j],
        decreases a.names.len() - i,
    {
        if !same_strings(&a.names[i], &b.names[i]) {
            assert(a@.names[i as int] != b@.names[i as int]);
            return false;
        }
        i += 1;
    }
    assert(a@.names =~= b@.names);
    true
}

/// What a `BarrelUpdate` says.
pub struct BarrelUpdateView {
    pub content: Seq<char>,
    pub statements: Seq<Seq<char>>,
    pub change: ExportChangeKind,
}

impl View for BarrelUpdate {
    type V = BarrelUpdateView;

    open spec fn view(&self) -> BarrelUpdateView {
        BarrelUpdateView {
            content: self.content@,
            statements: chars::views(self.statements@),
            change: self.change,
        }
    }
}

/// What becomes of a barrel file with the text `existing_content`, `None`
/// where there is no file, when `added` is merged into its block: nothing
/// where the block re-exports all of `added` already; else the block
/// rewritten with the union of both, the text around it as it was, and the
/// lines of the modules that `added` names.
pub open spec fn barrel_update(existing_content: Option<Seq<char>>, added: ExportMapView) -> Option<
    BarrelUpdateView,
> {
    let content = match existing_content {
        Some(text) => text,
        None => Seq::<char>::empty(),
    };
    let existing = block_exports(block_body(content));
    let merged = union_of(existing, added);
    if merged == existing {
        None
    } else {
        Some(
            BarrelUpdateView {
                content: rewritten_barrel(
                    text_before_block(content),
                    export_block(export_lines(merged)),
                    text_after_block(content),
                ),
                statements: touched_lines(merged, added.modules, merged.modules.len() as int),
                change: if existing_content is Some {
                    ExportChangeKind::Updated
                } else {
                    ExportChangeKind::Created
                },
            },
        )
    }
}

/// What becomes of a barrel file when `added` is merged into its block.
/// `existing_content` is the file's text, `None` where there is no file.
/// Nothing is to be done where the block already re-exports all of
/// `added`. Else the block is rewritten with the union of both, and the
/// text around it stays as it is.
pub fn merge_barrel(existing_content: Option<&str>, added: &ExportMap) -> (r: Option<BarrelUpdate>)
    requires
        added.wf(),
    ensures
        (match r {
            Some(update) => Some(update@),
            None => None,
        }) == barrel_update(
            match existing_content {
                Some(text) => Some(text@),
                None => None,
            },
            added@,
        ),
{
    proof {
        reveal_strlit("");
        assert(""@ =~= Seq::<char>::empty());
    }
    let partition = match existing_content {
        Some(text) => parse_existing_export_block(text),
        None => parse_existing_export_block(""),
    };
    let merged = merge_exports(&partition.existing_map, added);
    if same_exports(&merged, &partition.existing_map) {
        return None;
    }
    let lines = export_lines_from_map(&merged);
    let block = build_export_block(&lines);
    let before = chars::chars_of(partition.before.as_str());
    let mut content = chars::chars_of(partition.before.as_str());
    if before.len() > 0 && before[before.len() - 1] != '\n' {
        chars::append(&mut content, &chars::chars_of("\n"));
    }
    chars::append(&mut content, &chars::chars_of(block.as_str()));
    chars::append(&mut content, &chars::chars_of(partition.after.as_str()));

    let mut statements: Vec<String> = Vec::new();
    let mut n: usize = 0;
    assert(chars::views(statements@) =~= touched_lines(merged@, added@.modules, 0));
    while n < merged.modules.len()
        invariant
            n <= merged.modules.len(),
            merged@.modules.len() == merged@.names.len(),
            chars::views(statements@) == touched_lines(merged@, added@.modules, n as int),
        decreases merged.modules.len() - n,
    {
        let ghost shown = chars::views(statements@);
        assert(merged.names@.len() == merged@.names.len());
        if crate::resolver::contains_text(&added.modules, merged.modules[n].as_str()) {
            statements.push(format_export_line(merged.modules[n].as_str(), &merged.names[n]));
            assert(chars::views(statements@) =~= shown.push(
                export_line(merged@.modules[n as int], merged@.names[n as int]),
            ));
        }
        n += 1;
    }
    let change = if existing_content.is_some() {
        ExportChangeKind::Updated
    } else {
        ExportChangeKind::Created
    };
    Some(BarrelUpdate { content: chars::string_of(&content), statements, change })
}

/// Merging changes nothing exactly where the block already re-exports,
/// from every module, all that is added.
pub proof fn lemma_merge_changes_nothing(existing: ExportMapView, added: ExportMapView)
    requires
        existing.wf(),
        is_union(union_of(existing, added), existing, added),
    ensures
        union_of(existing, added) == existing <==> forall|m: Seq<char>|
            added.exports_of(m).subset_of(existing.exports_of(m)),
{
    let merged = union_of(existing, added);
    if forall|m: Seq<char>| added.exports_of(m).subset_of(existing.exports_of(m)) {
        assert forall|m: Seq<char>| merged.exports_of(m) == existing.exports_of(m) by {
            assert(added.exports_of(m).subset_of(existing.exports_of(m)));
            assert(existing.exports_of(m).union(added.exports_of(m)) =~= existing.exports_of(m));
        }
        lemma_export_map_unique(merged, existing);
    }
    if merged == existing {
        assert forall|m: Seq<char>| added.exports_of(m).subset_of(existing.exports_of(m)) by {
            assert(merged.exports_of(m) == existing.exports_of(m).union(added.exports_of(m)));
        }
    }
}

} // verus!
