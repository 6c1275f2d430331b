//! Putting the registry's design tokens into a project's style sheet.

use vstd::prelude::*;
use crate::chars;
use crate::text;

verus! {

/// The words by which a style sheet shows that it holds the tokens already.
pub const TOKENS_MARKER: &'static str = "NOCTA CSS THEME VARIABLES";

/// Whether a line imports Tailwind.
pub open spec fn imports_tailwind(line: Seq<char>) -> bool {
    let trimmed = text::trim(line);
    text::starts_with(trimmed, "@import"@) && text::contains(trimmed, "tailwindcss"@)
}

/// The first `n` lines without those that import Tailwind.
pub open spec fn kept_lines(lines: Seq<Seq<char>>, n: int) -> Seq<Seq<char>>
    decreases n,
{
    if n <= 0 {
        seq![]
    } else {
        let before = kept_lines(lines, n - 1);
        if imports_tailwind(lines[n - 1]) {
            before
        } else {
            before.push(lines[n - 1])
        }
    }
}

/// A snippet without the lines that import Tailwind, and without line
/// feeds at its head.
pub open spec fn without_tailwind_import(snippet: Seq<char>) -> Seq<char> {
    let lines = text::lines(snippet);
    text::trim_start_pat(text::join(kept_lines(lines, lines.len() as int), "\n"@), "\n"@)
}

/// Whether a line imports Tailwind.
fn line_imports_tailwind(line: &Vec<char>) -> (r: bool)
    ensures
        r == imports_tailwind(line@),
{
    let trimmed = chars::trim(line);
    chars::starts_with(&trimmed, &chars::chars_of("@import")) && chars::contains(
        &trimmed,
        &chars::chars_of("tailwindcss"),
    )
}

/// A snippet without the lines that import Tailwind.
pub fn strip_tailwind_import(snippet: &str) -> (r: String)
    ensures
        r@ == without_tailwind_import(snippet@),
{
    let lines = chars::lines(&chars::chars_of(snippet));
    let mut kept: Vec<Vec<char>> = Vec::new();
    let mut n: usize = 0;
    assert(chars::views(kept@) =~= kept_lines(chars::views(lines@), 0));
    while n < lines.len()
        invariant
            n <= lines.len(),
            chars::views(kept@) == kept_lines(chars::views(lines@), n as int),
        decreases lines.len() - n,
    {
        let ghost before = chars::views(kept@);
        if !line_imports_tailwind(&lines[n]) {
            kept.push(lines[n].clone());
            assert(chars::views(kept@) =~= before.push(lines@[n as int]@));
        }
        n += 1;
    }
    let newline = chars::chars_of("\n");
    chars::string_of(&chars::trim_start_pat(&chars::join(&kept, &newline), &newline))
}

/// Whether a line of a style sheet may stand before the tokens: an empty
/// line, an at-rule or a comment.
pub open spec fn is_preamble(line: Seq<char>) -> bool {
    let trimmed = text::trim(line);
    trimmed.len() == 0 || text::starts_with(trimmed, "@"@) || text::starts_with(trimmed, "/*"@)
        || text::starts_with(trimmed, "//"@)
}

/// Where the tokens go among the lines from `i` on: behind the last import
/// of the preamble; `found` is the place found before `i`.
pub open spec fn insert_place(lines: Seq<Seq<char>>, i: int, found: Option<int>) -> Option<int>
    decreases lines.len() - i,
{
    if i < 0 || i >= lines.len() {
        found
    } else if text::starts_with(text::trim(lines[i]), "@import"@) {
        insert_place(lines, i + 1, Some(i + 1))
    } else if !is_preamble(lines[i]) {
        found
    } else {
        insert_place(lines, i + 1, found)
    }
}

/// The lines of a style sheet with the lines of a snippet put in: behind
/// the imports, set off by empty lines; at the head where there are no
/// imports.
pub open spec fn with_snippet_lines(lines: Seq<Seq<char>>, snippet: Seq<Seq<char>>) -> Seq<
    Seq<char>,
> {
    match insert_place(lines, 0, None) {
        Some(index) => {
            let head = lines.take(index);
            let spaced = if head.len() > 0 && head.last().len() == 0 {
                head
            } else {
                head.push(seq![])
            };
            spaced + snippet + seq![seq![]] + lines.skip(index)
        },
        None => snippet + seq![seq![]] + lines,
    }
}

/// A style sheet with a snippet put in behind its imports.
pub open spec fn with_snippet(existing: Seq<char>, snippet: Seq<char>) -> Seq<char> {
    let plain = text::trim_end_char(text::trim_start_pat(snippet, "\n"@), '\n');
    if plain.len() == 0 {
        existing
    } else if existing.len() == 0 {
        plain + "\n"@
    } else {
        let joined = text::join(with_snippet_lines(text::lines(existing), text::lines(plain)), "\n"@);
        if existing.last() == '\n' {
            joined + "\n"@
        } else {
            joined
        }
    }
}

/// Copies of the items of `items` from `from` up to `to`, appended to `out`.
fn push_range(out: &mut Vec<Vec<char>>, items: &Vec<Vec<char>>, from: usize, to: usize)
    requires
        from <= to <= items.len(),
    ensures
        chars::views(final(out)@) == chars::views(old(out)@) + chars::views(items@).subrange(
            from as int,
            to as int,
        ),
{
    let mut i: usize = from;
    assert(chars::views(out@) =~= chars::views(old(out)@) + chars::views(items@).subrange(
        from as int,
        from as int,
    ));
    while i < to
        invariant
            from <= i <= to <= items.len(),
            chars::views(out@) == chars::views(old(out)@) + chars::views(items@).subrange(
                from as int,
                i as int,
            ),
        decreases to - i,
    {
        let ghost before = chars::views(out@);
        out.push(items[i].clone());
        assert(chars::views(out@) =~= before.push(items@[i as int]@));
        assert(chars::views(items@).subrange(from as int, i + 1) =~= chars::views(items@).subrange(
            from as int,
            i as int,
        ).push(items@[i as int]@));
        i += 1;
    }
}

/// Puts a snippet into a style sheet behind its imports.
pub fn insert_snippet(existing: &str, snippet: &str) -> (r: String)
    ensures
        r@ == with_snippet(existing@, snippet@),
{
    let newline = chars::chars_of("\n");
    let plain = chars::trim_end_char(&chars::trim_start_pat(&chars::chars_of(snippet), &newline), '\n');
    if plain.len() == 0 {
        return existing.to_owned();
    }
    let all = chars::chars_of(existing);
    if all.len() == 0 {
        let mut out = plain;
        chars::append(&mut out, &newline);
        return chars::string_of(&out);
    }
    let lines = chars::lines(&all);
    let added = chars::lines(&plain);
    let import = chars::chars_of("@import");
    let mut place: Option<usize> = None;
    let mut i: usize = 0;
    let ghost shown = chars::views(lines@);
    while i < lines.len()
        invariant
            i <= lines.len(),
            shown == chars::views(lines@),
            import@ == "@import"@,
            place matches Some(p) ==> p <= i,
            insert_place(shown, 0, None) == insert_place(
                shown,
                i as int,
                match place {
                    Some(p) => Some(p as int),
                    None => None,
                },
            ),
        ensures
            place matches Some(p) ==> p <= lines.len(),
            insert_place(shown, 0, None) == (match place {
                Some(p) => Some(p as int),
                None => None,
            }),
        decreases lines.len() - i,
    {
        let trimmed = chars::trim(&lines[i]);
        if chars::starts_with(&trimmed, &import) {
            place = Some(i + 1);
        } else if !(trimmed.len() == 0 || chars::starts_with(&trimmed, &chars::chars_of("@"))
            || chars::starts_with(&trimmed, &chars::chars_of("/*")) || chars::starts_with(
            &trimmed,
            &chars::chars_of("//"),
        )) {
            break ;
        }
        i += 1;
    }
    let mut out: Vec<Vec<char>> = Vec::new();
    assert(chars::views(out@) =~= Seq::<Seq<char>>::empty());
    match place {
        Some(index) => {
            push_range(&mut out, &lines, 0, index);
            assert(chars::views(out@) =~= shown.take(index as int));
            if !(out.len() > 0 && out[out.len() - 1].len() == 0) {
                let ghost before = chars::views(out@);
                out.push(Vec::new());
                assert(chars::views(out@) =~= before.push(Seq::<char>::empty()));
            }
            let ghost spaced = chars::views(out@);
            push_range(&mut out, &added, 0, added.len());
            assert(chars::views(added@).subrange(0, added.len() as int) =~= chars::views(added@));
            let ghost filled = chars::views(out@);
            out.push(Vec::new());
            assert(chars::views(out@) =~= filled + seq![Seq::<char>::empty()]);
            push_range(&mut out, &lines, index, lines.len());
            assert(shown.subrange(index as int, lines.len() as int) =~= shown.skip(index as int));
        },
        None => {
            push_range(&mut out, &added, 0, added.len());
            assert(chars::views(added@).subrange(0, added.len() as int) =~= chars::views(added@));
            let ghost filled = chars::views(out@);
            out.push(Vec::new());
            assert(chars::views(out@) =~= filled + seq![Seq::<char>::empty()]);
            push_range(&mut out, &lines, 0, lines.len());
            assert(shown.subrange(0, lines.len() as int) =~= shown);
        },
    }
    assert(chars::views(out@) == with_snippet_lines(shown, chars::views(added@)));
    let mut joined = chars::join(&out, &newline);
    if all[all.len() - 1] == '\n' {
        chars::append(&mut joined, &newline);
    }
    chars::string_of(&joined)
}

/// The style sheet with the registry's tokens put in; `None` where it
/// holds them already. The registry's own import of Tailwind is left out
/// where the style sheet imports Tailwind itself.
pub open spec fn with_design_tokens(css: Seq<char>, registry_css: Seq<char>) -> Option<Seq<char>> {
    if text::contains(css, TOKENS_MARKER@) {
        None
    } else {
        let tokens = text::trim_start(registry_css);
        Some(
            with_snippet(
                css,
                if text::contains(css, "@import \"tailwindcss\""@) || text::contains(
                    css,
                    "@import 'tailwindcss'"@,
                ) {
                    without_tailwind_import(tokens)
                } else {
                    tokens
                },
            ),
        )
    }
}

/// Puts the registry's design tokens into a style sheet, unless they are
/// there. `css` is the text of the style sheet, empty where there is none.
pub fn add_design_tokens_to_css(css: &str, registry_css: &str) -> (r: Option<String>)
    ensures
        crate::types::option_view(r) == with_design_tokens(css@, registry_css@),
{
    let all = chars::chars_of(css);
    if chars::contains(&all, &chars::chars_of(TOKENS_MARKER)) {
        return None;
    }
    let tokens = chars::string_of(&chars::trim_start(&chars::chars_of(registry_css)));
    let imports = chars::contains(&all, &chars::chars_of("@import \"tailwindcss\""))
        || chars::contains(&all, &chars::chars_of("@import 'tailwindcss'"));
    let snippet = if imports {
        strip_tailwind_import(tokens.as_str())
    } else {
        tokens
    };
    Some(insert_snippet(css, snippet.as_str()))
}

} // verus!
