use nocta_core::tailwind::{add_design_tokens_to_css, insert_snippet, strip_tailwind_import};

#[test]
fn snippet_goes_behind_the_imports() {
    assert_eq!(
        insert_snippet("@import \"tailwindcss\";\n\nbody{}\n", ":root{}\n"),
        "@import \"tailwindcss\";\n\n:root{}\n\n\nbody{}\n"
    );
    assert_eq!(
        insert_snippet("/* c */\n@import 'a';\n@import 'b';\n.x{}", "\n:root{}\n\n"),
        "/* c */\n@import 'a';\n@import 'b';\n\n:root{}\n\n.x{}"
    );
    assert_eq!(
        insert_snippet(".x{}\n@import 'late';\n", ":root{}"),
        ":root{}\n\n.x{}\n@import 'late';\n"
    );
}

#[test]
fn snippet_goes_to_the_head_without_imports() {
    assert_eq!(insert_snippet("body{}", ":root{}\n.a{}"), ":root{}\n.a{}\n\nbody{}");
    assert_eq!(insert_snippet("", ":root{}"), ":root{}\n");
    assert_eq!(insert_snippet("body{}", "\n\n"), "body{}");
    assert_eq!(insert_snippet("", ""), "");
}

#[test]
fn tailwind_imports_are_left_out_of_a_snippet() {
    assert_eq!(strip_tailwind_import("@import \"tailwindcss\";\n\n:root{}\n"), ":root{}");
    assert_eq!(
        strip_tailwind_import("  @import 'tailwindcss/theme';\n@import 'other';\n:root{}"),
        "@import 'other';\n:root{}"
    );
    assert_eq!(strip_tailwind_import("a\r\nb"), "a\nb");
}

#[test]
fn tokens_are_added_once() {
    let registry = "  @import \"tailwindcss\";\n/* NOCTA CSS THEME VARIABLES */\n:root{}\n";
    assert_eq!(
        add_design_tokens_to_css("@import \"tailwindcss\";\n", registry),
        Some("@import \"tailwindcss\";\n\n/* NOCTA CSS THEME VARIABLES */\n:root{}\n\n".to_string())
    );
    assert_eq!(
        add_design_tokens_to_css("", registry),
        Some("@import \"tailwindcss\";\n/* NOCTA CSS THEME VARIABLES */\n:root{}\n".to_string())
    );
    assert_eq!(add_design_tokens_to_css("/* NOCTA CSS THEME VARIABLES */", registry), None);
}
