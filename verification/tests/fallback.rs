//! Recovering agent structure from plain text.

use heddle::agent::fallback::{extract_code_blocks, is_tool_name, parse, parse_with, Chrome};

#[test]
fn recovers_hermes_preview_chrome() {
    let p = parse("🔧 edit: \"src/main.rs\"");
    assert_eq!(p.tools.len(), 1);
    assert_eq!(p.tools[0].name, "edit");
    assert_eq!(p.tools[0].preview.as_deref(), Some("src/main.rs"));
    assert!(p.prose.is_empty());
}

#[test]
fn recovers_ellipsis_and_verbose_forms() {
    let p = parse("⚙️ bash...\n🔧 edit(['path'])");
    assert_eq!(p.tools.len(), 2);
    assert_eq!(p.tools[0].name, "bash");
    assert_eq!(p.tools[1].name, "edit");
    assert_eq!(p.tools[1].index, 1);
}

#[test]
fn leaves_prose_alone() {
    let body = "I have applied the fix.\nIt should build now.";
    let p = parse(body);
    assert!(p.tools.is_empty());
    assert_eq!(p.prose, body);
}

#[test]
fn does_not_mistake_prose_for_a_tool_call() {
    let prose = [
        "📝 Note: this is fine",
        "✅ Done: all tests pass",
        "⚠️ Warning: disk almost full",
        "→ Next: run the migration",
        "📝 TODO: write docs",
        "🎉 Shipped (finally)",
        "⚙️ Summary (short)",
        "🟢 ready: go",
        "✅ All good: the tests pass now",
    ];

    for line in prose {
        let p = parse(line);
        assert!(p.tools.is_empty(), "{line:?} recovered {:?}", p.tools);
        assert_eq!(p.prose, line, "{line:?} was eaten");
    }
}

#[test]
fn a_preview_must_actually_be_quoted() {
    assert!(parse("🔧 edit: src/main.rs").tools.is_empty());
    assert_eq!(parse("🔧 edit: \"src/main.rs\"").tools.len(), 1);
}

#[test]
fn a_preview_keeps_the_quotes_it_was_meant_to_have() {
    let p = parse("🔧 bash: \"echo \"hi\"\"");
    assert_eq!(p.tools.len(), 1);
    assert_eq!(p.tools[0].preview.as_deref(), Some("echo \"hi\""));
}

#[test]
fn a_call_needs_its_closing_paren_and_no_space_before_it() {
    assert_eq!(parse("🔧 edit(['path'])").tools.len(), 1);
    assert!(parse("🔧 restarting (this may take a while")
        .tools
        .is_empty());
}

#[test]
fn extracts_fenced_blocks_and_keeps_prose() {
    let p = parse("before\n```rust\nfn main() {}\n```\nafter");
    assert_eq!(p.blocks.len(), 1);
    assert_eq!(p.blocks[0].lang.as_deref(), Some("rust"));
    assert_eq!(p.blocks[0].body, "fn main() {}");
    assert_eq!(p.prose, "before\nafter");
}

#[test]
fn survives_an_unterminated_fence() {
    let p = parse("text\n```sh\ncargo test");
    assert_eq!(p.blocks.len(), 1);
    assert_eq!(p.blocks[0].body, "cargo test");
}

#[test]
fn does_not_parse_chrome_inside_a_code_block() {
    let p = parse("```\n🔧 edit: \"nope.rs\"\n```");
    assert!(p.tools.is_empty());
    assert_eq!(p.blocks.len(), 1);
}

#[test]
fn a_longer_fence_contains_a_shorter_one() {
    let p = parse("````markdown\n```\ninner\n```\n````");
    assert_eq!(p.blocks.len(), 1, "got {:?}", p.blocks);
    assert_eq!(p.blocks[0].lang.as_deref(), Some("markdown"));
    assert_eq!(p.blocks[0].body, "```\ninner\n```");
    assert!(p.prose.is_empty(), "leaked {:?}", p.prose);
}

#[test]
fn mixed_message_yields_tools_blocks_and_prose() {
    let p = parse("🔧 bash: \"cargo test\"\nAll tests pass.\n```\nok\n```");
    assert_eq!(p.tools.len(), 1);
    assert_eq!(p.blocks.len(), 1);
    assert_eq!(p.prose, "All tests pass.");
    assert!(!p.is_empty());
}

#[test]
fn extracting_again_finds_nothing() {
    let body = "before\n````md\n```rust\nfn main() {}\n```\n````\n``not a fence``\nafter";
    let (blocks, rest) = extract_code_blocks(body);
    assert_eq!(blocks.len(), 1);
    assert_eq!(blocks[0].body, "```rust\nfn main() {}\n```");
    assert_eq!(rest, "before\n``not a fence``\nafter\n");
    let (none, again) = extract_code_blocks(&rest);
    assert!(none.is_empty());
    assert_eq!(again, rest);

    // A carriage return before a carriage return and a line feed belongs to the line once.
    let (_, rest) = extract_code_blocks("a\r\r\nb");
    assert_eq!(rest, "a\r\nb\n");
    assert_eq!(extract_code_blocks(&rest).1, "a\nb\n");
}

#[test]
fn a_table_that_is_not_off_recognises_something() {
    let off = Chrome::none();
    assert!(off.is_off());
    assert!(!Chrome::hermes().is_off());
    for leading_emoji in [false, true] {
        for (preview, ellipsis, call, text) in [
            (true, false, false, "a: \"\""),
            (false, true, false, "a..."),
            (false, false, true, "a()"),
        ] {
            let chrome = Chrome {
                leading_emoji,
                preview,
                ellipsis,
                call,
            };
            let body = if leading_emoji { format!("⚙ {text}") } else { text.to_owned() };
            assert!(!chrome.is_off());
            assert_eq!(parse_with(&body, chrome).tools.len(), 1);
            assert!(parse_with(&body, off).tools.is_empty());
        }
    }
}

#[test]
fn a_tool_name_is_an_identifier_of_modest_length() {
    assert!(is_tool_name("mcp.read_file-2"));
    assert!(is_tool_name(&"a".repeat(48)));
    for prose in ["", "Shipped ", "naïve", "a:b"] {
        assert!(!is_tool_name(prose), "{prose}");
    }
    assert!(!is_tool_name(&"a".repeat(49)));
}
