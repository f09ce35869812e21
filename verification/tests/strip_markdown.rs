use normy::context::Context;
use normy::lang::data::ENG;
use normy::stage::strip_markdown::StripMarkdown;
use normy::stage::Stage;
use std::borrow::Cow;



#[test]
fn strip_markdown_test_pure_text_zero_copy() {
    let stage = StripMarkdown;
    let ctx = Context::new(ENG);
    let input = "Just plain text with no markdown at all";

    // "Just plain text..." doesn't contain checked markdown bytes
    assert!(!stage.needs_apply(input, &ctx).unwrap());
    let result = stage.apply(Cow::Borrowed(input), &ctx).unwrap();

    assert_eq!(result.as_ref(), input);
}

#[test]
fn test_basic_formatting() {
    let stage = StripMarkdown;
    let ctx = Context::new(ENG);

    // Covers Bold, Italic, Strikethrough, Code
    let input = "**Bold** and _Italic_ and ~~Strike~~ and `code`";
    let result = stage.apply(Cow::Borrowed(input), &ctx).unwrap();
    assert_eq!(result, "Bold and Italic and Strike and code");
}

#[test]
fn test_structure_spacing() {
    let stage = StripMarkdown;
    let ctx = Context::new(ENG);

    // Ensures headers are separated from paragraphs by newlines
    let input = r#"
# Heading 1
Paragraph text.
## Heading 2
More text.
"#;
    let result = stage.apply(Cow::Borrowed(input.trim()), &ctx).unwrap();
    let expected = "Heading 1\nParagraph text.\nHeading 2\nMore text.";
    assert_eq!(result, expected);
}

#[test]
fn test_lists_and_nested_items() {
    let stage = StripMarkdown;
    let ctx = Context::new(ENG);

    let input = r#"
- Item 1
- Item 2
  - Nested A
  - Nested B
"#;
    let result = stage.apply(Cow::Borrowed(input.trim()), &ctx).unwrap();
    // Bullets are removed, structure preserved via newlines
    let expected = "Item 1\nItem 2\nNested A\nNested B";
    assert_eq!(result, expected);
}

#[test]
fn test_task_lists() {
    let stage = StripMarkdown;
    let ctx = Context::new(ENG);

    let input = "- [x] Done\n- [ ] Todo";
    let result = stage.apply(Cow::Borrowed(input), &ctx).unwrap();

    // Important for NLP: preserves the "checked" status as text
    let expected = "[x] Done\n[ ] Todo";
    assert_eq!(result, expected);
}

#[test]
fn test_tables() {
    let stage = StripMarkdown;
    let ctx = Context::new(ENG);

    let input = r#"
| Header A | Header B |
|----------|----------|
| Cell 1   | Cell 2   |
| Cell 3   | Cell 4   |
"#;
    let result = stage.apply(Cow::Borrowed(input.trim()), &ctx).unwrap();

    // Ensures cells are space-separated and rows are newline-separated
    let expected = "Header A Header B\nCell 1 Cell 2\nCell 3 Cell 4";
    assert_eq!(result.trim(), expected);
}

#[test]
fn test_links_and_images() {
    let stage = StripMarkdown;
    let ctx = Context::new(ENG);

    let input = "Click [here](https://example.com) to see ![A Cat](cat.png).";
    let result = stage.apply(Cow::Borrowed(input), &ctx).unwrap();

    assert_eq!(result, "Click here to see A Cat.");
}

#[test]
fn test_passthrough_elements() {
    let stage = StripMarkdown;
    let ctx = Context::new(ENG);

    // HTML should be preserved for the `strip_html` stage
    // Math should be preserved for tokenization, including delimiters
    let input = "Text <div>HTML</div> $E=mc^2$ end.";
    let result = stage.apply(Cow::Borrowed(input), &ctx).unwrap();

    assert_eq!(result, "Text <div>HTML</div> $E=mc^2$ end.");
}

#[test]
fn test_blockquotes() {
    let stage = StripMarkdown;
    let ctx = Context::new(ENG);

    let input = "> Quote line 1\n> Quote line 2";
    let result = stage.apply(Cow::Borrowed(input), &ctx).unwrap();

    // Soft breaks within blockquotes are preserved as newlines
    assert_eq!(result, "Quote line 1\nQuote line 2");
}

#[test]
fn test_complex_nested_structure() {
    let stage = StripMarkdown;
    let ctx = Context::new(ENG);

    let input = r#"
# Title

Intro text with **bold**.

1. List item
   > With a quote inside
2. Second item

Final paragraph.
"#;
    let result = stage.apply(Cow::Borrowed(input.trim()), &ctx).unwrap();

    // Logic check:
    // Title\n
    // Intro text with bold.\n
    // List item\n
    // With a quote inside\n (Quote block ensures newline before)
    // Second item\n
    // Final paragraph.
    let expected = "Title\nIntro text with bold.\nList item\nWith a quote inside\nSecond item\nFinal paragraph.";
    assert_eq!(result, expected);
}

#[test]
fn test_idempotency_debug() {
    let stage = StripMarkdown;
    let ctx = Context::new(ENG);

    let input = "- [x] Task list\n- [ ] Pending";
    let once = stage.apply(Cow::Borrowed(input), &ctx).unwrap();
    println!("ONCE: {:?}", once);

    let twice = stage.apply(once.clone(), &ctx).unwrap();
    println!("TWICE: {:?}", twice);

    assert_eq!(once, twice);
}

#[test]
fn test_strikethrough() {
    let stage = StripMarkdown;
    let ctx = Context::new(ENG);

    assert_eq!(
        stage
            .apply(Cow::Borrowed("~~deleted text~~"), &ctx)
            .unwrap(),
        "deleted text"
    );

    assert_eq!(
        stage
            .apply(Cow::Borrowed("Keep ~~delete~~ this"), &ctx)
            .unwrap(),
        "Keep delete this"
    );
}

#[test]
fn test_code_blocks() {
    let stage = StripMarkdown;
    let ctx = Context::new(ENG);

    // Fenced code block
    let input = "```rust\nfn main() {}\n```";
    let result = stage.apply(Cow::Borrowed(input), &ctx).unwrap();
    assert!(result.contains("fn main()"));

    // Code block with no language
    let input = "```\ncode here\n```";
    let result = stage.apply(Cow::Borrowed(input), &ctx).unwrap();
    assert!(result.contains("code here"));
}

#[test]
fn test_horizontal_rules() {
    let stage = StripMarkdown;
    let ctx = Context::new(ENG);

    let input = "Before\n\n---\n\nAfter";
    let result = stage.apply(Cow::Borrowed(input), &ctx).unwrap();
    // Rules become newlines
    assert!(result.contains("Before"));
    assert!(result.contains("After"));
}

#[test]
fn test_ordered_lists() {
    let stage = StripMarkdown;
    let ctx = Context::new(ENG);

    let input = "1. First\n2. Second\n3. Third";

    assert!(stage.needs_apply(input, &ctx).unwrap());
    let result = stage.apply(Cow::Borrowed(input), &ctx).unwrap();

    // At document start without blank lines, pulldown-cmark may treat as plain text
    // This is fine - the important thing is idempotency
    assert_eq!(result, "First\nSecond\nThird");

    // Verify idempotency
    let twice = stage.apply(result.clone(), &ctx).unwrap();
    assert_eq!(result, twice);
}

#[test]
fn test_mixed_inline_formatting() {
    let stage = StripMarkdown;
    let ctx = Context::new(ENG);

    // Bold + italic
    assert_eq!(
        stage
            .apply(Cow::Borrowed("***bold and italic***"), &ctx)
            .unwrap(),
        "bold and italic"
    );

    // Bold with code inside
    assert_eq!(
        stage
            .apply(Cow::Borrowed("**bold with `code` inside**"), &ctx)
            .unwrap(),
        "bold with code inside"
    );

    // Nested formatting
    assert_eq!(
        stage
            .apply(Cow::Borrowed("**bold _and italic_**"), &ctx)
            .unwrap(),
        "bold and italic"
    );
}

#[test]
fn test_math_display_modes() {
    let stage = StripMarkdown;
    let ctx = Context::new(ENG);

    // Inline math
    assert_eq!(
        stage
            .apply(Cow::Borrowed("Formula $E=mc^2$ here"), &ctx)
            .unwrap(),
        "Formula $E=mc^2$ here"
    );

    // Display math
    assert_eq!(
        stage
            .apply(Cow::Borrowed("$$\\frac{1}{2}$$"), &ctx)
            .unwrap(),
        "$$\\frac{1}{2}$$"
    );

    // Multiple inline
    assert_eq!(
        stage.apply(Cow::Borrowed("$x$ and $y$"), &ctx).unwrap(),
        "$x$ and $y$"
    );
}

#[test]
fn test_escaped_markdown() {
    let stage = StripMarkdown;
    let ctx = Context::new(ENG);

    let input = r"\*not bold\* and \# not heading";
    let result = stage.apply(Cow::Borrowed(input), &ctx).unwrap();
    // Backslash escapes should be handled by pulldown-cmark
    assert!(result.contains("*not bold*") || result.contains("not bold"));
}

#[test]
fn test_empty_elements() {
    let stage = StripMarkdown;
    let ctx = Context::new(ENG);

    // Empty bold
    let result = stage.apply(Cow::Borrowed("****"), &ctx).unwrap();
    assert_eq!(result.trim(), "");

    // Empty link
    let result = stage.apply(Cow::Borrowed("[](url)"), &ctx).unwrap();
    assert_eq!(result.trim(), "");
}

#[test]
fn test_reference_style_links() {
    let stage = StripMarkdown;
    let ctx = Context::new(ENG);

    let input = "Click [here][ref]\n\n[ref]: https://example.com";
    let result = stage.apply(Cow::Borrowed(input), &ctx).unwrap();
    assert!(result.contains("Click here"));
    assert!(!result.contains("[ref]"));
}

#[test]
fn test_autolinks() {
    let stage = StripMarkdown;
    let ctx = Context::new(ENG);

    let input = "Visit <https://example.com> today";
    let result = stage.apply(Cow::Borrowed(input), &ctx).unwrap();
    assert!(result.contains("https://example.com"));
}

#[test]
fn test_nested_lists() {
    let stage = StripMarkdown;
    let ctx = Context::new(ENG);

    let input = "- Level 1\n  - Level 2\n    - Level 3";
    let result = stage.apply(Cow::Borrowed(input), &ctx).unwrap();
    assert!(result.contains("Level 1"));
    assert!(result.contains("Level 2"));
    assert!(result.contains("Level 3"));
}

#[test]
fn test_heading_levels() {
    let stage = StripMarkdown;
    let ctx = Context::new(ENG);

    let input = "# H1\n## H2\n### H3\n#### H4\n##### H5\n###### H6";
    let result = stage.apply(Cow::Borrowed(input), &ctx).unwrap();
    assert!(result.contains("H1"));
    assert!(result.contains("H2"));
    assert!(result.contains("H6"));
}
