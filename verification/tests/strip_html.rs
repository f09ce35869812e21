use normy::context::Context;
use normy::lang::data::ENG;
use normy::stage::strip_html::StripHtml;
use normy::stage::Stage;
use std::borrow::Cow;



#[test]
fn strip_html_test_pure_text_zero_copy() {
    let stage = StripHtml;
    let ctx = Context::new(ENG);
    let input = "Hello world";
    assert!(!stage.needs_apply(input, &ctx).unwrap());
    let result = stage.apply(Cow::Borrowed(input), &ctx).unwrap();
    assert!(matches!(result, Cow::Borrowed(_)));
    assert_eq!(result.as_ref(), input);
}

#[test]
fn test_strips_tags_and_comments_preserves_spacing() {
    let stage = StripHtml;
    let ctx = Context::new(ENG);
    let input = "<p>Hello <!-- secret --> <b>world</b>!</p>";
    assert_eq!(
        stage.apply(Cow::Borrowed(input), &ctx).unwrap(),
        "Hello  world!"
    );
}

#[test]
fn test_entity_decoding() {
    let stage = StripHtml;
    let ctx = Context::new(ENG);
    assert_eq!(
        stage.apply(Cow::Borrowed("caf&eacute;"), &ctx).unwrap(),
        "café"
    );
    // Entity-encoded script tags are decoded then stripped (content too)
    assert_eq!(
        stage
            .apply(Cow::Borrowed("&lt;script&gt;alert(1)&lt;/script&gt;"), &ctx)
            .unwrap(),
        "" // Script content is stripped
    );
}

#[test]
fn test_mixed_content() {
    let stage = StripHtml;
    let ctx = Context::new(ENG);
    let input = "Price: &euro;99 <s>199</s> &rarr; Save now!";
    assert_eq!(
        stage.apply(Cow::Borrowed(input), &ctx).unwrap(),
        "Price: €99 199 → Save now!"
    );
}

#[test]
fn test_idempotency() {
    let stage = StripHtml;
    let ctx = Context::new(ENG);
    let input = "<div><p>Hello &amp; world</p></div>";
    let once = stage.apply(Cow::Borrowed(input), &ctx).unwrap();
    let twice = stage.apply(once.clone(), &ctx).unwrap();
    assert_eq!(once, "Hello & world");
    assert_eq!(once, twice);
}

#[test]
fn test_script_tag_content_stripped() {
    let stage = StripHtml;
    let ctx = Context::new(ENG);
    let input = "<script>alert('<tag>');</script>text";
    assert_eq!(stage.apply(Cow::Borrowed(input), &ctx).unwrap(), "text");
}

#[test]
fn test_style_tag_content_stripped() {
    let stage = StripHtml;
    let ctx = Context::new(ENG);
    let input = "<style>body { color: red; }</style>text";
    assert_eq!(stage.apply(Cow::Borrowed(input), &ctx).unwrap(), "text");
}

#[test]
fn test_cdata_content_preserved() {
    let stage = StripHtml;
    let ctx = Context::new(ENG);
    let input = "<![Cdata[<tag>content</tag>]]>text";
    assert_eq!(
        stage.apply(Cow::Borrowed(input), &ctx).unwrap(),
        "<tag>content</tag>text"
    );
}

#[test]
fn test_comment_with_greater_than() {
    let stage = StripHtml;
    let ctx = Context::new(ENG);
    let input = "<!-- if x > 5 then --> visible";
    assert_eq!(stage.apply(Cow::Borrowed(input), &ctx).unwrap(), "visible"); // Changed from " visible"
}

#[test]
fn test_malformed_unclosed_tag() {
    let stage = StripHtml;
    let ctx = Context::new(ENG);
    let input = "<div class=\"test";
    // Tag never closes - everything after < is stripped
    assert_eq!(stage.apply(Cow::Borrowed(input), &ctx).unwrap(), "");
}

#[test]
fn test_nested_tags() {
    let stage = StripHtml;
    let ctx = Context::new(ENG);
    let input = "<div><p><span>nested</span></p></div>";
    assert_eq!(stage.apply(Cow::Borrowed(input), &ctx).unwrap(), "nested");
}

#[test]
fn test_quoted_attributes_comprehensive() {
    let stage = StripHtml;
    let ctx = Context::new(ENG);

    // Single quotes with >
    assert_eq!(
        stage
            .apply(Cow::Borrowed("<div title='x > y'>content</div>"), &ctx)
            .unwrap(),
        "content"
    );

    // Double quotes with >
    assert_eq!(
        stage
            .apply(Cow::Borrowed(r#"<div title="x > y">content</div>"#), &ctx)
            .unwrap(),
        "content"
    );

    // Multiple attributes
    assert_eq!(
        stage
            .apply(
                Cow::Borrowed(r#"<div class="test" title="x > y" id="main">content</div>"#),
                &ctx
            )
            .unwrap(),
        "content"
    );

    // Nested quotes
    assert_eq!(
        stage
            .apply(
                Cow::Borrowed(r#"<div title='He said "hello"'>content</div>"#),
                &ctx
            )
            .unwrap(),
        "content"
    );
}

#[test]
fn test_escaped_quotes() {
    let stage = StripHtml;
    let ctx = Context::new(ENG);

    let input = r#"<div title="He said \"hello\"">content</div>"#;
    assert_eq!(stage.apply(Cow::Borrowed(input), &ctx).unwrap(), "content");
}

#[test]
fn test_script_style_with_attributes() {
    let stage = StripHtml;
    let ctx = Context::new(ENG);

    let input = r#"<script type="text/javascript" src="file.js">alert(1);</script>text"#;
    assert_eq!(stage.apply(Cow::Borrowed(input), &ctx).unwrap(), "text");

    let input = r#"<style type="text/css">body{}</style>text"#;
    assert_eq!(stage.apply(Cow::Borrowed(input), &ctx).unwrap(), "text");
}

#[test]
fn test_self_closing_tags() {
    let stage = StripHtml;
    let ctx = Context::new(ENG);

    assert_eq!(
        stage
            .apply(Cow::Borrowed("<img src='test.jpg' />text"), &ctx)
            .unwrap(),
        "text"
    );
    assert_eq!(
        stage.apply(Cow::Borrowed("<br/>text"), &ctx).unwrap(),
        "text"
    );
    assert_eq!(
        stage.apply(Cow::Borrowed("<hr />text"), &ctx).unwrap(),
        "text"
    );
}

#[test]
fn test_case_insensitive_special_tags() {
    let stage = StripHtml;
    let ctx = Context::new(ENG);

    // Mixed case script
    assert_eq!(
        stage
            .apply(Cow::Borrowed("<ScRiPt>alert(1)</ScRiPt>text"), &ctx)
            .unwrap(),
        "text"
    );

    // Mixed case style
    assert_eq!(
        stage
            .apply(Cow::Borrowed("<STYLE>body{}</STYLE>text"), &ctx)
            .unwrap(),
        "text"
    );

    // Mixed case CDATA
    assert_eq!(
        stage
            .apply(Cow::Borrowed("<![CdAtA[content]]>text"), &ctx)
            .unwrap(),
        "contenttext"
    );
}

#[test]
fn test_closing_tag_boundary() {
    let stage = StripHtml;
    let ctx = Context::new(ENG);

    // Should NOT close at </scriptx>
    let input = "<script>code</scriptx>more";
    assert_eq!(stage.apply(Cow::Borrowed(input), &ctx).unwrap(), "");

    // Should accept whitespace before >
    let input = "<script>code</script >text";
    assert_eq!(stage.apply(Cow::Borrowed(input), &ctx).unwrap(), "text");
}

#[test]
fn test_empty_and_valueless_attributes() {
    let stage = StripHtml;
    let ctx = Context::new(ENG);

    let input = r#"<input disabled checked value="">text"#;
    assert_eq!(stage.apply(Cow::Borrowed(input), &ctx).unwrap(), "text");

    let input = r#"<button disabled>text</button>"#;
    assert_eq!(stage.apply(Cow::Borrowed(input), &ctx).unwrap(), "text");
}

#[test]
fn test_consecutive_tags() {
    let stage = StripHtml;
    let ctx = Context::new(ENG);

    assert_eq!(
        stage
            .apply(Cow::Borrowed("</div><div><span></span></div>"), &ctx)
            .unwrap(),
        ""
    );
    assert_eq!(
        stage
            .apply(Cow::Borrowed("<b><i><u>text</u></i></b>"), &ctx)
            .unwrap(),
        "text"
    );
}

#[test]
fn test_whitespace_preservation() {
    let stage = StripHtml;
    let ctx = Context::new(ENG);

    // Multiple spaces - should be preserved
    assert_eq!(
        stage
            .apply(Cow::Borrowed("<p>Hello   world</p>"), &ctx)
            .unwrap(),
        "Hello   world"
    );

    // Newlines between tags - with block spacing, becomes "Line1 Line2"
    // But if there's already a newline, don't add extra space
    let input = "<p>Line1</p>\n<p>Line2</p>";
    let result = stage.apply(Cow::Borrowed(input), &ctx).unwrap();

    // The block-level </p> adds space, but \n is whitespace so check final result
    // After the full pipeline with NORMALIZE_WHITESPACE_FULL, this becomes "Line1 Line2" anyway
    assert!(result.contains("Line1"));
    assert!(result.contains("Line2"));
    assert!(!result.contains("Line1Line2")); // Main goal: no concatenation
}

#[test]
fn test_attributes_without_quotes() {
    let stage = StripHtml;
    let ctx = Context::new(ENG);

    let input = "<div class=test id=main>content</div>";
    assert_eq!(stage.apply(Cow::Borrowed(input), &ctx).unwrap(), "content");
}

#[test]
fn test_mixed_entities_and_tags() {
    let stage = StripHtml;
    let ctx = Context::new(ENG);

    let input = "&lt;p&gt;<b>bold</b>&lt;/p&gt;";
    // Entity-encoded tags are decoded, then ALL tags (decoded + original) are stripped
    assert_eq!(stage.apply(Cow::Borrowed(input), &ctx).unwrap(), "bold");
}

// ============================================================================
// NEW TESTS FOR MISSING PATTERNS
// ============================================================================

#[test]
fn test_noscript_content_stripped() {
    let stage = StripHtml;
    let ctx = Context::new(ENG);

    let input = "<p>Main content</p><noscript>Fallback text</noscript>";
    let result = stage.apply(Cow::Borrowed(input), &ctx).unwrap();

    assert_eq!(result, "Main content");
    assert!(!result.contains("Fallback"));
}

#[test]
fn test_noscript_with_nested_tags() {
    let stage = StripHtml;
    let ctx = Context::new(ENG);

    let input = r#"<noscript><p>Enable <strong>JavaScript</strong></p></noscript>Content"#;
    let result = stage.apply(Cow::Borrowed(input), &ctx).unwrap();

    assert_eq!(result, "Content");
    assert!(!result.contains("Enable"));
    assert!(!result.contains("JavaScript"));
}

#[test]
fn test_noscript_case_insensitive() {
    let stage = StripHtml;
    let ctx = Context::new(ENG);

    let input = "<NOSCRIPT>uppercase</NOSCRIPT><NoScript>mixed</NoScript>text";
    let result = stage.apply(Cow::Borrowed(input), &ctx).unwrap();

    assert_eq!(result, "text");
}

#[test]
fn test_svg_content_stripped() {
    let stage = StripHtml;
    let ctx = Context::new(ENG);

    let input = r#"<svg width="100"><circle cx="50"/></svg>text"#;
    let result = stage.apply(Cow::Borrowed(input), &ctx).unwrap();

    assert_eq!(result, "text");
}

#[test]
fn test_svg_with_text_elements_stripped() {
    let stage = StripHtml;
    let ctx = Context::new(ENG);

    let input = r#"<svg><text x="10">Icon Text</text></svg>After"#;
    let result = stage.apply(Cow::Borrowed(input), &ctx).unwrap();

    // SVG content including text elements is now stripped
    assert_eq!(result, "After");
    assert!(!result.contains("Icon Text"));
}

#[test]
fn test_svg_case_insensitive() {
    let stage = StripHtml;
    let ctx = Context::new(ENG);

    let input = "<SVG><CIRCLE/></SVG>text";
    let result = stage.apply(Cow::Borrowed(input), &ctx).unwrap();

    assert_eq!(result, "text");
}

#[test]
fn test_math_content_stripped() {
    let stage = StripHtml;
    let ctx = Context::new(ENG);
    let input = r#"<math><mi>x</mi><mo>=</mo><mn>2</mn></math>text"#;
    let result = stage.apply(Cow::Borrowed(input), &ctx).unwrap();

    // Math content is now stripped entirely - this single assertion is sufficient
    assert_eq!(result, "text");
}

#[test]
fn test_math_case_insensitive() {
    let stage = StripHtml;
    let ctx = Context::new(ENG);

    let input = "<MATH><mi>x</mi></MATH>text";
    let result = stage.apply(Cow::Borrowed(input), &ctx).unwrap();

    assert_eq!(result, "text");
}

#[test]
fn test_doctype_html5() {
    let stage = StripHtml;
    let ctx = Context::new(ENG);

    let input = "<!DOCTYPE html><html><body>Content</body></html>";
    let result = stage.apply(Cow::Borrowed(input), &ctx).unwrap();

    assert_eq!(result, "Content");
    assert!(!result.contains("DOCTYPE"));
}

#[test]
fn test_doctype_case_insensitive() {
    let stage = StripHtml;
    let ctx = Context::new(ENG);

    let input = "<!doctype html><p>Text</p>";
    let result = stage.apply(Cow::Borrowed(input), &ctx).unwrap();

    assert_eq!(result, "Text");
}

#[test]
fn test_doctype_html4() {
    let stage = StripHtml;
    let ctx = Context::new(ENG);

    let input = r#"<!DOCTYPE HTML PUBLIC "-//W3C//DTD HTML 4.01//EN"><p>Content</p>"#;
    let result = stage.apply(Cow::Borrowed(input), &ctx).unwrap();

    assert_eq!(result, "Content");
}

#[test]
fn test_xml_processing_instruction() {
    let stage = StripHtml;
    let ctx = Context::new(ENG);

    let input = r#"<?xml version="1.0" encoding="UTF-8"?><p>Text</p>"#;
    let result = stage.apply(Cow::Borrowed(input), &ctx).unwrap();

    assert_eq!(result, "Text");
    assert!(!result.contains("xml"));
    assert!(!result.contains("UTF-8"));
}

#[test]
fn test_php_processing_instruction() {
    let stage = StripHtml;
    let ctx = Context::new(ENG);

    let input = "<?php echo 'test'; ?>Content";
    let result = stage.apply(Cow::Borrowed(input), &ctx).unwrap();

    assert_eq!(result, "Content");
    assert!(!result.contains("php"));
    assert!(!result.contains("echo"));
}

#[test]
fn test_combined_content_strip_tags() {
    let stage = StripHtml;
    let ctx = Context::new(ENG);

    let input = r#"
<script>js code</script>
<style>css code</style>
<noscript>noscript text</noscript>
<svg><text>svg text</text></svg>
<math><mi>math</mi></math>
Visible content
"#;
    let result = stage.apply(Cow::Borrowed(input), &ctx).unwrap();

    assert!(result.contains("Visible content"));
    assert!(!result.contains("js code"));
    assert!(!result.contains("css code"));
    assert!(!result.contains("noscript text"));
    assert!(!result.contains("svg text"));
    assert!(!result.contains("math"));
}

#[test]
fn test_real_world_complete_page() {
    let stage = StripHtml;
    let ctx = Context::new(ENG);

    let input = r#"<!DOCTYPE html>
<html>
<head>
<title>Test Page</title>
<script>analytics();</script>
<style>body{color:red;}</style>
</head>
<body>
<svg class="icon"><path d="M0 0"/></svg>
<h1>Article Title</h1>
<p>Important content with <math><mi>x</mi></math> formula</p>
<noscript>Enable JS</noscript>
</body>
</html>"#;

    let result = stage.apply(Cow::Borrowed(input), &ctx).unwrap();

    assert!(result.contains("Article Title"));
    assert!(result.contains("Important content"));
    assert!(result.contains("formula"));

    // All stripped content
    assert!(!result.contains("analytics"));
    assert!(!result.contains("color:red"));
    assert!(!result.contains("Enable JS"));
    assert!(!result.contains("DOCTYPE"));
}

#[test]
fn test_block_level_spacing() {
    let stage = StripHtml;
    let ctx = Context::new(ENG);

    // Block-level tags should add spaces between words
    let input = "<h1>Title</h1><p>Content</p>";
    let result = stage.apply(Cow::Borrowed(input), &ctx).unwrap();

    // Should have spacing between Title and Content (not concatenated)
    assert!(
        !result.contains("TitleContent"),
        "Words should not concatenate"
    );
    assert!(result.contains("Title"), "Should contain Title");
    assert!(result.contains("Content"), "Should contain Content");

    // After trimming, should have clean spacing
    assert_eq!(result, "Title Content");
}

#[test]
fn test_real_world_spacing() {
    let stage = StripHtml;
    let ctx = Context::new(ENG);

    let input = r#"<!DOCTYPE html><html><head><title>Example</title></head>
<body><nav>Menu</nav><main><h1>Title</h1><p>Content here.</p></main></body></html>"#;

    let result = stage.apply(Cow::Borrowed(input), &ctx).unwrap();

    // Should have spaces between words from different block elements
    assert!(result.contains("Example"));
    assert!(result.contains("Menu"));
    assert!(result.contains("Title"));
    assert!(result.contains("Content"));

    // Should NOT have concatenated words
    assert!(!result.contains("ExampleMenu"));
    assert!(!result.contains("MenuTitle"));
}

#[test]
fn test_inline_vs_block_tags() {
    let stage = StripHtml;
    let ctx = Context::new(ENG);

    // Inline tags shouldn't add extra spaces
    let input = "Text with <b>bold</b> and <i>italic</i> words.";
    let result = stage.apply(Cow::Borrowed(input), &ctx).unwrap();
    assert_eq!(result, "Text with bold and italic words.");

    // Block tags should add spaces
    let input = "<div>First</div><div>Second</div>";
    let result = stage.apply(Cow::Borrowed(input), &ctx).unwrap();
    assert!(result.contains("First"));
    assert!(result.contains("Second"));
    assert!(!result.contains("FirstSecond"));
}
