use ship_shape::ui::markdown::{end_block, end_line, render_events, start_line, Construct, MarkdownEvent};
use ship_shape::ui::markdown_to_text;

#[test]
fn changelog_section_keeps_a_blank_line_before_the_next_heading() {
    let markdown =
        "### Added\n\n- First change that wraps\n  onto a second line\n- Second change\n\n### Fixed\n\n- A fix\n";
    assert_eq!(
        markdown_to_text(markdown),
        "Added\n\n- First change that wraps onto a second line\n- Second change\n\nFixed\n\n- A fix"
    );
}

#[test]
fn wrapped_list_item_joins_its_lines_with_a_space() {
    assert_eq!(markdown_to_text("- wrapped\n  text"), "- wrapped text");
}

#[test]
fn nested_list_items_are_indented() {
    assert_eq!(markdown_to_text("- outer\n  - inner\n"), "- outer\n  - inner");
}

#[test]
fn ordered_list_items_keep_their_numbers() {
    assert_eq!(markdown_to_text("2. second\n3. third\n"), "2. second\n3. third");
}

#[test]
fn loose_list_renders_like_a_tight_list() {
    assert_eq!(markdown_to_text("- one\n\n- two\n"), "- one\n- two");
}

#[test]
fn paragraph_after_a_list_starts_a_new_block() {
    assert_eq!(markdown_to_text("- one\n\nAfter.\n"), "- one\n\nAfter.");
}

#[test]
fn hard_break_starts_a_new_line() {
    assert_eq!(markdown_to_text("one  \ntwo"), "one\ntwo");
}

#[test]
fn fenced_code_block_becomes_its_own_block() {
    assert_eq!(markdown_to_text("Before.\n\n```\nrun --now\n```\n\nAfter."), "Before.\n\nrun --now\n\nAfter.");
}

#[test]
fn inline_code_keeps_its_text() {
    assert_eq!(markdown_to_text("Use `--silent` now."), "Use --silent now.");
}

#[test]
fn blank_markdown_produces_an_empty_string() {
    assert_eq!(markdown_to_text("\n\n   \n"), "");
}

#[test]
fn emphasis_and_link_targets_are_dropped() {
    assert_eq!(markdown_to_text("A **bold** [link](https://x) here"), "A bold link here");
}

#[test]
fn deeper_lists_are_indented_further_and_numbered_apart() {
    assert_eq!(
        markdown_to_text("7. a\n   - b\n     1. c\n     2. d\n8. e\n"),
        "7. a\n  - b\n    1. c\n    2. d\n8. e"
    );
}

#[test]
fn the_longest_ordinal_counts_on() {
    assert_eq!(markdown_to_text("999999999. a\n1. b\n"), "999999999. a\n1000000000. b");
}

#[test]
fn events_of_an_item_outside_any_list_get_a_bullet() {
    let events = [MarkdownEvent::Start(Construct::Item), MarkdownEvent::Text("x".to_string()), MarkdownEvent::End(Construct::List)];
    assert_eq!(render_events(&events), "- x");
}

#[test]
fn ordinals_count_up_from_the_first() {
    let item = |s: &str| vec![MarkdownEvent::Start(Construct::Item), MarkdownEvent::Text(s.to_string()), MarkdownEvent::End(Construct::Item)];
    let mut events = vec![MarkdownEvent::StartList(Some(9))];
    events.extend(item("a"));
    events.push(MarkdownEvent::Extension);
    events.extend(item("b"));
    events.push(MarkdownEvent::End(Construct::List));
    assert_eq!(render_events(&events), "9. a\n10. b");
}

#[test]
fn paragraph_ends_within_items_leave_no_trace() {
    let events = [
        MarkdownEvent::StartList(None),
        MarkdownEvent::Start(Construct::Item),
        MarkdownEvent::Code("a".to_string()),
        MarkdownEvent::SoftBreak,
        MarkdownEvent::End(Construct::Paragraph),
        MarkdownEvent::End(Construct::Item),
        MarkdownEvent::Start(Construct::Item),
        MarkdownEvent::Text("b".to_string()),
        MarkdownEvent::End(Construct::Heading),
        MarkdownEvent::End(Construct::Item),
        MarkdownEvent::End(Construct::List),
        MarkdownEvent::Text("c".to_string()),
        MarkdownEvent::HardBreak,
        MarkdownEvent::Text("d".to_string()),
        MarkdownEvent::End(Construct::CodeBlock),
    ];
    assert_eq!(render_events(&events), "- a\n- b\n\nc\nd");
}

#[test]
fn lines_and_blocks_end_in_one_way_only() {
    let after = |text: &str, f: fn(&mut String)| {
        let mut text = text.to_string();
        f(&mut text);
        text
    };
    assert_eq!(after("a \n \n", end_line), "a\n");
    assert_eq!(after("a", end_block), "a\n\n");
    assert_eq!(after("a\n\n\n", end_block), "a\n\n");
    assert_eq!(after(" \n", end_line), "");
    assert_eq!(after(" \n", end_block), "");
    assert_eq!(after("a\t", end_line), "a\t\n");
    assert_eq!(after("a", start_line), "a\n");
    assert_eq!(after("a\n\n", start_line), "a\n\n");
    assert_eq!(after("", start_line), "");
}

#[test]
fn a_code_block_in_a_tight_item_becomes_its_own_block() {
    assert_eq!(markdown_to_text("- a\n  ```\n  x\n  ```\n"), "- a\n\nx");
    assert_eq!(markdown_to_text("- a\n\n  ```\n  x\n  ```\n"), "- a\n\nx");
    assert_eq!(markdown_to_text("- a\n  ```\n  x\n  ```\n  b\n- c"), "- a\n\nx\n\nb\n- c");
}

#[test]
fn a_heading_in_a_tight_item_becomes_its_own_block() {
    assert_eq!(markdown_to_text("- a\n  # H"), "- a\n\nH");
    assert_eq!(markdown_to_text("- a\n  # H\n  b\n- c"), "- a\n\nH\n\nb\n- c");
}

#[test]
fn a_block_quote_in_a_tight_item_becomes_its_own_block() {
    assert_eq!(markdown_to_text("- a\n  > q\n"), "- a\n\nq");
    assert_eq!(markdown_to_text("- a\n  >\n  b\n"), "- a\n\nb");
}

#[test]
fn what_is_not_shown_still_sets_blocks_apart() {
    assert_eq!(markdown_to_text("- a\n  ***\n  b\n"), "- a\n\nb");
    assert_eq!(markdown_to_text("- a\n  <!-- x -->\n  b\n"), "- a\n\nb");
    assert_eq!(markdown_to_text("a\n\n***\n\nb\n"), "a\n\nb");
    assert_eq!(markdown_to_text("***\n\nb\n"), "b");
}

#[test]
fn a_block_right_behind_a_marker_stays_on_its_line() {
    assert_eq!(markdown_to_text("- # H\n- b"), "- H\n- b");
    assert_eq!(markdown_to_text("1. ```\n   x\n   ```\n2. > q"), "1. x\n2. q");
    assert_eq!(markdown_to_text("- a\n\n  b\n\n- c"), "- a\n\nb\n- c");
}

#[test]
fn inline_code_that_ends_in_a_space_does_not_hold_a_block() {
    assert_eq!(markdown_to_text("- a `` ` ``\n  # H"), "- a `\n\nH");
    let events = [
        MarkdownEvent::Start(Construct::Item),
        MarkdownEvent::Code("a ".to_string()),
        MarkdownEvent::Start(Construct::Heading),
        MarkdownEvent::Text("b".to_string()),
    ];
    assert_eq!(render_events(&events), "- a\n\nb");
}

#[test]
fn what_follows_an_inner_list_is_a_block() {
    assert_eq!(markdown_to_text("- a\n  - b\n\n  c"), "- a\n\n  - b\n\nc");
    assert_eq!(markdown_to_text("- a\n  - # H\n  c\n- d"), "- a\n  - H\n\nc\n- d");
    assert_eq!(markdown_to_text("- a\n  - b\n- c"), "- a\n  - b\n- c");
}

#[test]
fn every_block_construct_stands_apart() {
    let after_text = |event: MarkdownEvent| {
        render_events(&[MarkdownEvent::Text("a".to_string()), event, MarkdownEvent::Text("b".to_string())])
    };
    for construct in [
        Construct::Paragraph,
        Construct::Heading,
        Construct::CodeBlock,
        Construct::BlockQuote,
        Construct::HtmlBlock,
    ] {
        assert_eq!(after_text(MarkdownEvent::Start(construct)), "a\n\nb");
    }
    assert_eq!(after_text(MarkdownEvent::Rule), "a\n\nb");
    for construct in [Construct::Emphasis, Construct::Strong, Construct::Link, Construct::Image, Construct::Optional] {
        assert_eq!(after_text(MarkdownEvent::Start(construct)), "ab");
        assert_eq!(after_text(MarkdownEvent::End(construct)), "ab");
    }
    for construct in [Construct::BlockQuote, Construct::HtmlBlock] {
        assert_eq!(after_text(MarkdownEvent::End(construct)), "ab");
    }
    assert_eq!(after_text(MarkdownEvent::Html), "ab");
    assert_eq!(after_text(MarkdownEvent::InlineHtml), "ab");
    assert_eq!(after_text(MarkdownEvent::Extension), "ab");
}

#[test]
fn images_links_and_html_leave_only_their_text() {
    assert_eq!(markdown_to_text("![alt *x*](i.png) **b** *e* <i>h</i> [l](u)"), "alt x b e h l");
    assert_eq!(markdown_to_text("a\n\n<div>\nhidden\n</div>\n\nb"), "a\n\nb");
    assert_eq!(markdown_to_text("> q\n\nb"), "q\n\nb");
}

#[test]
fn a_list_without_a_first_number_is_bulleted() {
    let item = || vec![MarkdownEvent::Start(Construct::Item), MarkdownEvent::Text("x".to_string())];
    let mut bare = vec![MarkdownEvent::Start(Construct::List)];
    bare.extend(item());
    let mut bulleted = vec![MarkdownEvent::StartList(None)];
    bulleted.extend(item());
    assert_eq!(render_events(&bare), "- x");
    assert_eq!(render_events(&bulleted), "- x");
}
