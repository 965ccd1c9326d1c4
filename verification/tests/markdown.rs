use skills_tui::markdown::{drawable, render, wrap_tables, TextLine, TextSpan, TextStyle};
use unicode_width::UnicodeWidthStr;

const BOLD: u16 = 1;

fn width(line: &TextLine) -> usize {
    line.spans.iter().map(|span| span.content.width()).sum()
}

fn text(line: &TextLine) -> String {
    line.spans.iter().map(|span| span.content.as_str()).collect()
}

fn all_text(lines: &[TextLine]) -> String {
    lines.iter().map(text).collect()
}

/// What a line shows, run by run, with the modifiers that were added.
fn shape(line: &TextLine) -> Vec<(String, u16)> {
    line.spans
        .iter()
        .map(|span| (span.content.clone(), span.style.added))
        .collect()
}

fn rendered_shape(line: &ratatui::text::Line) -> Vec<(String, u16)> {
    line.spans
        .iter()
        .map(|span| (span.content.to_string(), span.style.add_modifier.bits()))
        .collect()
}

fn unchanged(markdown: &str, columns: usize) {
    let lines = render(markdown, columns);
    let plain = tui_markdown::from_str(markdown).lines;
    assert_eq!(lines.len(), plain.len());
    for (ours, theirs) in lines.iter().zip(&plain) {
        assert_eq!(shape(ours), rendered_shape(theirs));
        assert_eq!(ours.style.added, theirs.style.add_modifier.bits());
        assert_eq!(ours.style.fg, theirs.style.fg.map(|color| color.to_string()));
        for (a, b) in ours.spans.iter().zip(&theirs.spans) {
            assert_eq!(a.style.fg, b.style.fg.map(|color| color.to_string()));
            assert_eq!(a.style.bg, b.style.bg.map(|color| color.to_string()));
            assert_eq!(a.style.removed, b.style.sub_modifier.bits());
        }
    }
}

#[test]
fn wraps_cjk_and_long_links_inside_columns() {
    let md = "| 名称 | 说明 |\n|---|---|\n| **审批流程** | [接口说明](references/approval/really-long-documentation-path.md) |";
    let lines = render(md, 36);
    assert!(lines.iter().all(|l| width(l) <= 36));
    assert!(lines.iter().all(|l| width(l) == width(&lines[0])));
    let text = all_text(&lines);
    assert!(text.contains("审批流程"));
    let plain: String = text
        .chars()
        .filter(|c| !c.is_whitespace() && !"│─┌┬┐├┼┤└┴┘".contains(*c))
        .collect();
    assert!(plain.contains("references/approval/really-long-documentation-path.md"));
    assert!(lines
        .iter()
        .flat_map(|l| &l.spans)
        .any(|s| s.content.contains("审批") && s.style.added & BOLD != 0));
}

#[test]
fn narrow_tables_keep_all_cells_and_wide_characters() {
    let md = "| 中文标题 | Second | Third |\n|---|---|---|\n| 甲乙 | https://example.com/long | final-cell |";
    let lines = render(md, 8);
    assert!(lines.iter().all(|l| width(l) <= 8));
    let text = all_text(&lines);
    assert!(text.contains("甲乙"));
    assert!(text.contains("https://example.com/long"));
    assert!(text.contains("final-cell"));
}

#[test]
fn fitting_tables_and_grapheme_clusters_keep_their_content() {
    let md = "| Symbols | Value |\n|---|---|\n| 👩‍💻 é | a very long value that forces wrapping |";
    unchanged(md, 120);
    let lines = render(md, 24);
    assert!(lines.iter().all(|l| width(l) <= 24));
    let text = all_text(&lines);
    assert!(text.contains("👩‍💻"));
    assert!(text.contains("é"));
}

#[test]
fn ordinary_markdown_and_box_drawing_code_are_unchanged() {
    let md = "# Heading\n\n**bold** and `code`\n\n```\n┌────┐\n│ hi │\n├────┤\n│ xx │\n└────┘\n```";
    unchanged(md, 8);
}

fn line(content: &str) -> TextLine {
    TextLine {
        spans: vec![TextSpan {
            content: content.to_string(),
            style: TextStyle::plain(),
        }],
        style: TextStyle::plain(),
        alignment: None,
    }
}

#[test]
fn lines_without_a_table_pass_through() {
    let lines = vec![line("a long line that is wider than the columns"), line("")];
    let out = wrap_tables(&lines, 10);
    assert_eq!(
        out.iter().map(text).collect::<Vec<_>>(),
        ["a long line that is wider than the columns", ""]
    );
}

#[test]
fn drawable_text_leaves_out_what_takes_no_column() {
    assert_eq!(drawable("ab"), ["a", "b"]);
    assert_eq!(drawable("👩‍💻x"), ["👩‍💻", "x"]);
}
