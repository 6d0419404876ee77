//! Behavior of the console values and human-readable quantities.

use pgt_core::{
    BufferConsole, Bytes, Console, ConsoleExt, LogLevel, MarkupBuf, MarkupElement, MarkupElements,
    MarkupNode,
};

#[test]
fn display_bytes() {
    assert_eq!(Bytes(0).display_string(), "0 B");
    assert_eq!(Bytes(27).display_string(), "27 B");
    assert_eq!(Bytes(999).display_string(), "999 B");
    assert_eq!(Bytes(1_000).display_string(), "1000 B");
    assert_eq!(Bytes(1_023).display_string(), "1023 B");
    assert_eq!(Bytes(1_024).display_string(), "1.0 KiB");
    assert_eq!(Bytes(1_728).display_string(), "1.7 KiB");
    assert_eq!(Bytes(110_592).display_string(), "108.0 KiB");
    assert_eq!(Bytes(999_999).display_string(), "976.6 KiB");
    assert_eq!(Bytes(7_077_888).display_string(), "6.8 MiB");
    assert_eq!(Bytes(452_984_832).display_string(), "432.0 MiB");
    assert_eq!(Bytes(28_991_029_248).display_string(), "27.0 GiB");
    assert_eq!(Bytes(1_855_425_871_872).display_string(), "1.7 TiB");

    assert_eq!(Bytes(usize::MAX).display_string(), "16384.0 TiB");
}

fn markup(text: &str) -> MarkupBuf {
    MarkupBuf(vec![MarkupNode { elements: vec![MarkupElement::Emphasis], content: text.to_string() }])
}

#[test]
fn buffer_console_stores_messages() {
    let mut console = BufferConsole::default();
    console.println(LogLevel::Log, markup("one"));
    console.print(LogLevel::Error, markup("two"));
    assert_eq!(console.out_buffer.len(), 2);
    assert_eq!(console.out_buffer[0].level, LogLevel::Log);
    assert_eq!(console.out_buffer[0].content.0[0].content, "one");
    assert_eq!(console.out_buffer[1].level, LogLevel::Error);
}

#[test]
fn console_ext_levels() {
    let mut console = BufferConsole::default();
    console.error(markup("boom"));
    console.log(markup("fine"));
    console.append(markup("more"));
    assert_eq!(console.out_buffer.len(), 3);
    assert_eq!(console.out_buffer[0].level, LogLevel::Error);
    assert_eq!(console.out_buffer[1].level, LogLevel::Log);
    assert_eq!(console.out_buffer[2].level, LogLevel::Log);
}

#[test]
fn buffer_console_reads_first_input() {
    let mut console = BufferConsole::default();
    assert_eq!(console.read(), None);
    console.in_buffer.push("first".to_string());
    console.in_buffer.push("second".to_string());
    assert_eq!(console.read(), Some("first".to_string()));
}

#[test]
fn with_json_switches_the_flag() {
    let console = BufferConsole::default().with_json();
    assert!(console.print_json);
}

#[test]
fn markup_elements_for_each_goes_root_first() {
    let root = MarkupElements::Root;
    let level1 = MarkupElements::Node(Box::new(root), vec![MarkupElement::Emphasis]);
    let level2 = MarkupElements::Node(Box::new(level1), vec![MarkupElement::Dim]);

    let groups = level2.for_each();
    assert_eq!(groups.len(), 2);
    assert_eq!(groups[0], &vec![MarkupElement::Emphasis]);
    assert_eq!(groups[1], &vec![MarkupElement::Dim]);
}

#[test]
fn markup_elements_for_each_rev_goes_own_group_first() {
    let root = MarkupElements::Root;
    let level1 = MarkupElements::Node(Box::new(root), vec![MarkupElement::Emphasis]);
    let level2 = MarkupElements::Node(Box::new(level1), vec![MarkupElement::Dim]);

    let groups = level2.for_each_rev();
    assert_eq!(groups.len(), 2);
    assert_eq!(groups[0], &vec![MarkupElement::Dim]);
    assert_eq!(groups[1], &vec![MarkupElement::Emphasis]);
}
