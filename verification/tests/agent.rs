use minis::agent::agent_loop::{AgentLoop, AgentLoopConfig};
use minis::agent::compaction::{
    compact_messages, compaction_is_possible, needs_compaction, total_chars, total_chars_checked, CompactionConfig,
};
use minis::agent::mock_provider::{text_of as stream_text_of, usage_of, MockProvider, StreamChunk};
use minis::agent::message::{ContentPart, LlmMessage, Role};
use minis::agent::session::Session;
use minis::agent::soul::Soul;
use minis::agent::tools::{
    batch_result, find_tool, minis_urls_for, BrowserUseTool, EditOutcome, FileEditTool, FileReadTool,
    FileWriteTool, MemoryGetTool, MemoryWriteTool, ReadImageTool, ShellExecuteTool, ToolError,
};
use minis::params::{ParamValue, Params};

fn params(entries: &[(&str, ParamValue)]) -> Params {
    Params { entries: entries.iter().map(|(k, v)| (k.to_string(), v.clone())).collect() }
}

fn s(v: &str) -> ParamValue {
    ParamValue::Str(v.to_string())
}

fn text_of(m: &LlmMessage) -> String {
    match &m.content[0] {
        ContentPart::Text { text } => text.clone(),
        ContentPart::Other => String::new(),
    }
}

#[test]
fn test_total_chars() {
    let msgs = vec![LlmMessage::user("Hello world"), LlmMessage::assistant("Hi there!")];
    assert_eq!(total_chars(&msgs), 20);
}

#[test]
fn test_compact_short() {
    let msgs = vec![LlmMessage::user("Hi")];
    let config = CompactionConfig { char_threshold: 100, keep_recent: 6 };
    let result = compact_messages(&msgs, &config);
    assert_eq!(result.len(), 1);
}

#[test]
fn test_compact_long() {
    let mut msgs = Vec::new();
    for i in 0..20 {
        msgs.push(LlmMessage::user(&format!("Message number {} with some text content here", i)));
        msgs.push(LlmMessage::assistant(&format!("Response to message {}", i)));
    }
    let config = CompactionConfig { char_threshold: 100, keep_recent: 4 };
    let result = compact_messages(&msgs, &config);
    assert!(result.len() < msgs.len());
    assert!(result.len() > 0);
}

#[test]
fn test_compact_summary_text() {
    let msgs = vec![
        LlmMessage::user("first"),
        LlmMessage { role: Role::Tool, content: vec![ContentPart::Other] },
        LlmMessage::assistant("second"),
        LlmMessage::user("kept"),
    ];
    let config = CompactionConfig { char_threshold: 1, keep_recent: 1 };
    assert!(needs_compaction(&msgs, &config));
    assert!(compaction_is_possible(&msgs, &config));
    let result = compact_messages(&msgs, &config);
    assert_eq!(result.len(), 2);
    assert_eq!(result[0].role, Role::System);
    assert_eq!(
        text_of(&result[0]),
        "Previous conversation summary (compacted):\n[User] first\n\n[Assistant] second\n\n[End of summary. Recent messages follow.]"
    );
    assert_eq!(text_of(&result[1]), "kept");
}

#[test]
fn test_compact_truncates_long_summary() {
    let long = format!("x{}", "é".repeat(5000));
    let msgs = vec![LlmMessage::user(&long), LlmMessage::user("tail")];
    let config = CompactionConfig { char_threshold: 1, keep_recent: 1 };
    assert!(compaction_is_possible(&msgs, &config));
    let result = compact_messages(&msgs, &config);
    let text = text_of(&result[0]);
    assert!(text.contains("...(truncated, 10008 total chars)"));
    let odd = vec![LlmMessage::user(&"é".repeat(5000)), LlmMessage::user("tail")];
    assert!(!compaction_is_possible(&odd, &config));
}

#[test]
fn test_compaction_defaults() {
    let c = CompactionConfig::default();
    assert_eq!(c.char_threshold, 640_000);
    assert_eq!(c.keep_recent, 6);
    let l = AgentLoopConfig::default();
    assert_eq!(l.compaction_threshold * 4, c.char_threshold);
    assert_eq!(l.max_iterations, 50);
    assert!(l.concurrent_tools);
    let agent = AgentLoop::new(l);
    assert_eq!(agent.config().max_iterations, 50);
}

#[test]
fn test_session_new() {
    let now = minis::time::Timestamp { secs: 1_700_000_000, nanos: 0 };
    let a = Session::new("provider-a", "model-x", [0u8; 16], now);
    let b = Session::new("provider-a", "model-x", [0xffu8; 16], now);
    assert_eq!(a.title, "New Chat");
    assert_eq!(a.provider_id, "provider-a");
    assert_eq!(a.model_id, "model-x");
    assert_eq!(a.created_at, now);
    assert_eq!(a.updated_at, now);
    assert_eq!(a.id, "00000000-0000-4000-8000-000000000000");
    assert_eq!(b.id, "ffffffff-ffff-4fff-bfff-ffffffffffff");
    assert_ne!(a.id, b.id);
}

#[test]
fn test_soul_default() {
    let s = Soul::default();
    assert!(s.name.is_empty() && s.style.is_empty() && s.lang.is_empty() && s.body.is_empty());
}

#[test]
fn test_file_edit_single_replacement() {
    let tool = FileEditTool;
    let req = tool
        .request(&params(&[("path", s("/tmp/a.txt")), ("old_string", s("cat")), ("new_string", s("dog"))]))
        .unwrap();
    assert!(!req.replace_all);
    match tool.apply(&req, "a cat sat") {
        EditOutcome::Write { content, result } => {
            assert_eq!(content, "a dog sat");
            assert!(result.success);
            assert_eq!(result.output, "Edited /tmp/a.txt");
        }
        EditOutcome::Refused(r) => panic!("refused: {}", r.output),
    }
}

#[test]
fn test_file_edit_refusals() {
    let tool = FileEditTool;
    let req = tool
        .request(&params(&[("path", s("/p")), ("old_string", s("a")), ("new_string", s("b"))]))
        .unwrap();
    match tool.apply(&req, "xyz") {
        EditOutcome::Refused(r) => assert_eq!(r.output, "old_string not found in /p"),
        _ => panic!("expected a refusal"),
    }
    match tool.apply(&req, "aXa") {
        EditOutcome::Refused(r) => {
            assert!(!r.success);
            assert_eq!(r.output, "old_string found 2 times in /p — use replace_all=true");
        }
        _ => panic!("expected a refusal"),
    }
    let all = tool
        .request(&params(&[
            ("path", s("/p")),
            ("old_string", s("a")),
            ("new_string", s("b")),
            ("replace_all", ParamValue::Bool(true)),
        ]))
        .unwrap();
    match tool.apply(&all, "aXa") {
        EditOutcome::Write { content, .. } => assert_eq!(content, "bXb"),
        _ => panic!("expected a write"),
    }
    let missing = tool.request(&params(&[("path", s("/p")), ("old_string", s("a"))]));
    assert_eq!(missing.unwrap_err().message, "Missing 'new_string'");
    assert_eq!(tool.request(&params(&[])).unwrap_err().message, "Missing 'path'");
}

fn read_req(path: &str) -> minis::agent::tools::ReadRequest {
    FileReadTool.request(&params(&[("path", s(path))])).unwrap()
}

#[test]
fn test_file_read_results() {
    let tool = FileReadTool;
    assert_eq!(tool.request(&params(&[])).unwrap_err().message, "Missing 'path' parameter");
    assert_eq!(tool.not_found("/x").output, "File not found: /x");
    assert!(tool.reads(1_000_000));
    assert!(!tool.reads(1_000_001));
    let big = tool.result(&read_req("/tmp/big"), 2_000_000, None);
    assert_eq!(big.output, "[File too large: 2000000 bytes]");
    let bin = tool.result(&read_req("/tmp/bin"), 10, None);
    assert_eq!(bin.output, "[Binary file or invalid UTF-8]");
    let ok = tool.result(&read_req("/var/minis/workspace/a.txt"), 5, Some("hello".into()));
    assert_eq!(ok.output, "hello");
    assert_eq!(ok.minis_urls, vec!["minis://workspace/a.txt".to_string()]);
    assert!(tool.result(&read_req("/tmp/a"), 1, Some("x".into())).minis_urls.is_empty());
}

#[test]
fn test_file_read_window() {
    let tool = FileReadTool;
    let text = "one\ntwo\r\nthree\nfour\n";
    let req = tool
        .request(&params(&[("path", s("/f")), ("offset", ParamValue::Int(2)), ("lines", ParamValue::Int(2))]))
        .unwrap();
    assert_eq!((req.offset, req.lines), (Some(2), Some(2)));
    assert_eq!(tool.result(&req, 24, Some(text.into())).output, "two\nthree");
    let from3 = tool.request(&params(&[("path", s("/f")), ("offset", ParamValue::Int(3))])).unwrap();
    assert_eq!(tool.result(&from3, 24, Some(text.into())).output, "three\nfour");
    let first = tool.request(&params(&[("path", s("/f")), ("lines", ParamValue::Int(1))])).unwrap();
    assert_eq!(tool.result(&first, 24, Some(text.into())).output, "one");
    let zero = tool.request(&params(&[("path", s("/f")), ("offset", ParamValue::Int(0)), ("lines", ParamValue::Int(9))])).unwrap();
    assert_eq!(tool.result(&zero, 24, Some(text.into())).output, "one\ntwo\nthree\nfour");
    let past = tool.request(&params(&[("path", s("/f")), ("offset", ParamValue::Int(9))])).unwrap();
    assert_eq!(tool.result(&past, 24, Some(text.into())).output, "");
    let odd = tool.request(&params(&[("path", s("/f")), ("offset", s("2"))])).unwrap();
    assert_eq!(odd.offset, None);
    assert_eq!(tool.result(&odd, 24, Some(text.into())).output, text);
}

#[test]
fn test_file_write_result() {
    let tool = FileWriteTool;
    let req = tool.request(&params(&[("path", s("/var/minis/shared/n.txt")), ("content", s("héllo"))])).unwrap();
    assert!(!req.append);
    assert!(req.create_dirs);
    let r = tool.result(&req);
    assert_eq!(r.output, "Wrote 6 bytes to /var/minis/shared/n.txt");
    assert_eq!(r.minis_urls, vec!["minis://shared/n.txt".to_string()]);
    assert_eq!(tool.request(&params(&[("path", s("/p"))])).unwrap_err().message, "Missing 'content' parameter");
}

#[test]
fn test_read_image_paths() {
    let tool = ReadImageTool;
    let p = tool.image_path(&params(&[("path", s("minis://attachments/cat.png"))])).unwrap();
    assert_eq!(p, "/var/minis/attachments/cat.png");
    let r = tool.result(&p, 1234);
    assert_eq!(r.output, "Image loaded: /var/minis/attachments/cat.png (1234 bytes, .png) — ready for visual analysis");
    assert_eq!(r.minis_urls, vec!["minis://attachments/cat.png".to_string()]);
    let other = tool.result("/tmp/x", 1);
    assert_eq!(other.output, "Image loaded: /tmp/x (1 bytes, .) — ready for visual analysis");
    assert_eq!(other.minis_urls, vec!["minis:///tmp/x".to_string()]);
    assert_eq!(tool.not_found("/q").output, "Image not found: /q");
}

#[test]
fn test_echo_tools() {
    let r = MemoryWriteTool.execute(&params(&[("content", s("abc"))])).unwrap();
    assert_eq!(r.output, "Memory saved (3 bytes)");
    assert_eq!(MemoryWriteTool.execute(&params(&[])).unwrap_err().message, "Missing 'content'");
    let g = MemoryGetTool.execute(&params(&[])).unwrap();
    assert_eq!(g.output, "[memory_get placeholder] keywords: ");
    let sh = ShellExecuteTool.execute(&params(&[("command", s("ls"))])).unwrap();
    assert_eq!(sh.output, "[shell_execute placeholder] command: ls");
    let b = BrowserUseTool.execute(&params(&[("action", ParamValue::Int(1))]));
    assert_eq!(b.unwrap_err().message, "Missing 'action'");
}

#[test]
fn test_dispatch_helpers() {
    let names = vec!["file_read".to_string(), "file_write".to_string()];
    assert_eq!(find_tool(&names, "file_write").unwrap(), 1);
    assert_eq!(find_tool(&names, "nope").unwrap_err().message, "Unknown tool: nope");
    let ok = MemoryWriteTool.execute(&params(&[("content", s("x"))]));
    let r = batch_result("memory_write", "call-1", ok);
    assert_eq!(r.tool_id, "call-1");
    assert!(r.success);
    let err = batch_result("x", "call-2", Err(ToolError { message: "boom".into() }));
    assert_eq!(err.output, "Error: boom");
    assert_eq!(err.tool_name, "x");
    assert!(!err.success);
}

#[test]
fn test_minis_urls_for_component_prefix() {
    assert_eq!(minis_urls_for("/var/minis/a/b"), vec!["minis://a/b".to_string()]);
    assert!(minis_urls_for("/var/minisx/a").is_empty());
}

#[test]
fn test_mock_provider_script() {
    let mut p = MockProvider::with_tool_call("echo", "{\"text\":\"hi\"}", "All done");
    assert_eq!(p.provider_type(), "mock");
    let first = p.next_response().unwrap();
    assert_eq!(first.len(), 6);
    assert!(matches!(&first[1], StreamChunk::ToolUseStart { name, .. } if name == "echo"));
    let u = usage_of(&first);
    assert_eq!((u.input_tokens, u.output_tokens), (100, 50));
    let second = p.next_response().unwrap();
    assert_eq!(stream_text_of(&second), "All done");
    assert_eq!(p.next_response().unwrap_err(), "MockProvider: no more responses (call 2)");
    let mut simple = MockProvider::simple("Hello!");
    let only = simple.next_response().unwrap();
    assert_eq!(stream_text_of(&only), "Hello!");
    assert_eq!(usage_of(&only).output_tokens, 20);
    assert_eq!(usage_of(&Vec::new()).input_tokens, 0);
}

#[test]
fn test_total_chars_checked_counts_bytes() {
    let msgs = vec![
        LlmMessage::user("héllo"),
        LlmMessage { role: Role::Tool, content: vec![ContentPart::Other, ContentPart::Text { text: "ab".into() }] },
    ];
    assert_eq!(total_chars_checked(&msgs), Some(8));
    assert_eq!(total_chars(&msgs), 8);
}

#[test]
fn test_read_image_report() {
    let r = ReadImageTool.report("/var/minis/a/b.gif", 9, Some("gif".into()), Some("a/b.gif".into()));
    assert_eq!(r.output, "Image loaded: /var/minis/a/b.gif (9 bytes, .gif) — ready for visual analysis");
    assert_eq!(r.minis_urls, vec!["minis://a/b.gif".to_string()]);
    let bare = ReadImageTool.report("/x", 0, None, None);
    assert_eq!(bare.minis_urls, vec!["minis:///x".to_string()]);
}
