use line_bridge::bridge::{Bridge, Directive, Event, Phase, ProcessError, ReadFault, Reaction};
use line_bridge::framing::LineFramer;
use line_bridge::invocation::{prompt_invocation, BridgeConfig, ErrorStreamPolicy, InvocationSpec};

fn spec() -> InvocationSpec {
    InvocationSpec::new("/usr/bin/producer".to_string(), vec!["--fast".to_string()])
}

fn started(check_exit_status: bool) -> Bridge {
    let mut config = BridgeConfig::new();
    config.check_exit_status = check_exit_status;
    let mut b = Bridge::new(spec(), config);
    assert_eq!(b.step(Event::Start).directive, Directive::Spawn);
    let r = b.step(Event::Spawned { stdout_captured: true });
    assert_eq!(r.directive, Directive::ReadNext);
    assert!(r.lines.is_empty());
    b
}

fn chunk(b: &mut Bridge, bytes: &[u8]) -> Reaction {
    b.step(Event::Chunk(bytes.to_vec()))
}

fn strings(v: &[&str]) -> Vec<String> {
    v.iter().map(|s| s.to_string()).collect()
}

/// Runs a whole invocation on the given chunks and returns every line forwarded.
fn forwarded(chunks: &[&[u8]]) -> (Vec<String>, Bridge) {
    let mut b = started(false);
    let mut out = Vec::new();
    for c in chunks {
        let r = chunk(&mut b, c);
        assert_eq!(r.directive, Directive::ReadNext);
        out.extend(r.lines);
    }
    let r = b.step(Event::EndOfStream);
    assert_eq!(r.directive, Directive::AwaitExit);
    out.extend(r.lines);
    let r = b.step(Event::Exited(Some(0)));
    assert_eq!(r.directive, Directive::Finish { kill_child: false });
    assert!(r.lines.is_empty());
    (out, b)
}

#[test]
fn three_tokens_scenario() {
    let (lines, b) = forwarded(&[b"token1\ntoken2\ntoken3\n"]);
    assert_eq!(lines, strings(&["token1", "token2", "token3"]));
    assert!(matches!(b.phase(), Phase::Completed));
    assert!(matches!(b.into_outcome(), Some(Ok(()))));
}

#[test]
fn lines_forwarded_in_order_across_chunk_boundaries() {
    let (lines, _) = forwarded(&[b"al", b"pha\nbe", b"ta\n", b"", b"gamma\ndelta\n"]);
    assert_eq!(lines, strings(&["alpha", "beta", "gamma", "delta"]));
}

#[test]
fn each_byte_in_its_own_chunk() {
    let text = b"one\ntwo\nthree\n";
    let chunks: Vec<&[u8]> = text.chunks(1).collect();
    let (lines, _) = forwarded(&chunks);
    assert_eq!(lines, strings(&["one", "two", "three"]));
}

#[test]
fn lines_come_out_as_soon_as_complete() {
    let mut b = started(false);
    assert_eq!(chunk(&mut b, b"first\nsec").lines, strings(&["first"]));
    assert_eq!(chunk(&mut b, b"ond").lines, Vec::<String>::new());
    assert_eq!(chunk(&mut b, b"\n").lines, strings(&["second"]));
}

#[test]
fn empty_output_forwards_nothing() {
    let (lines, b) = forwarded(&[]);
    assert!(lines.is_empty());
    assert!(matches!(b.into_outcome(), Some(Ok(()))));
}

#[test]
fn empty_lines_are_lines() {
    let (lines, _) = forwarded(&[b"\n\nx\n"]);
    assert_eq!(lines, strings(&["", "", "x"]));
}

#[test]
fn missing_executable_fails_to_spawn() {
    let mut b = Bridge::new(spec(), BridgeConfig::new());
    assert_eq!(b.step(Event::Start).directive, Directive::Spawn);
    let r = b.step(Event::SpawnFailed("No such file or directory (os error 2)".to_string()));
    assert!(r.lines.is_empty());
    assert_eq!(r.directive, Directive::Finish { kill_child: false });
    let r = b.step(Event::Chunk(b"late\n".to_vec()));
    assert!(r.lines.is_empty());
    assert_eq!(r.directive, Directive::Nothing);
    match b.into_outcome() {
        Some(Err(ProcessError::SpawnFailed(m))) => {
            assert_eq!(m, "No such file or directory (os error 2)")
        }
        other => panic!("unexpected outcome {:?}", other),
    }
}

#[test]
fn unterminated_last_line_forwarded_once() {
    let mut b = started(false);
    let r = chunk(&mut b, b"a\nb\nlast");
    assert_eq!(r.lines, strings(&["a", "b"]));
    let r = b.step(Event::EndOfStream);
    assert_eq!(r.lines, strings(&["last"]));
    assert_eq!(r.directive, Directive::AwaitExit);
    let r = b.step(Event::EndOfStream);
    assert!(r.lines.is_empty());
    assert_eq!(r.directive, Directive::Nothing);
    let r = b.step(Event::Exited(Some(0)));
    assert!(r.lines.is_empty());
    assert!(matches!(b.into_outcome(), Some(Ok(()))));
}

#[test]
fn cancel_mid_stream_kills_child() {
    let mut b = started(false);
    assert_eq!(chunk(&mut b, b"one\ntw").lines, strings(&["one"]));
    let r = b.step(Event::Cancel);
    assert!(r.lines.is_empty());
    assert_eq!(r.directive, Directive::Finish { kill_child: true });
    let r = chunk(&mut b, b"o\nthree\n");
    assert!(r.lines.is_empty());
    assert_eq!(r.directive, Directive::Nothing);
    assert_eq!(b.step(Event::EndOfStream).directive, Directive::Nothing);
    assert!(matches!(b.into_outcome(), Some(Err(ProcessError::Cancelled))));
}

#[test]
fn cancel_while_reaping_kills_child() {
    let mut b = started(false);
    b.step(Event::EndOfStream);
    assert_eq!(b.step(Event::Cancel).directive, Directive::Finish { kill_child: true });
}

#[test]
fn cancel_before_spawn_has_no_child() {
    let mut b = Bridge::new(spec(), BridgeConfig::new());
    assert_eq!(b.step(Event::Cancel).directive, Directive::Finish { kill_child: false });
    assert_eq!(b.step(Event::Start).directive, Directive::Nothing);
    assert!(matches!(b.into_outcome(), Some(Err(ProcessError::Cancelled))));
}

#[test]
fn concurrent_bridges_do_not_interfere() {
    let mut a = started(false);
    let mut b = started(false);
    let mut out_a = Vec::new();
    let mut out_b = Vec::new();
    out_a.extend(chunk(&mut a, b"a1\na").lines);
    out_b.extend(chunk(&mut b, b"b1\nb").lines);
    out_a.extend(chunk(&mut a, b"2\n").lines);
    out_b.extend(chunk(&mut b, b"2\nb3\n").lines);
    out_a.extend(a.step(Event::EndOfStream).lines);
    out_b.extend(b.step(Event::EndOfStream).lines);
    assert_eq!(out_a, strings(&["a1", "a2"]));
    assert_eq!(out_b, strings(&["b1", "b2", "b3"]));
}

#[test]
fn failed_delivery_does_not_stop_later_lines() {
    let mut b = started(false);
    let r = chunk(&mut b, b"l1\nl2\n");
    assert_eq!(r.lines, strings(&["l1", "l2"]));
    let r = b.step(Event::DeliveryFailed);
    assert!(r.lines.is_empty());
    assert_eq!(r.directive, Directive::Nothing);
    assert!(matches!(b.phase(), Phase::Streaming));
    let r = chunk(&mut b, b"l3\nl4\n");
    assert_eq!(r.lines, strings(&["l3", "l4"]));
    assert_eq!(r.directive, Directive::ReadNext);
    b.step(Event::DeliveryFailed);
    assert_eq!(b.failed_deliveries(), 2);
    b.step(Event::EndOfStream);
    b.step(Event::Exited(Some(0)));
    assert!(matches!(b.into_outcome(), Some(Ok(()))));
}

#[test]
fn carriage_return_before_newline_is_dropped() {
    let (lines, _) = forwarded(&[b"dos\r\nunix\nmid\rdle\n"]);
    assert_eq!(lines, strings(&["dos", "unix", "mid\rdle"]));
}

#[test]
fn multibyte_text_is_decoded() {
    let (lines, _) = forwarded(&["héllo\nwörld ✓\n".as_bytes()]);
    assert_eq!(lines, strings(&["héllo", "wörld ✓"]));
}

#[test]
fn character_split_across_chunks() {
    let bytes = "ü\n".as_bytes();
    let (lines, _) = forwarded(&[&bytes[..1], &bytes[1..]]);
    assert_eq!(lines, strings(&["ü"]));
}

#[test]
fn invalid_utf8_is_a_read_error() {
    let mut b = started(false);
    let r = chunk(&mut b, b"good\n\xff\xfe\nafter\n");
    assert_eq!(r.lines, strings(&["good"]));
    assert_eq!(r.directive, Directive::Finish { kill_child: true });
    assert!(matches!(
        b.into_outcome(),
        Some(Err(ProcessError::ReadError(ReadFault::InvalidUtf8)))
    ));
}

#[test]
fn invalid_utf8_in_last_line_is_a_read_error() {
    let mut b = started(false);
    chunk(&mut b, b"ok\n\xc3");
    let r = b.step(Event::EndOfStream);
    assert!(r.lines.is_empty());
    assert_eq!(r.directive, Directive::Finish { kill_child: true });
    assert!(matches!(
        b.into_outcome(),
        Some(Err(ProcessError::ReadError(ReadFault::InvalidUtf8)))
    ));
}

#[test]
fn read_error_is_terminal() {
    let mut b = started(false);
    assert_eq!(chunk(&mut b, b"kept\n").lines, strings(&["kept"]));
    let r = b.step(Event::ReadFailed("broken pipe".to_string()));
    assert_eq!(r.directive, Directive::Finish { kill_child: true });
    match b.into_outcome() {
        Some(Err(ProcessError::ReadError(ReadFault::Io(m)))) => assert_eq!(m, "broken pipe"),
        other => panic!("unexpected outcome {:?}", other),
    }
}

#[test]
fn uncaptured_stdout_is_stream_unavailable() {
    let mut b = Bridge::new(spec(), BridgeConfig::new());
    b.step(Event::Start);
    let r = b.step(Event::Spawned { stdout_captured: false });
    assert_eq!(r.directive, Directive::Finish { kill_child: true });
    assert!(matches!(b.into_outcome(), Some(Err(ProcessError::StreamUnavailable))));
}

#[test]
fn exit_status_ignored_by_default() {
    let mut b = started(false);
    b.step(Event::EndOfStream);
    b.step(Event::Exited(Some(3)));
    assert!(matches!(b.into_outcome(), Some(Ok(()))));
}

#[test]
fn exit_status_checked_when_asked() {
    let mut b = started(true);
    b.step(Event::EndOfStream);
    let r = b.step(Event::Exited(Some(3)));
    assert_eq!(r.directive, Directive::Finish { kill_child: false });
    assert!(matches!(b.into_outcome(), Some(Err(ProcessError::ExitStatus(Some(3))))));

    let mut b = started(true);
    b.step(Event::EndOfStream);
    b.step(Event::Exited(None));
    assert!(matches!(b.into_outcome(), Some(Err(ProcessError::ExitStatus(None)))));

    let mut b = started(true);
    b.step(Event::EndOfStream);
    b.step(Event::Exited(Some(0)));
    assert!(matches!(b.into_outcome(), Some(Ok(()))));
}

#[test]
fn spawn_asked_for_once() {
    let mut b = Bridge::new(spec(), BridgeConfig::new());
    assert_eq!(b.step(Event::Start).directive, Directive::Spawn);
    assert_eq!(b.step(Event::Start).directive, Directive::Nothing);
    b.step(Event::Spawned { stdout_captured: true });
    assert_eq!(b.step(Event::Start).directive, Directive::Nothing);
    assert!(b.into_outcome().is_none());
}

#[test]
fn events_out_of_place_are_ignored() {
    let mut b = Bridge::new(spec(), BridgeConfig::new());
    assert_eq!(b.step(Event::Chunk(b"x\n".to_vec())).directive, Directive::Nothing);
    assert_eq!(b.step(Event::Exited(Some(0))).directive, Directive::Nothing);
    assert_eq!(b.step(Event::EndOfStream).directive, Directive::Nothing);
    assert!(matches!(b.phase(), Phase::Idle));
}

#[test]
fn prompt_invocation_arguments() {
    let inv = prompt_invocation(
        "/opt/llama/llama-cli".to_string(),
        "/opt/models/model.gguf".to_string(),
        "say \"hi\"; rm -rf /".to_string(),
    );
    assert_eq!(inv.executable(), "/opt/llama/llama-cli");
    assert_eq!(
        inv.args().to_vec(),
        strings(&["-m", "/opt/models/model.gguf", "p", "say \"hi\"; rm -rf /"])
    );
    let b = Bridge::new(inv, BridgeConfig::new());
    assert_eq!(b.invocation().executable(), "/opt/llama/llama-cli");
}

#[test]
fn default_config() {
    let c = BridgeConfig::new();
    assert_eq!(c.stderr, ErrorStreamPolicy::Inherit);
    assert!(!c.check_exit_status);
    let b = Bridge::new(spec(), c);
    assert_eq!(b.config(), c);
}

#[test]
fn framer_push_and_finish() {
    let mut f = LineFramer::new();
    assert_eq!(f.push(b"ab\ncd"), vec![b"ab".to_vec()]);
    assert_eq!(f.pending(), b"cd");
    assert_eq!(f.push(b"\r\n\nef"), vec![b"cd".to_vec(), Vec::new()]);
    assert_eq!(f.finish(), Some(b"ef".to_vec()));
    assert_eq!(f.finish(), None);
    assert!(f.pending().is_empty());
}
