use gdb_stub::connection::{GdbConnection, GdbConnectionFeatures, GetRequestStep};
use gdb_stub::framing::compute_checksum;
use gdb_stub::registers::{GdbRegisterValue, GdbRegisterValueData};
use gdb_stub::request::{GdbRequestValue, DREQ_CONT, DREQ_DETACH, DREQ_FILE_OPEN, DREQ_GET_AUXV,
    DREQ_GET_CURRENT_THREAD, DREQ_GET_IS_THREAD_ALIVE, DREQ_GET_MEM, DREQ_GET_REG,
    DREQ_GET_STOP_REASON, DREQ_GET_THREAD_LIST, DREQ_INTERRUPT, DREQ_QSYMBOL, DREQ_RD_CMD,
    DREQ_REMOVE_RDWR_WATCH, DREQ_RESTART, DREQ_SET_MEM, DREQ_SET_QUERY_THREAD, DREQ_SET_REG,
    DREQ_SET_SW_BREAK};
use gdb_stub::replay_timeline::RunDirection;
use gdb_stub::request::GdbActionType;
use gdb_stub::thread_id::GdbThreadId;

/// Frame a payload as the client would send it.
fn frame(payload: &[u8]) -> Vec<u8> {
    let cs = compute_checksum(payload);
    let mut v = Vec::new();
    v.push(b'$');
    v.extend_from_slice(payload);
    v.push(b'#');
    v.extend_from_slice(format!("{:02x}", cs).as_bytes());
    v
}

fn fresh(tgid: i32) -> GdbConnection {
    GdbConnection::new(tgid, GdbConnectionFeatures::default())
}

/// Step until something other than internal packet handling happens.
fn settle(conn: &mut GdbConnection) -> GetRequestStep {
    loop {
        let step = conn.get_request_step();
        if step != GetRequestStep::Processed {
            return step;
        }
    }
}

/// Feed one framed packet and step until it has been dealt with.
fn feed(conn: &mut GdbConnection, payload: &[u8]) -> GetRequestStep {
    let pkt = frame(payload);
    conn.append_input(&pkt);
    settle(conn)
}

fn out_string(conn: &mut GdbConnection) -> String {
    String::from_utf8_lossy(&conn.take_output()).into_owned()
}

/// Negotiate the multiprocess extension like a real client.
fn negotiate_multiprocess(conn: &mut GdbConnection) {
    let step = feed(conn, b"qSupported:multiprocess+;swbreak+");
    assert_eq!(step, GetRequestStep::AwaitInput);
    let _ = conn.take_output();
    assert!(conn.multiprocess_supported_);
}

#[test]
fn qsupported_negotiation() {
    let mut conn = fresh(1);
    conn.append_input(b"+");
    let pkt = frame(b"qSupported:multiprocess+;swbreak+");
    conn.append_input(&pkt);
    let step = settle(&mut conn);
    // The features packet is internal business; the stub wants more.
    assert_eq!(step, GetRequestStep::AwaitInput);
    assert!(conn.multiprocess_supported_);
    let out = out_string(&mut conn);
    assert!(out.starts_with('+'), "the packet must be acknowledged: {out}");
    assert!(out.contains("multiprocess+"));
    assert!(out.contains("ReverseContinue+"));
    assert!(out.contains("ReverseStep+"));
    assert!(out.contains("QStartNoAckMode+"));
    assert!(out.contains("vContSupported+"));
}

#[test]
fn qsupported_without_multiprocess_offer() {
    let mut conn = fresh(1);
    let step = feed(&mut conn, b"qSupported:swbreak+;multiprocessx");
    assert_eq!(step, GetRequestStep::AwaitInput);
    assert!(!conn.multiprocess_supported_);
}

#[test]
fn reverse_execution_not_advertised_when_disabled() {
    let mut conn = GdbConnection::new(1, GdbConnectionFeatures { reverse_execution: false });
    let step = feed(&mut conn, b"qSupported:multiprocess+");
    assert_eq!(step, GetRequestStep::AwaitInput);
    let out = out_string(&mut conn);
    assert!(!out.contains("ReverseContinue+"));
    assert!(!out.contains("ReverseStep+"));
}

#[test]
fn no_ack_mode_negotiation() {
    let mut conn = fresh(1);
    let step = feed(&mut conn, b"QStartNoAckMode");
    assert_eq!(step, GetRequestStep::AwaitInput);
    let out = out_string(&mut conn);
    // One acknowledgement for the packet itself, then OK.
    assert_eq!(out, "+$OK#9a");
    // From now on nothing is acknowledged.
    let step = feed(&mut conn, b"!");
    assert_eq!(step, GetRequestStep::AwaitInput);
    let out = out_string(&mut conn);
    assert_eq!(out, "$OK#9a");
}

#[test]
fn acks_before_no_ack_mode() {
    let mut conn = fresh(1);
    let step = feed(&mut conn, b"!");
    assert_eq!(step, GetRequestStep::AwaitInput);
    assert_eq!(out_string(&mut conn), "+$OK#9a");
}

#[test]
fn damaged_packet_is_rejected_with_nak() {
    let mut conn = fresh(1);
    conn.append_input(b"$OK#00");
    let pkt = frame(b"!");
    conn.append_input(&pkt);
    let step = settle(&mut conn);
    assert_eq!(step, GetRequestStep::AwaitInput);
    assert_eq!(out_string(&mut conn), "-+$OK#9a");
}

#[test]
fn select_query_thread_and_report_it() {
    let mut conn = fresh(1);
    negotiate_multiprocess(&mut conn);
    let step = feed(&mut conn, b"Hgp01.02");
    assert_eq!(step, GetRequestStep::Ready);
    assert_eq!(conn.req.type_, DREQ_SET_QUERY_THREAD);
    assert_eq!(conn.req.target, GdbThreadId::new(1, 2));
    conn.reply_select_thread(true);
    assert_eq!(conn.query_thread, GdbThreadId::new(1, 2));
    let out = out_string(&mut conn);
    assert!(out.ends_with("$OK#9a"), "{out}");

    let step = feed(&mut conn, b"qC");
    assert_eq!(step, GetRequestStep::Ready);
    assert_eq!(conn.req.type_, DREQ_GET_CURRENT_THREAD);
    let qt = conn.query_thread;
    conn.reply_get_current_thread(qt);
    let out = out_string(&mut conn);
    let expected = String::from_utf8(frame(b"QCp01.02")).unwrap();
    assert!(out.ends_with(&expected), "{out} vs {expected}");
}

#[test]
fn bare_thread_selections() {
    let mut conn = fresh(1);
    let step = feed(&mut conn, b"Hc-1");
    assert_eq!(step, GetRequestStep::Ready);
    assert_eq!(conn.req.target, GdbThreadId::new(-1, -1));
    conn.reply_select_thread(true);
    assert_eq!(conn.resume_thread, GdbThreadId::new(-1, -1));
    let _ = conn.take_output();
    let step = feed(&mut conn, b"Hg0");
    assert_eq!(step, GetRequestStep::Ready);
    assert_eq!(conn.req.target, GdbThreadId::new(0, 0));
}

#[test]
fn memory_read_scenario() {
    let mut conn = fresh(1);
    let step = feed(&mut conn, b"m1000,4");
    assert_eq!(step, GetRequestStep::Ready);
    assert_eq!(conn.req.type_, DREQ_GET_MEM);
    match &conn.req.value {
        GdbRequestValue::GdbRequestMem(m) => {
            assert_eq!(m.addr, 0x1000);
            assert_eq!(m.len, 4);
        },
        _ => panic!("wrong payload"),
    }
    conn.reply_get_mem(&[0xde, 0xad, 0xbe, 0xef]);
    let out = out_string(&mut conn);
    assert!(out.ends_with("$deadbeef#20"), "{out}");
}

#[test]
fn memory_read_empty_result_is_an_error() {
    let mut conn = fresh(1);
    let step = feed(&mut conn, b"m1000,4");
    assert_eq!(step, GetRequestStep::Ready);
    conn.reply_get_mem(&[]);
    let out = out_string(&mut conn);
    assert!(out.ends_with("$E01#a6"), "{out}");
}

#[test]
fn memory_write_hex() {
    let mut conn = fresh(1);
    let step = feed(&mut conn, b"M1000,2:beef");
    assert_eq!(step, GetRequestStep::Ready);
    assert_eq!(conn.req.type_, DREQ_SET_MEM);
    match &conn.req.value {
        GdbRequestValue::GdbRequestMem(m) => {
            assert_eq!(m.addr, 0x1000);
            assert_eq!(m.len, 2);
            assert_eq!(m.data, vec![0xbe, 0xef]);
        },
        _ => panic!("wrong payload"),
    }
    conn.reply_set_mem(true);
    assert!(out_string(&mut conn).ends_with("$OK#9a"));
}

#[test]
fn memory_write_binary_with_escapes() {
    let mut conn = fresh(1);
    // The data is one escaped '#' byte: 0x7d, 0x03.
    let mut payload = b"X1000,1:".to_vec();
    payload.push(0x7d);
    payload.push(b'#' ^ 0x20);
    let step = feed(&mut conn, &payload);
    assert_eq!(step, GetRequestStep::Ready);
    assert_eq!(conn.req.type_, DREQ_SET_MEM);
    match &conn.req.value {
        GdbRequestValue::GdbRequestMem(m) => {
            assert_eq!(m.data, vec![b'#']);
        },
        _ => panic!("wrong payload"),
    }
}

#[test]
fn vcont_and_stop_reply_scenario() {
    let mut conn = fresh(1);
    negotiate_multiprocess(&mut conn);
    let step = feed(&mut conn, b"vCont;c:p01.02;s:p01.03");
    assert_eq!(step, GetRequestStep::Ready);
    assert_eq!(conn.req.type_, DREQ_CONT);
    match &conn.req.value {
        GdbRequestValue::GdbRequestCont(c) => {
            assert_eq!(c.run_direction, RunDirection::RunForward);
            assert_eq!(c.actions.len(), 2);
            assert_eq!(c.actions[0].type_, GdbActionType::ActionContinue);
            assert_eq!(c.actions[0].target, GdbThreadId::new(1, 2));
            assert_eq!(c.actions[0].maybe_signal_to_deliver, None);
            assert_eq!(c.actions[1].type_, GdbActionType::ActionStep);
            assert_eq!(c.actions[1].target, GdbThreadId::new(1, 3));
        },
        _ => panic!("wrong payload"),
    }
    let _ = conn.take_output();
    // The engine stepped and thread (1,3) stopped on SIGTRAP (5).
    conn.notify_stop(GdbThreadId::new(1, 3), Some(5), 0);
    let out = out_string(&mut conn);
    let expected = String::from_utf8(frame(b"T05thread:p01.03;")).unwrap();
    assert_eq!(out, expected);
    assert_eq!(conn.resume_thread, GdbThreadId::new(1, 3));
    assert_eq!(conn.query_thread, GdbThreadId::new(1, 3));
}

#[test]
fn interrupt_scenario() {
    let mut conn = fresh(1);
    negotiate_multiprocess(&mut conn);
    let step = feed(&mut conn, b"c");
    assert_eq!(step, GetRequestStep::Ready);
    assert_eq!(conn.req.type_, DREQ_CONT);
    let _ = conn.take_output();
    // 0x03 arrives while the continue is pending.
    conn.append_input(&[0x03]);
    let step = settle(&mut conn);
    assert_eq!(step, GetRequestStep::Ready);
    assert_eq!(conn.req.type_, DREQ_INTERRUPT);
    conn.notify_stop(GdbThreadId::new(1, 2), Some(2), 0);
    let out = out_string(&mut conn);
    let expected = String::from_utf8(frame(b"T02thread:p01.02;")).unwrap();
    assert_eq!(out, expected);
    assert_eq!(conn.resume_thread, GdbThreadId::new(1, 2));
}

#[test]
fn resume_polls_when_nothing_is_buffered() {
    let mut conn = fresh(1);
    let step = feed(&mut conn, b"c");
    assert_eq!(step, GetRequestStep::Ready);
    assert_eq!(conn.req.type_, DREQ_CONT);
    let step = settle(&mut conn);
    assert_eq!(step, GetRequestStep::PollInput);
    assert_eq!(conn.req.type_, DREQ_CONT);
}

#[test]
fn stop_of_foreign_thread_group_is_swallowed() {
    let mut conn = fresh(1);
    let step = feed(&mut conn, b"c");
    assert_eq!(step, GetRequestStep::Ready);
    let _ = conn.take_output();
    conn.notify_stop(GdbThreadId::new(2, 7), Some(5), 0);
    // Nothing was written and the continue request is still live.
    assert_eq!(out_string(&mut conn), "");
    assert_eq!(conn.req.type_, DREQ_CONT);
}

#[test]
fn reverse_continue_widens_focus() {
    let mut conn = fresh(1);
    // Select a resume thread first, then continue backward.
    let step = feed(&mut conn, b"Hcp01.02");
    assert_eq!(step, GetRequestStep::Ready);
    conn.reply_select_thread(true);
    let _ = conn.take_output();
    let step = feed(&mut conn, b"bc");
    assert_eq!(step, GetRequestStep::Ready);
    assert_eq!(conn.req.type_, DREQ_CONT);
    match &conn.req.value {
        GdbRequestValue::GdbRequestCont(c) => {
            assert_eq!(c.run_direction, RunDirection::RunBackward);
            assert_eq!(c.actions.len(), 1);
            assert_eq!(c.actions[0].target, GdbThreadId::new(1, 2));
        },
        _ => panic!("wrong payload"),
    }
    let _ = conn.take_output();
    conn.notify_stop(GdbThreadId::new(1, 2), Some(5), 0);
    assert_eq!(conn.resume_thread, GdbThreadId::new(0, 0));
    assert_eq!(conn.query_thread, GdbThreadId::new(0, 0));
}

#[test]
fn stop_reply_names_watchpoint() {
    let mut conn = fresh(1);
    let step = feed(&mut conn, b"c");
    assert_eq!(step, GetRequestStep::Ready);
    let _ = conn.take_output();
    conn.notify_stop(GdbThreadId::new(1, 1), Some(5), 0x601038);
    let out = out_string(&mut conn);
    let expected = String::from_utf8(frame(b"T05thread:01;watch:601038;")).unwrap();
    assert_eq!(out, expected);
}

#[test]
fn file_open_scenario() {
    let mut conn = fresh(1);
    let step = feed(&mut conn, b"vFile:open:2f746d702f66,2,1a4");
    assert_eq!(step, GetRequestStep::Ready);
    assert_eq!(conn.req.type_, DREQ_FILE_OPEN);
    match &conn.req.value {
        GdbRequestValue::GdbRequestFileOpen(f) => {
            assert_eq!(f.file_name, b"/tmp/f".to_vec());
            assert_eq!(f.flags, gdb_stub::fileflags::HOST_O_RDWR);
            assert_eq!(f.mode, 0o644);
        },
        _ => panic!("wrong payload"),
    }
    conn.reply_open(7, 0);
    let out = out_string(&mut conn);
    let expected = String::from_utf8(frame(b"F7;")).unwrap();
    assert!(out.ends_with(&expected), "{out}");
}

#[test]
fn file_open_with_stray_flag_bits_kills_the_session() {
    let mut conn = fresh(1);
    let step = feed(&mut conn, b"vFile:open:2f,1003,0");
    assert_eq!(step, GetRequestStep::Ready);
    assert_eq!(conn.req.type_, DREQ_DETACH);
    assert!(!conn.is_connection_alive());
}

#[test]
fn file_error_reply_uses_protocol_errno() {
    let mut conn = fresh(1);
    let step = feed(&mut conn, b"vFile:open:2f,0,0");
    assert_eq!(step, GetRequestStep::Ready);
    // ENOENT on the host is 2 and stays 2 on the wire.
    conn.reply_open(-1, 2);
    let out = out_string(&mut conn);
    let expected = String::from_utf8(frame(b"F-1,2")).unwrap();
    assert!(out.ends_with(&expected), "{out}");
}

#[test]
fn register_read_formats_fixed_width() {
    let mut conn = fresh(1);
    let step = feed(&mut conn, b"p5");
    assert_eq!(step, GetRequestStep::Ready);
    assert_eq!(conn.req.type_, DREQ_GET_REG);
    match &conn.req.value {
        GdbRequestValue::GdbRequestRegisterValue(rv) => {
            assert_eq!(rv.name, 5);
            assert!(!rv.defined);
        },
        _ => panic!("wrong payload"),
    }
    let reg = GdbRegisterValue {
        name: 5,
        value: GdbRegisterValueData::Value4(0xdeadbeef),
        defined: true,
        size: 4,
    };
    conn.reply_get_reg(&reg);
    let out = out_string(&mut conn);
    assert!(out.ends_with("$deadbeef#20"), "{out}");
}

#[test]
fn undefined_register_prints_xx() {
    let mut conn = fresh(1);
    let step = feed(&mut conn, b"p0");
    assert_eq!(step, GetRequestStep::Ready);
    let reg = GdbRegisterValue {
        name: 0,
        value: GdbRegisterValueData::Value8(0),
        defined: false,
        size: 8,
    };
    conn.reply_get_reg(&reg);
    let out = out_string(&mut conn);
    let expected = String::from_utf8(frame(b"xxxxxxxxxxxxxxxx")).unwrap();
    assert!(out.ends_with(&expected), "{out}");
}

#[test]
fn register_write_carries_bytes() {
    let mut conn = fresh(1);
    let step = feed(&mut conn, b"P6=0102030405060708");
    assert_eq!(step, GetRequestStep::Ready);
    assert_eq!(conn.req.type_, DREQ_SET_REG);
    match &conn.req.value {
        GdbRequestValue::GdbRequestRegisterValue(rv) => {
            assert_eq!(rv.name, 6);
            assert!(rv.defined);
            assert_eq!(rv.size, 8);
            match &rv.value {
                GdbRegisterValueData::Value(v) => {
                    assert_eq!(v, &vec![1, 2, 3, 4, 5, 6, 7, 8]);
                },
                _ => panic!("wrong representation"),
            }
        },
        _ => panic!("wrong payload"),
    }
    // A failed register write must look like an unsupported packet.
    conn.reply_set_reg(false);
    let out = out_string(&mut conn);
    assert!(out.ends_with("$#00"), "{out}");
}

#[test]
fn watchpoint_packets() {
    let mut conn = fresh(1);
    let step = feed(&mut conn, b"Z0,4005d0,1");
    assert_eq!(step, GetRequestStep::Ready);
    assert_eq!(conn.req.type_, DREQ_SET_SW_BREAK);
    match &conn.req.value {
        GdbRequestValue::GdbRequestWatch(w) => {
            assert_eq!(w.addr, 0x4005d0);
            assert_eq!(w.kind, 1);
            assert!(w.conditions.is_empty());
        },
        _ => panic!("wrong payload"),
    }
    conn.reply_watchpoint_request(true);
    let _ = conn.take_output();
    let step = feed(&mut conn, b"z4,4005d0,8;beef;01");
    assert_eq!(step, GetRequestStep::Ready);
    assert_eq!(conn.req.type_, DREQ_REMOVE_RDWR_WATCH);
    match &conn.req.value {
        GdbRequestValue::GdbRequestWatch(w) => {
            assert_eq!(w.kind, 8);
            assert_eq!(w.conditions, vec![vec![0xbe, 0xef], vec![0x01]]);
        },
        _ => panic!("wrong payload"),
    }
}

#[test]
fn thread_list_reply_filters_and_formats() {
    let mut conn = fresh(1);
    negotiate_multiprocess(&mut conn);
    let step = feed(&mut conn, b"qfThreadInfo");
    assert_eq!(step, GetRequestStep::Ready);
    assert_eq!(conn.req.type_, DREQ_GET_THREAD_LIST);
    let threads = [GdbThreadId::new(1, 1), GdbThreadId::new(2, 5), GdbThreadId::new(1, 2)];
    conn.reply_get_thread_list(&threads);
    let out = out_string(&mut conn);
    let expected = String::from_utf8(frame(b"mp01.01,p01.02")).unwrap();
    assert!(out.ends_with(&expected), "{out}");
    // The follow-up is answered internally.
    let step = feed(&mut conn, b"qsThreadInfo");
    assert_eq!(step, GetRequestStep::AwaitInput);
    let out = out_string(&mut conn);
    let expected = format!("+{}", String::from_utf8(frame(b"l")).unwrap());
    assert_eq!(out, expected);
}

#[test]
fn thread_alive_check() {
    let mut conn = fresh(1);
    let step = feed(&mut conn, b"T05");
    assert_eq!(step, GetRequestStep::Ready);
    assert_eq!(conn.req.type_, DREQ_GET_IS_THREAD_ALIVE);
    assert_eq!(conn.req.target, GdbThreadId::new(-1, 5));
    conn.reply_get_is_thread_alive(false);
    assert!(out_string(&mut conn).ends_with("$E01#a6"));
}

#[test]
fn auxv_read_slices() {
    let mut conn = fresh(1);
    let step = feed(&mut conn, b"qXfer:auxv:read::0,2");
    assert_eq!(step, GetRequestStep::Ready);
    assert_eq!(conn.req.type_, DREQ_GET_AUXV);
    // Four bytes on offer, two asked: a middle chunk.
    conn.reply_get_auxv(&[1, 2, 3, 4]);
    let out = out_string(&mut conn);
    let expected = String::from_utf8(frame(&[b'm', 1, 2])).unwrap();
    assert!(out.ends_with(&expected), "{out}");
    // Offset at the end: a bare 'l'.
    let step = feed(&mut conn, b"qXfer:auxv:read::4,2");
    assert_eq!(step, GetRequestStep::Ready);
    conn.reply_get_auxv(&[1, 2, 3, 4]);
    let out = out_string(&mut conn);
    let expected = String::from_utf8(frame(b"l")).unwrap();
    assert!(out.ends_with(&expected), "{out}");
    // Offset past the end is an error.
    let step = feed(&mut conn, b"qXfer:auxv:read::5,2");
    assert_eq!(step, GetRequestStep::Ready);
    conn.reply_get_auxv(&[1, 2, 3, 4]);
    assert!(out_string(&mut conn).ends_with("$E01#a6"));
    // The whole tail travels under 'l'.
    let step = feed(&mut conn, b"qXfer:auxv:read::1,10");
    assert_eq!(step, GetRequestStep::Ready);
    conn.reply_get_auxv(&[1, 2, 3, 4]);
    let out = out_string(&mut conn);
    let expected = String::from_utf8(frame(&[b'l', 2, 3, 4])).unwrap();
    assert!(out.ends_with(&expected), "{out}");
}

#[test]
fn maintenance_command_is_hex_decoded() {
    let mut conn = fresh(1);
    let step = feed(&mut conn, b"qRcmd,68656c70");
    assert_eq!(step, GetRequestStep::Ready);
    assert_eq!(conn.req.type_, DREQ_RD_CMD);
    match &conn.req.value {
        GdbRequestValue::GdbRequestText(t) => assert_eq!(t, &b"help".to_vec()),
        _ => panic!("wrong payload"),
    }
    conn.reply_rd_cmd(b"done");
    let out = out_string(&mut conn);
    let expected = String::from_utf8(frame(b"done")).unwrap();
    assert!(out.ends_with(&expected), "{out}");
}

#[test]
fn symbol_exchange() {
    let mut conn = fresh(1);
    let step = feed(&mut conn, b"qSymbol::");
    assert_eq!(step, GetRequestStep::Ready);
    assert_eq!(conn.req.type_, DREQ_QSYMBOL);
    match &conn.req.value {
        GdbRequestValue::GdbRequestSymbol(s) => {
            assert!(!s.has_address);
            assert!(s.name.is_empty());
        },
        _ => panic!("wrong payload"),
    }
    conn.send_qsymbol(b"main");
    let out = out_string(&mut conn);
    let expected = String::from_utf8(frame(b"qSymbol:6d61696e")).unwrap();
    assert!(out.ends_with(&expected), "{out}");
    let step = feed(&mut conn, b"qSymbol:2000:6d61696e");
    assert_eq!(step, GetRequestStep::Ready);
    match &conn.req.value {
        GdbRequestValue::GdbRequestSymbol(s) => {
            assert!(s.has_address);
            assert_eq!(s.address, 0x2000);
            assert_eq!(s.name, b"main".to_vec());
        },
        _ => panic!("wrong payload"),
    }
}

#[test]
fn restart_synthesises_a_stop_reason_request() {
    let mut conn = fresh(1);
    let step = feed(&mut conn, b"R11");
    assert_eq!(step, GetRequestStep::Ready);
    assert_eq!(conn.req.type_, DREQ_RESTART);
    match &conn.req.value {
        GdbRequestValue::GdbRequestRestart(r) => assert_eq!(r.param, 0x11),
        _ => panic!("wrong payload"),
    }
    // After the engine restarts the replay, the next step consumes the
    // restart and asks for a stop report, with the focus reset.
    let step = settle(&mut conn);
    assert_eq!(step, GetRequestStep::Ready);
    assert_eq!(conn.req.type_, DREQ_GET_STOP_REASON);
    assert_eq!(conn.resume_thread, GdbThreadId::new(0, 0));
    assert_eq!(conn.query_thread, GdbThreadId::new(0, 0));
}

#[test]
fn exit_reports() {
    let mut conn = fresh(1);
    let step = feed(&mut conn, b"c");
    assert_eq!(step, GetRequestStep::Ready);
    let _ = conn.take_output();
    conn.notify_exit_code(0);
    let out = out_string(&mut conn);
    let expected = String::from_utf8(frame(b"W00")).unwrap();
    assert_eq!(out, expected);
    let step = feed(&mut conn, b"c");
    assert_eq!(step, GetRequestStep::Ready);
    let _ = conn.take_output();
    conn.notify_exit_signal(9);
    let out = out_string(&mut conn);
    let expected = String::from_utf8(frame(b"X09")).unwrap();
    assert_eq!(out, expected);
}

#[test]
fn detach_and_kill_are_surfaced_alike() {
    let mut conn = fresh(1);
    let step = feed(&mut conn, b"D");
    assert_eq!(step, GetRequestStep::Ready);
    assert_eq!(conn.req.type_, DREQ_DETACH);
    conn.reply_detach();
    assert!(out_string(&mut conn).ends_with("$OK#9a"));
    let step = feed(&mut conn, b"k");
    assert_eq!(step, GetRequestStep::Ready);
    assert_eq!(conn.req.type_, DREQ_DETACH);
}

#[test]
fn dead_connection_yields_synthetic_detach() {
    let mut conn = fresh(1);
    conn.mark_connection_dead();
    let step = settle(&mut conn);
    assert_eq!(step, GetRequestStep::Ready);
    assert_eq!(conn.req.type_, DREQ_DETACH);
}

#[test]
fn unknown_packets_get_an_empty_reply() {
    let mut conn = fresh(1);
    let step = feed(&mut conn, b"Ufoo");
    assert_eq!(step, GetRequestStep::AwaitInput);
    assert!(out_string(&mut conn).ends_with("$#00"));
    let step = feed(&mut conn, b"qNonsense");
    assert_eq!(step, GetRequestStep::AwaitInput);
    assert!(out_string(&mut conn).ends_with("$#00"));
    let step = feed(&mut conn, b"vMustReplyEmpty");
    assert_eq!(step, GetRequestStep::AwaitInput);
    assert!(out_string(&mut conn).ends_with("$#00"));
}

#[test]
fn qattached_and_vcont_query() {
    let mut conn = fresh(1);
    let step = feed(&mut conn, b"qAttached");
    assert_eq!(step, GetRequestStep::AwaitInput);
    let out = out_string(&mut conn);
    let expected = String::from_utf8(frame(b"1")).unwrap();
    assert!(out.ends_with(&expected), "{out}");
    let step = feed(&mut conn, b"vCont?");
    assert_eq!(step, GetRequestStep::AwaitInput);
    let out = out_string(&mut conn);
    let expected = String::from_utf8(frame(b"vCont;c;C;s;S")).unwrap();
    assert!(out.ends_with(&expected), "{out}");
}

#[test]
fn legacy_continue_with_signal() {
    let mut conn = fresh(1);
    let step = feed(&mut conn, b"C0f");
    assert_eq!(step, GetRequestStep::Ready);
    assert_eq!(conn.req.type_, DREQ_CONT);
    match &conn.req.value {
        GdbRequestValue::GdbRequestCont(c) => {
            assert_eq!(c.actions.len(), 1);
            assert_eq!(c.actions[0].maybe_signal_to_deliver, Some(15));
        },
        _ => panic!("wrong payload"),
    }
}

#[test]
fn malformed_memory_packet_kills_the_session() {
    let mut conn = fresh(1);
    let step = feed(&mut conn, b"m1000");
    assert_eq!(step, GetRequestStep::Ready);
    assert_eq!(conn.req.type_, DREQ_DETACH);
    assert!(!conn.is_connection_alive());
}

#[test]
fn thread_extra_info_is_hex_encoded() {
    let mut conn = fresh(1);
    let step = feed(&mut conn, b"qThreadExtraInfo,p01.02");
    assert_eq!(step, GetRequestStep::Ready);
    assert_eq!(conn.req.type_, gdb_stub::request::DREQ_GET_THREAD_EXTRA_INFO);
    assert_eq!(conn.req.target, GdbThreadId::new(1, 2));
    conn.reply_get_thread_extra_info(b"Runnable");
    let out = out_string(&mut conn);
    let expected = String::from_utf8(frame(b"52756e6e61626c65")).unwrap();
    assert!(out.ends_with(&expected), "{out}");
}

#[test]
fn offsets_query_gets_empty_reply_from_engine() {
    let mut conn = fresh(1);
    let step = feed(&mut conn, b"qOffsets");
    assert_eq!(step, GetRequestStep::Ready);
    assert_eq!(conn.req.type_, gdb_stub::request::DREQ_GET_OFFSETS);
    conn.reply_get_offsets();
    assert!(out_string(&mut conn).ends_with("$#00"));
}

#[test]
fn tls_address_lookup() {
    let mut conn = fresh(1);
    let step = feed(&mut conn, b"qGetTLSAddr:p01.02,10,7f0000000000");
    assert_eq!(step, GetRequestStep::Ready);
    assert_eq!(conn.req.type_, gdb_stub::request::DREQ_TLS);
    assert_eq!(conn.req.target, GdbThreadId::new(1, 2));
    match &conn.req.value {
        GdbRequestValue::GdbRequestTls(t) => {
            assert_eq!(t.offset, 0x10);
            assert_eq!(t.load_module, 0x7f00_0000_0000);
        },
        _ => panic!("wrong payload"),
    }
    conn.reply_tls_addr(true, 0x7f00_0000_0010);
    let out = out_string(&mut conn);
    let expected = String::from_utf8(frame(b"7f0000000010;")).unwrap();
    assert!(out.ends_with(&expected), "{out}");
    // And the failing shape.
    let step = feed(&mut conn, b"qGetTLSAddr:1,0,0");
    assert_eq!(step, GetRequestStep::Ready);
    conn.reply_tls_addr(false, 0);
    assert!(out_string(&mut conn).ends_with("$E01#a6"));
}

#[test]
fn memory_search() {
    let mut conn = fresh(1);
    let step = feed(&mut conn, b"qSearch:memory:1000;200;ab");
    assert_eq!(step, GetRequestStep::Ready);
    assert_eq!(conn.req.type_, gdb_stub::request::DREQ_SEARCH_MEM);
    match &conn.req.value {
        GdbRequestValue::GdbRequestMem(m) => {
            assert_eq!(m.addr, 0x1000);
            assert_eq!(m.len, 0x200);
            assert_eq!(m.data, b"ab".to_vec());
        },
        _ => panic!("wrong payload"),
    }
    conn.reply_search_mem(true, 0x1040);
    let out = out_string(&mut conn);
    let expected = String::from_utf8(frame(b"1,1040")).unwrap();
    assert!(out.ends_with(&expected), "{out}");
    let step = feed(&mut conn, b"qSearch:memory:1000;200;ab");
    assert_eq!(step, GetRequestStep::Ready);
    conn.reply_search_mem(false, 0);
    let out = out_string(&mut conn);
    let expected = String::from_utf8(frame(b"0")).unwrap();
    assert!(out.ends_with(&expected), "{out}");
}

#[test]
fn siginfo_read_and_write() {
    let mut conn = fresh(1);
    let step = feed(&mut conn, b"qXfer:siginfo:read::0,80");
    assert_eq!(step, GetRequestStep::Ready);
    assert_eq!(conn.req.type_, gdb_stub::request::DREQ_READ_SIGINFO);
    conn.reply_read_siginfo(&[9, 8, 7]);
    let out = out_string(&mut conn);
    let expected = String::from_utf8(frame(&[b'l', 9, 8, 7])).unwrap();
    assert!(out.ends_with(&expected), "{out}");
    // Writing back always fails.
    let mut payload = b"qXfer:siginfo:write::0:".to_vec();
    payload.extend_from_slice(&[9, 8, 7]);
    let step = feed(&mut conn, &payload);
    assert_eq!(step, GetRequestStep::Ready);
    assert_eq!(conn.req.type_, gdb_stub::request::DREQ_WRITE_SIGINFO);
    match &conn.req.value {
        GdbRequestValue::GdbRequestMem(m) => {
            assert_eq!(m.data, vec![9, 8, 7]);
            assert_eq!(m.len, 3);
        },
        _ => panic!("wrong payload"),
    }
    conn.reply_write_siginfo();
    assert!(out_string(&mut conn).ends_with("$E01#a6"));
}

#[test]
fn exec_file_names_the_asked_process() {
    let mut conn = fresh(1);
    let step = feed(&mut conn, b"qXfer:exec-file:read:5:0,40");
    assert_eq!(step, GetRequestStep::Ready);
    assert_eq!(conn.req.type_, gdb_stub::request::DREQ_GET_EXEC_FILE);
    assert_eq!(conn.req.target, GdbThreadId::new(5, 5));
    conn.reply_get_exec_file(b"/bin/true");
    let out = out_string(&mut conn);
    let expected = String::from_utf8(frame(b"l/bin/true")).unwrap();
    assert!(out.ends_with(&expected), "{out}");
}

#[test]
fn file_setfs_pread_close() {
    let mut conn = fresh(1);
    let step = feed(&mut conn, b"vFile:setfs:0");
    assert_eq!(step, GetRequestStep::Ready);
    assert_eq!(conn.req.type_, gdb_stub::request::DREQ_FILE_SETFS);
    conn.reply_setfs(0);
    let out = out_string(&mut conn);
    let expected = String::from_utf8(frame(b"F0")).unwrap();
    assert!(out.ends_with(&expected), "{out}");

    let step = feed(&mut conn, b"vFile:pread:7,100,8");
    assert_eq!(step, GetRequestStep::Ready);
    assert_eq!(conn.req.type_, gdb_stub::request::DREQ_FILE_PREAD);
    match &conn.req.value {
        GdbRequestValue::GdbRequestFilePread(f) => {
            assert_eq!(f.fd, 7);
            assert_eq!(f.size, 0x100);
            assert_eq!(f.offset, 8);
        },
        _ => panic!("wrong payload"),
    }
    // Two bytes read, one of them needing an escape on the wire.
    conn.reply_pread(&[b'A', b'#'], 0);
    let out = out_string(&mut conn);
    let expected = String::from_utf8(frame(&[b'F', b'2', b';', b'A', b'}', b'#' ^ 0x20])).unwrap();
    assert!(out.ends_with(&expected), "{out}");

    let step = feed(&mut conn, b"vFile:close:7");
    assert_eq!(step, GetRequestStep::Ready);
    assert_eq!(conn.req.type_, gdb_stub::request::DREQ_FILE_CLOSE);
    conn.reply_close(9);
    let out = out_string(&mut conn);
    let expected = String::from_utf8(frame(b"F-1,9")).unwrap();
    assert!(out.ends_with(&expected), "{out}");
}

#[test]
fn vctrlc_is_an_interrupt() {
    let mut conn = fresh(1);
    let step = feed(&mut conn, b"vCtrlC");
    assert_eq!(step, GetRequestStep::Ready);
    assert_eq!(conn.req.type_, DREQ_INTERRUPT);
}

#[test]
fn dead_thread_target_reports_magic_errno() {
    let mut conn = fresh(1);
    let step = feed(&mut conn, b"m1000,4");
    assert_eq!(step, GetRequestStep::Ready);
    let req = conn.req.clone();
    conn.notify_no_such_thread(&req);
    let out = out_string(&mut conn);
    let expected = String::from_utf8(frame(b"E10")).unwrap();
    assert!(out.ends_with(&expected), "{out}");
    assert_eq!(conn.req.type_, gdb_stub::request::DREQ_NONE);
}

#[test]
fn restart_failure_is_an_error() {
    let mut conn = fresh(1);
    let step = feed(&mut conn, b"R0");
    assert_eq!(step, GetRequestStep::Ready);
    assert_eq!(conn.req.type_, DREQ_RESTART);
    conn.notify_restart_failed();
    assert!(out_string(&mut conn).ends_with("$E01#a6"));
    assert_eq!(conn.req.type_, gdb_stub::request::DREQ_NONE);
}

#[test]
fn whole_register_file_reply() {
    let mut conn = fresh(1);
    let step = feed(&mut conn, b"g");
    assert_eq!(step, GetRequestStep::Ready);
    assert_eq!(conn.req.type_, gdb_stub::request::DREQ_GET_REGS);
    let file = [
        GdbRegisterValue {
            name: 0,
            value: GdbRegisterValueData::Value1(0xab),
            defined: true,
            size: 1,
        },
        GdbRegisterValue {
            name: 1,
            value: GdbRegisterValueData::Value2(0x1234),
            defined: true,
            size: 2,
        },
        GdbRegisterValue {
            name: 2,
            value: GdbRegisterValueData::Value8(1),
            defined: false,
            size: 2,
        },
    ];
    conn.reply_get_regs(&file);
    let out = out_string(&mut conn);
    let expected = String::from_utf8(frame(b"ab1234xxxx")).unwrap();
    assert!(out.ends_with(&expected), "{out}");
}

#[test]
fn opaque_register_bytes_print_in_order() {
    let mut conn = fresh(1);
    let step = feed(&mut conn, b"p0");
    assert_eq!(step, GetRequestStep::Ready);
    let reg = GdbRegisterValue {
        name: 0,
        value: GdbRegisterValueData::Value(vec![0x01, 0xff, 0x00]),
        defined: true,
        size: 3,
    };
    conn.reply_get_reg(&reg);
    let out = out_string(&mut conn);
    let expected = String::from_utf8(frame(b"01ff00")).unwrap();
    assert!(out.ends_with(&expected), "{out}");
}

#[test]
fn partial_packet_blocks_even_while_resuming() {
    let mut conn = fresh(1);
    let step = feed(&mut conn, b"c");
    assert_eq!(step, GetRequestStep::Ready);
    // Half a packet arrives: the stub must wait for the rest rather
    // than keep stepping the target.
    conn.append_input(b"$m10");
    let step = settle(&mut conn);
    assert_eq!(step, GetRequestStep::AwaitInput);
    conn.append_input(b"00,4#");
    let step = settle(&mut conn);
    assert_eq!(step, GetRequestStep::AwaitInput);
    let rest = frame(b"m1000,4");
    conn.append_input(&rest[rest.len() - 2..]);
    let step = settle(&mut conn);
    assert_eq!(step, GetRequestStep::Ready);
    assert_eq!(conn.req.type_, DREQ_GET_MEM);
}

#[test]
fn junk_between_packets_is_discarded() {
    let mut conn = fresh(1);
    conn.append_input(b"\r\n+junk");
    let step = feed(&mut conn, b"!");
    assert_eq!(step, GetRequestStep::AwaitInput);
    assert_eq!(out_string(&mut conn), "+$OK#9a");
}
