use gdb_stub::fileflags::{gdb_open_flags_to_system_flags, to_gdb_errno, HOST_O_APPEND,
    HOST_O_CREAT, HOST_O_EXCL, HOST_O_RDWR, HOST_O_TRUNC, HOST_O_WRONLY};
use gdb_stub::framing::{compute_checksum, escape_binary, unescape_binary};
use gdb_stub::hex::{decode_ascii_encoded_hex_str, decode_hex_pairs, parse_hex_u64, push_hex_bytes,
    push_hex_min1, push_hex_min2};
use gdb_stub::lexical_key::LexicalKey128;
use gdb_stub::signals::to_gdb_signum;

#[test]
fn checksum_is_modular_byte_sum() {
    assert_eq!(compute_checksum(b"OK"), 0x9a);
    assert_eq!(compute_checksum(b""), 0);
    // 0xff + 0xff = 0x1fe, low byte 0xfe.
    assert_eq!(compute_checksum(&[0xff, 0xff]), 0xfe);
    assert_eq!(compute_checksum(b"deadbeef"), 0x20);
}

#[test]
fn escape_unescape_round_trip_every_byte() {
    let mut all: Vec<u8> = Vec::new();
    for b in 0..=255u8 {
        all.push(b);
    }
    let escaped = escape_binary(&all);
    // The four reserved bytes are doubled, nothing else.
    assert_eq!(escaped.len(), 256 + 4);
    let back = unescape_binary(&escaped).expect("escaped form must unescape");
    assert_eq!(back, all);
}

#[test]
fn escape_uses_xor_20() {
    let escaped = escape_binary(&[b'#', b'$', b'}', b'*', b'A']);
    assert_eq!(
        escaped,
        vec![b'}', b'#' ^ 0x20, b'}', b'$' ^ 0x20, b'}', b'}' ^ 0x20, b'}', b'*' ^ 0x20, b'A']
    );
}

#[test]
fn unescape_expands_run_length() {
    // 'a' then "repeat previous 3 more times": count byte 29 + 3 = 32.
    let back = unescape_binary(&[b'a', b'*', 32]).unwrap();
    assert_eq!(back, b"aaaa".to_vec());
    // A run with nothing before it is malformed.
    assert!(unescape_binary(&[b'*', 32]).is_none());
    // A dangling escape is malformed.
    assert!(unescape_binary(&[b'}']).is_none());
}

#[test]
fn hex_parsing_exact_values() {
    assert_eq!(parse_hex_u64(b"0"), Some(0));
    assert_eq!(parse_hex_u64(b"ff"), Some(255));
    assert_eq!(parse_hex_u64(b"DEADbeef"), Some(0xdead_beef));
    assert_eq!(parse_hex_u64(b"ffffffffffffffff"), Some(u64::MAX));
    assert_eq!(parse_hex_u64(b"10000000000000000"), None);
    assert_eq!(parse_hex_u64(b""), None);
    assert_eq!(parse_hex_u64(b"12g4"), None);
}

#[test]
fn hex_pair_decoding() {
    assert_eq!(decode_hex_pairs(b"deadbeef"), Some(vec![0xde, 0xad, 0xbe, 0xef]));
    assert_eq!(decode_hex_pairs(b""), Some(vec![]));
    assert_eq!(decode_hex_pairs(b"abc"), None);
    assert_eq!(decode_hex_pairs(b"zz"), None);
    assert_eq!(decode_ascii_encoded_hex_str(b"68656c70"), b"help".to_vec());
}

#[test]
fn hex_formatting_matches_width_rules() {
    let mut v: Vec<u8> = Vec::new();
    push_hex_min1(&mut v, 0);
    v.push(b'|');
    push_hex_min1(&mut v, 0x1a4);
    v.push(b'|');
    push_hex_min2(&mut v, 0);
    v.push(b'|');
    push_hex_min2(&mut v, 7);
    v.push(b'|');
    push_hex_min2(&mut v, 0xdead);
    assert_eq!(v, b"0|1a4|00|07|dead".to_vec());
    let mut w: Vec<u8> = Vec::new();
    push_hex_bytes(&mut w, &[0x00, 0xff, 0x5a]);
    assert_eq!(w, b"00ff5a".to_vec());
}

#[test]
fn signal_translation_table() {
    // No signal at all is reported as zero.
    assert_eq!(to_gdb_signum(None), 0);
    assert_eq!(to_gdb_signum(Some(0)), 0);
    // Agreeing entries.
    assert_eq!(to_gdb_signum(Some(1)), 1); // SIGHUP
    assert_eq!(to_gdb_signum(Some(2)), 2); // SIGINT
    assert_eq!(to_gdb_signum(Some(5)), 5); // SIGTRAP
    assert_eq!(to_gdb_signum(Some(11)), 11); // SIGSEGV
    // Renumbered entries.
    assert_eq!(to_gdb_signum(Some(7)), 10); // SIGBUS
    assert_eq!(to_gdb_signum(Some(10)), 30); // SIGUSR1
    assert_eq!(to_gdb_signum(Some(12)), 31); // SIGUSR2
    assert_eq!(to_gdb_signum(Some(16)), 38); // SIGSTKFLT
    assert_eq!(to_gdb_signum(Some(17)), 20); // SIGCHLD
    assert_eq!(to_gdb_signum(Some(18)), 19); // SIGCONT
    assert_eq!(to_gdb_signum(Some(19)), 17); // SIGSTOP
    assert_eq!(to_gdb_signum(Some(23)), 16); // SIGURG
    assert_eq!(to_gdb_signum(Some(29)), 23); // SIGIO
    assert_eq!(to_gdb_signum(Some(30)), 32); // SIGPWR
    assert_eq!(to_gdb_signum(Some(31)), 12); // SIGSYS
    assert_eq!(to_gdb_signum(Some(32)), 77);
    // Realtime blocks.
    assert_eq!(to_gdb_signum(Some(33)), 45);
    assert_eq!(to_gdb_signum(Some(63)), 75);
    assert_eq!(to_gdb_signum(Some(64)), 78);
    assert_eq!(to_gdb_signum(Some(127)), 141);
    // Unknown signals.
    assert_eq!(to_gdb_signum(Some(128)), 143);
    assert_eq!(to_gdb_signum(Some(-3)), 143);
}

#[test]
fn signal_translation_injective_on_domain() {
    let mut seen = [false; 256];
    for s in 0..=127 {
        let g = to_gdb_signum(Some(s)) as usize;
        assert!(!seen[g], "two signals map to {}", g);
        seen[g] = true;
    }
}

#[test]
fn open_flag_translation() {
    assert_eq!(gdb_open_flags_to_system_flags(0), 0);
    assert_eq!(gdb_open_flags_to_system_flags(1), HOST_O_WRONLY);
    assert_eq!(gdb_open_flags_to_system_flags(2), HOST_O_RDWR);
    assert_eq!(
        gdb_open_flags_to_system_flags(0x209),
        HOST_O_WRONLY | HOST_O_APPEND | HOST_O_CREAT
    );
    assert_eq!(
        gdb_open_flags_to_system_flags(0xe02),
        HOST_O_RDWR | HOST_O_CREAT | HOST_O_TRUNC | HOST_O_EXCL
    );
}

#[test]
fn errno_translation() {
    assert_eq!(to_gdb_errno(1), 1); // EPERM
    assert_eq!(to_gdb_errno(2), 2); // ENOENT
    assert_eq!(to_gdb_errno(13), 13); // EACCES
    assert_eq!(to_gdb_errno(36), 91); // ENAMETOOLONG is renumbered
    assert_eq!(to_gdb_errno(99), 9999); // anything untranslated
    assert_eq!(to_gdb_errno(0), 9999);
}

#[test]
fn lexical_key_round_trips() {
    let k = LexicalKey128::new(0x0102_0304_0506_0708, 0xfedc_ba98_7654_3210);
    assert_eq!(k.key1(), 0x0102_0304_0506_0708);
    assert_eq!(k.key2(), 0xfedc_ba98_7654_3210);
    let z = LexicalKey128::new(0, u64::MAX);
    assert_eq!(z.key1(), 0);
    assert_eq!(z.key2(), u64::MAX);
}
