use plonk::inject::{
    access_violation_message, build_stub, encode_wide_path, interpret_remote_exit,
    InjectStage, RemoteInjection, RemoteOutcome,
};

#[test]
fn stub_layout_is_exact() {
    let loadlib: u64 = 0x1122334455667788;
    let gle: u64 = 0x8877665544332211;
    let hmodule: u64 = 0x00000000DEADBEEF;
    let stub = build_stub(loadlib, gle, hmodule);
    assert_eq!(stub.len(), 54);
    // sub rsp, 40; mov rax, imm64
    assert_eq!(&stub[0..6], &[0x48, 0x83, 0xEC, 0x28, 0x48, 0xB8]);
    // the load routine's address, little endian
    assert_eq!(&stub[6..14], &[0x88, 0x77, 0x66, 0x55, 0x44, 0x33, 0x22, 0x11]);
    // call rax; mov [imm64], eax
    assert_eq!(&stub[14..17], &[0xFF, 0xD0, 0xA3]);
    assert_eq!(&stub[17..25], &[0xEF, 0xBE, 0xAD, 0xDE, 0x00, 0x00, 0x00, 0x00]);
    // test rax, rax; mov rax, 0; jnz over the error path
    assert_eq!(
        &stub[25..37],
        &[0x48, 0x85, 0xC0, 0x48, 0xC7, 0xC0, 0x00, 0x00, 0x00, 0x00, 0x75, 0x0C]
    );
    // mov rax, imm64 (last error routine); call rax
    assert_eq!(&stub[37..39], &[0x48, 0xB8]);
    assert_eq!(&stub[39..47], &[0x11, 0x22, 0x33, 0x44, 0x55, 0x66, 0x77, 0x88]);
    assert_eq!(&stub[47..49], &[0xFF, 0xD0]);
    // add rsp, 40; ret
    assert_eq!(&stub[49..54], &[0x48, 0x83, 0xC4, 0x28, 0xC3]);
}

#[test]
fn wide_path_is_utf16_with_nul() {
    let chars: Vec<char> = "ab".chars().collect();
    assert_eq!(encode_wide_path(&chars), vec![0x61, 0x00, 0x62, 0x00, 0x00, 0x00]);
}

#[test]
fn wide_path_encodes_surrogate_pairs() {
    // U+1F600 encodes as the surrogate pair D83D DE00.
    let chars: Vec<char> = "\u{1F600}".chars().collect();
    assert_eq!(encode_wide_path(&chars), vec![0x3D, 0xD8, 0x00, 0xDE, 0x00, 0x00]);
}

#[test]
fn wide_path_length_counts_terminator() {
    let chars: Vec<char> = "abc".chars().collect();
    assert_eq!(encode_wide_path(&chars).len(), 2 * (3 + 1));
}

#[test]
fn remote_exit_zero_is_success() {
    // The success path: the remote thread returned zero after the load call
    // handed back a non-null module handle.
    assert_eq!(interpret_remote_exit(0), RemoteOutcome::Success);
}

#[test]
fn remote_exit_access_violation_is_reported() {
    assert_eq!(interpret_remote_exit(0xC0000005), RemoteOutcome::AccessViolation);
    let msg = String::from_utf8(access_violation_message()).unwrap();
    assert!(msg.contains("Access violation"));
}

#[test]
fn other_remote_exit_codes_are_os_errors() {
    assert_eq!(interpret_remote_exit(5), RemoteOutcome::OsError(5));
}

#[test]
fn injection_steps_keep_their_order() {
    // The remote thread completes — its exit code read — before the primary
    // thread may resume.
    let mut inj = RemoteInjection::spawn_suspended();
    assert_eq!(inj.stage, InjectStage::SpawnedSuspended);
    inj.written();
    inj.thread_started();
    inj.thread_done(0);
    assert_eq!(inj.exit_code, Some(0));
    inj.resume();
    assert_eq!(inj.stage, InjectStage::Resumed);
    assert_eq!(inj.exit_code, Some(0));
}
