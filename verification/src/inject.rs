//! Remote-thread injection.
//!
//! Where no loader preload exists, the target is spawned suspended and a
//! small stub is run on a remote thread: it calls the loader's
//! library-load routine on a path written into the target, stores the
//! returned module handle, and returns zero on success or the thread's
//! last error otherwise. The functions here produce the exact stub bytes
//! and the wide path buffer, interpret the remote thread's exit code, and
//! keep the injection steps in their required order — the remote thread
//! completes before the primary thread is resumed.

use vstd::prelude::*;
use vstd::string::StrSliceExecFns;
use vstd::string::StringSliceAdditionalSpecFns;

verus! {

/// The `n` low-order bytes of `x`, least significant first.
pub open spec fn le_bytes(x: int, n: nat) -> Seq<u8>
    decreases n,
{
    if n == 0 {
        Seq::empty()
    } else {
        seq![(x % 256) as u8] + le_bytes(x / 256, (n - 1) as nat)
    }
}

/// Writes the eight little-endian bytes of `x` onto the end of `out`.
fn push_le8(out: &mut Vec<u8>, x: u64)
    ensures
        final(out)@ == old(out)@ + le_bytes(x as int, 8),
{
    let mut v: u64 = x;
    let mut k: usize = 0;
    proof {
        assert(old(out)@ + le_bytes(x as int, 0) =~= old(out)@);
    }
    while k < 8
        invariant
            k <= 8,
            out@ + le_bytes(v as int, (8 - k) as nat) == old(out)@ + le_bytes(x as int, 8),
        decreases 8 - k,
    {
        let b: u8 = (v % 256) as u8;
        let ghost v_before = v as int;
        let ghost out_before = out@;
        out.push(b);
        v = v / 256;
        k += 1;
        proof {
            assert(le_bytes(v_before, (8 - (k - 1)) as nat) == seq![(v_before % 256) as u8]
                + le_bytes(v_before / 256, (8 - k) as nat));
            assert(out@ + le_bytes(v as int, (8 - k) as nat) =~= out_before + le_bytes(
                v_before,
                (8 - (k - 1)) as nat,
            ));
        }
    }
    proof {
        assert(out@ + le_bytes(v as int, 0) =~= out@);
    }
}

/// The remote stub, byte for byte. With the stack given its 40 bytes of
/// shadow space, it calls the library-load routine at `loadlib` on the
/// pointer argument the thread receives, stores the returned module handle
/// at `hmodule`, and returns zero if the handle is non-null; otherwise it
/// returns what the last-error routine at `get_last_error` reports.
pub open spec fn stub_spec(loadlib: u64, get_last_error: u64, hmodule: u64) -> Seq<u8> {
    seq![0x48u8, 0x83u8, 0xECu8, 0x28u8]  // sub rsp, 40
     + seq![0x48u8, 0xB8u8] + le_bytes(loadlib as int, 8)  // mov rax, loadlib
     + seq![0xFFu8, 0xD0u8]  // call rax
     + seq![0xA3u8] + le_bytes(hmodule as int, 8)  // mov [hmodule], eax
     + seq![0x48u8, 0x85u8, 0xC0u8]  // test rax, rax
     + seq![0x48u8, 0xC7u8, 0xC0u8, 0x00u8, 0x00u8, 0x00u8, 0x00u8]  // mov rax, 0
     + seq![0x75u8, 0x0Cu8]  // jnz past the error path
     + seq![0x48u8, 0xB8u8] + le_bytes(get_last_error as int, 8)  // mov rax, get_last_error
     + seq![0xFFu8, 0xD0u8]  // call rax
     + seq![0x48u8, 0x83u8, 0xC4u8, 0x28u8]  // add rsp, 40
     + seq![0xC3u8]  // ret
}

/// Assembles the remote stub for the given routine and handle addresses.
pub fn build_stub(loadlib: u64, get_last_error: u64, hmodule: u64) -> (r: Vec<u8>)
    ensures
        r@ == stub_spec(loadlib, get_last_error, hmodule),
        r@.len() == 54,
{
    let mut r: Vec<u8> = Vec::new();
    r.push(0x48);
    r.push(0x83);
    r.push(0xEC);
    r.push(0x28);
    r.push(0x48);
    r.push(0xB8);
    push_le8(&mut r, loadlib);
    r.push(0xFF);
    r.push(0xD0);
    r.push(0xA3);
    push_le8(&mut r, hmodule);
    r.push(0x48);
    r.push(0x85);
    r.push(0xC0);
    r.push(0x48);
    r.push(0xC7);
    r.push(0xC0);
    r.push(0x00);
    r.push(0x00);
    r.push(0x00);
    r.push(0x00);
    r.push(0x75);
    r.push(0x0C);
    r.push(0x48);
    r.push(0xB8);
    push_le8(&mut r, get_last_error);
    r.push(0xFF);
    r.push(0xD0);
    r.push(0x48);
    r.push(0x83);
    r.push(0xC4);
    r.push(0x28);
    r.push(0xC3);
    proof {
        lemma_le_bytes_len(loadlib as int, 8);
        lemma_le_bytes_len(get_last_error as int, 8);
        lemma_le_bytes_len(hmodule as int, 8);
        assert(r@ =~= stub_spec(loadlib, get_last_error, hmodule));
    }
    r
}

/// `le_bytes` gives exactly `n` bytes.
pub proof fn lemma_le_bytes_len(x: int, n: nat)
    ensures
        le_bytes(x, n).len() == n,
    decreases n,
{
    if n > 0 {
        lemma_le_bytes_len(x / 256, (n - 1) as nat);
    }
}

/// The code units a character takes in wide (UTF-16) text: itself, or a
/// surrogate pair for the supplementary planes.
pub open spec fn utf16_units(c: char) -> Seq<u16> {
    let v = c as u32;
    if v < 0x10000 {
        seq![v as u16]
    } else {
        seq![
            (0xD800 + (v - 0x10000) / 0x400) as u16,
            (0xDC00 + (v - 0x10000) % 0x400) as u16,
        ]
    }
}

/// The little-endian bytes of a sequence of characters in wide text.
pub open spec fn wide_bytes(chars: Seq<char>) -> Seq<u8>
    decreases chars.len(),
{
    if chars.len() == 0 {
        Seq::empty()
    } else {
        wide_bytes(chars.drop_last()) + units_bytes(utf16_units(chars.last()))
    }
}

/// The little-endian bytes of a sequence of wide code units.
pub open spec fn units_bytes(units: Seq<u16>) -> Seq<u8>
    decreases units.len(),
{
    if units.len() == 0 {
        Seq::empty()
    } else {
        units_bytes(units.drop_last()) + seq![
            (units.last() % 256) as u8,
            (units.last() / 256) as u8,
        ]
    }
}

/// Encodes the agent's path for the remote write: the characters as wide
/// text, little endian, with a terminating wide NUL. Its length is what
/// must be allocated in the target for the path argument.
pub fn encode_wide_path(chars: &Vec<char>) -> (r: Vec<u8>)
    ensures
        r@ == wide_bytes(chars@) + seq![0u8, 0u8],
{
    let mut r: Vec<u8> = Vec::new();
    let mut i: usize = 0;
    proof {
        assert(chars@.subrange(0, 0) =~= Seq::<char>::empty());
        assert(r@ =~= wide_bytes(chars@.subrange(0, 0)));
    }
    while i < chars.len()
        invariant
            i <= chars.len(),
            r@ == wide_bytes(chars@.subrange(0, i as int)),
        decreases chars.len() - i,
    {
        let ghost prefix = chars@.subrange(0, i as int);
        let ghost next = chars@.subrange(0, i + 1);
        proof {
            assert(next.drop_last() =~= prefix);
            assert(next.last() == chars@[i as int]);
        }
        let c = chars[i];
        let u: u32 = c as u32;
        proof {
            broadcast use vstd::utf8::char_is_scalar;

            assert(u == chars@[i as int] as u32);
        }
        if u < 0x10000 {
            let unit: u16 = u as u16;
            r.push((unit % 256) as u8);
            r.push((unit / 256) as u8);
            proof {
                let units = utf16_units(chars@[i as int]);
                assert(units =~= seq![unit]);
                assert(units.drop_last() =~= Seq::<u16>::empty());
                assert(units_bytes(Seq::<u16>::empty()) =~= Seq::<u8>::empty());
                assert(units_bytes(units) == units_bytes(units.drop_last()) + seq![
                    (units.last() % 256) as u8,
                    (units.last() / 256) as u8,
                ]);
                assert(units_bytes(units) =~= seq![(unit % 256) as u8, (unit / 256) as u8]);
                assert(r@ =~= wide_bytes(next));
            }
        } else {
            proof {
                vstd::utf8::char_is_scalar(c);
                assert(u <= 0x10FFFF);
            }
            let v: u32 = u - 0x10000;
            proof {
                assert(v / 0x400 <= 0x3FF);
                assert(v % 0x400 <= 0x3FF);
            }
            let high: u16 = (0xD800 + v / 0x400) as u16;
            let low: u16 = (0xDC00 + v % 0x400) as u16;
            r.push((high % 256) as u8);
            r.push((high / 256) as u8);
            r.push((low % 256) as u8);
            r.push((low / 256) as u8);
            proof {
                let units = utf16_units(chars@[i as int]);
                assert(units =~= seq![high, low]);
                assert(units.drop_last() =~= seq![high]);
                assert(seq![high].drop_last() =~= Seq::<u16>::empty());
                assert(units_bytes(Seq::<u16>::empty()) =~= Seq::<u8>::empty());
                assert(units_bytes(seq![high]) == units_bytes(seq![high].drop_last()) + seq![
                    (seq![high].last() % 256) as u8,
                    (seq![high].last() / 256) as u8,
                ]);
                assert(units_bytes(seq![high]) =~= seq![(high % 256) as u8, (high / 256) as u8]);
                assert(units_bytes(units) == units_bytes(units.drop_last()) + seq![
                    (units.last() % 256) as u8,
                    (units.last() / 256) as u8,
                ]);
                assert(units_bytes(units) =~= seq![
                    (high % 256) as u8,
                    (high / 256) as u8,
                    (low % 256) as u8,
                    (low / 256) as u8,
                ]);
                assert(r@ =~= wide_bytes(next));
            }
        }
        i += 1;
    }
    proof {
        assert(chars@.subrange(0, chars@.len() as int) =~= chars@);
    }
    r.push(0);
    r.push(0);
    proof {
        assert(r@ =~= wide_bytes(chars@) + seq![0u8, 0u8]);
    }
    r
}

/// How a remote thread's exit code reads.
#[derive(Debug, PartialEq, Eq, Structural)]
pub enum RemoteOutcome {
    /// Zero: the library-load call returned a non-null handle.
    Success,
    /// The access-violation status: the stub or the load faulted.
    AccessViolation,
    /// Any other non-zero code: the loader's last error, reported as an
    /// operating-system error.
    OsError(u32),
}

/// Reads a remote thread's exit code: zero is success, the
/// access-violation status is reported as such, and any other code is the
/// operating system's error number.
pub fn interpret_remote_exit(code: u32) -> (r: RemoteOutcome)
    ensures
        code == 0 ==> r == RemoteOutcome::Success,
        code == 0xC0000005u32 ==> r == RemoteOutcome::AccessViolation,
        code != 0 && code != 0xC0000005u32 ==> r == RemoteOutcome::OsError(code),
{
    if code == 0 {
        RemoteOutcome::Success
    } else if code == 0xC0000005 {
        RemoteOutcome::AccessViolation
    } else {
        RemoteOutcome::OsError(code)
    }
}

/// The diagnostic shown for a faulted remote thread.
pub fn access_violation_message() -> (r: Vec<u8>)
    ensures
        r@ == "Exit code: (Access violation)".spec_bytes(),
{
    "Exit code: (Access violation)".as_bytes_vec()
}

/// How far one remote injection has come.
#[derive(Clone, Copy, Debug, PartialEq, Eq, Structural)]
pub enum InjectStage {
    /// The target was created with its primary thread suspended.
    SpawnedSuspended,
    /// The stub and the wide path are written into the target.
    Written,
    /// The remote thread was started on the stub.
    ThreadStarted,
    /// The remote thread completed; its exit code is known.
    ThreadDone,
    /// The primary thread was resumed.
    Resumed,
}

/// One remote injection, held to its order: write, then start the remote
/// thread, then wait for it — only a completed remote thread lets the
/// primary thread resume, so the redirect is installed before the target's
/// first instruction runs.
pub struct RemoteInjection {
    /// The last completed step.
    pub stage: InjectStage,
    /// The remote thread's exit code, once it completed.
    pub exit_code: Option<u32>,
}

impl RemoteInjection {
    /// The exit code is known exactly from the wait onwards.
    pub open spec fn wf(&self) -> bool {
        (self.stage is ThreadDone || self.stage is Resumed) <==> self.exit_code is Some
    }

    /// A target just spawned with its primary thread suspended.
    pub fn spawn_suspended() -> (r: Self)
        ensures
            r.wf(),
            r.stage is SpawnedSuspended,
    {
        RemoteInjection { stage: InjectStage::SpawnedSuspended, exit_code: None }
    }

    /// Both remote buffers — stub and wide path — are written.
    pub fn written(&mut self)
        requires
            old(self).wf(),
            old(self).stage is SpawnedSuspended,
        ensures
            final(self).wf(),
            final(self).stage is Written,
            final(self).exit_code is None,
    {
        self.stage = InjectStage::Written;
    }

    /// The remote thread was started on the stub.
    pub fn thread_started(&mut self)
        requires
            old(self).wf(),
            old(self).stage is Written,
        ensures
            final(self).wf(),
            final(self).stage is ThreadStarted,
            final(self).exit_code is None,
    {
        self.stage = InjectStage::ThreadStarted;
    }

    /// The wait returned: the remote thread completed with `code`.
    pub fn thread_done(&mut self, code: u32)
        requires
            old(self).wf(),
            old(self).stage is ThreadStarted,
        ensures
            final(self).wf(),
            final(self).stage is ThreadDone,
            final(self).exit_code == Some(code),
    {
        self.stage = InjectStage::ThreadDone;
        self.exit_code = Some(code);
    }

    /// Resumes the primary thread: allowed only once the remote thread has
    /// completed, which keeps the agent's work ahead of the target's first
    /// instruction.
    pub fn resume(&mut self)
        requires
            old(self).wf(),
            old(self).stage is ThreadDone,
        ensures
            final(self).wf(),
            final(self).stage is Resumed,
            final(self).exit_code == old(self).exit_code,
    {
        self.stage = InjectStage::Resumed;
    }
}

} // verus!
