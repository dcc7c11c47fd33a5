//! The persisted form of a VM record: a JSON object with a fixed field
//! order, written and read only by this library. `parse_vm_spec` inverts
//! `encode_vm_spec` exactly (`lemma_parse_encode_vm`), which is what makes
//! catalog round trips provable.
use crate::codec::{
    dec_rep, esc, expect_lit, is_digit_char, parse_str_at, parse_u64_at, push_dec_u64, push_esc,
    sp_lit, sp_str, sp_u64, lemma_sp_lit, lemma_sp_str_round, lemma_sp_u64_round,
};
use crate::models::{Vm, VmConfig, VmConfigView, VmState, VmView};
use crate::text::chars_to_string;
use vstd::prelude::*;

verus! {

// ------------------------------------------------------------------
// specification
// ------------------------------------------------------------------

pub open spec fn parse_state(v: Seq<char>) -> Option<VmState> {
    if v == "created"@ {
        Some(VmState::Created)
    } else if v == "running"@ {
        Some(VmState::Running)
    } else if v == "paused"@ {
        Some(VmState::Paused)
    } else if v == "stopped"@ {
        Some(VmState::Stopped)
    } else {
        None
    }
}

/// A labelled, quoted, escaped string field followed by `rest`. The label
/// carries the opening quote; the closing quote is written here.
pub open spec fn enc_field_str(label: Seq<char>, x: Seq<char>, rest: Seq<char>) -> Seq<char> {
    label + (esc(x) + seq!['"'] + rest)
}

/// A labelled decimal field followed by `rest`.
pub open spec fn enc_field_u64(label: Seq<char>, n: nat, rest: Seq<char>) -> Seq<char> {
    label + (dec_rep(n) + rest)
}

pub open spec fn encode_vm_spec(v: VmView) -> Seq<char> {
    enc_field_str(
        "{\"id\":\""@,
        v.id,
        enc_field_str(
            ",\"name\":\""@,
            v.name,
            enc_field_str(
                ",\"state\":\""@,
                v.state.spec_str(),
                enc_field_u64(
                    ",\"config\":{\"vcpu_count\":"@,
                    v.config.vcpu_count as nat,
                    enc_field_u64(
                        ",\"mem_size_mib\":"@,
                        v.config.mem_size_mib as nat,
                        enc_field_str(
                            ",\"kernel_image_path\":\""@,
                            v.config.kernel_image_path,
                            enc_field_str(
                                ",\"rootfs_path\":\""@,
                                v.config.rootfs_path,
                                enc_field_str(
                                    ",\"kernel_args\":\""@,
                                    v.config.kernel_args,
                                    enc_field_str(
                                        "},\"socket_path\":\""@,
                                        v.socket_path,
                                        enc_field_str(
                                            ",\"console_socket_path\":\""@,
                                            v.console_socket_path,
                                            enc_field_str(
                                                ",\"log_path\":\""@,
                                                v.log_path,
                                                "}"@,
                                            ),
                                        ),
                                    ),
                                ),
                            ),
                        ),
                    ),
                ),
            ),
        ),
    )
}

/// Consumes a labelled string field: the label (with the opening quote),
/// then the escaped content up to the closing quote.
pub open spec fn sp_field_str(s: Seq<char>, label: Seq<char>) -> Option<(Seq<char>, Seq<char>)> {
    match sp_lit(s, label) {
        Some(r) => sp_str(r),
        None => None,
    }
}

pub open spec fn sp_field_u64(s: Seq<char>, label: Seq<char>) -> Option<(u64, Seq<char>)> {
    match sp_lit(s, label) {
        Some(r) => sp_u64(r),
        None => None,
    }
}

pub open spec fn parse_vm_spec(s: Seq<char>) -> Option<VmView> {
    match sp_field_str(s, "{\"id\":\""@) {
        None => None,
        Some((id, s1)) => match sp_field_str(s1, ",\"name\":\""@) {
            None => None,
            Some((name, s2)) => match sp_field_str(s2, ",\"state\":\""@) {
                None => None,
                Some((stv, s3)) => match parse_state(stv) {
                    None => None,
                    Some(state) => match sp_field_u64(s3, ",\"config\":{\"vcpu_count\":"@) {
                        None => None,
                        Some((vcpu, s4)) => if vcpu > u8::MAX as u64 {
                            None
                        } else {
                            match sp_field_u64(s4, ",\"mem_size_mib\":"@) {
                                None => None,
                                Some((mem, s5)) => if mem > u32::MAX as u64 {
                                    None
                                } else {
                                    match sp_field_str(s5, ",\"kernel_image_path\":\""@) {
                                        None => None,
                                        Some((kip, s6)) => match sp_field_str(
                                            s6,
                                            ",\"rootfs_path\":\""@,
                                        ) {
                                            None => None,
                                            Some((rfs, s7)) => match sp_field_str(
                                                s7,
                                                ",\"kernel_args\":\""@,
                                            ) {
                                                None => None,
                                                Some((ka, s8)) => match sp_field_str(
                                                    s8,
                                                    "},\"socket_path\":\""@,
                                                ) {
                                                    None => None,
                                                    Some((sock, s9)) => match sp_field_str(
                                                        s9,
                                                        ",\"console_socket_path\":\""@,
                                                    ) {
                                                        None => None,
                                                        Some((csock, s10)) => match sp_field_str(
                                                            s10,
                                                            ",\"log_path\":\""@,
                                                        ) {
                                                            None => None,
                                                            Some((lp, s11)) => match sp_lit(
                                                                s11,
                                                                "}"@,
                                                            ) {
                                                                None => None,
                                                                Some(rest) => if rest.len() == 0 {
                                                                    Some(
                                                                        VmView {
                                                                            id: id,
                                                                            name: name,
                                                                            state: state,
                                                                            config: VmConfigView {
                                                                                vcpu_count: vcpu as u8,
                                                                                mem_size_mib: mem as u32,
                                                                                kernel_image_path: kip,
                                                                                rootfs_path: rfs,
                                                                                kernel_args: ka,
                                                                            },
                                                                            socket_path: sock,
                                                                            console_socket_path: csock,
                                                                            log_path: lp,
                                                                        },
                                                                    )
                                                                } else {
                                                                    None
                                                                },
                                                            },
                                                        },
                                                    },
                                                },
                                            },
                                        },
                                    }
                                },
                            }
                        },
                    },
                },
            },
        },
    }
}

// ------------------------------------------------------------------
// round trip
// ------------------------------------------------------------------

pub proof fn lemma_field_str_round(label: Seq<char>, x: Seq<char>, rest: Seq<char>)
    ensures
        sp_field_str(enc_field_str(label, x, rest), label) == Some((x, rest)),
{
    lemma_sp_lit(label, esc(x) + seq!['"'] + rest);
    lemma_sp_str_round(x, rest);
}

pub proof fn lemma_field_u64_round(label: Seq<char>, n: nat, rest: Seq<char>)
    requires
        n <= u64::MAX,
        rest.len() == 0 || !is_digit_char(rest[0]),
    ensures
        sp_field_u64(enc_field_u64(label, n, rest), label) == Some((n as u64, rest)),
{
    lemma_sp_lit(label, dec_rep(n) + rest);
    lemma_sp_u64_round(n, rest);
}

pub proof fn lemma_parse_state_round(st: VmState)
    ensures
        parse_state(st.spec_str()) == Some(st),
{
    reveal_strlit("created");
    reveal_strlit("running");
    reveal_strlit("paused");
    reveal_strlit("stopped");
    assert("created"@.len() == 7);
    assert("running"@.len() == 7);
    assert("paused"@.len() == 6);
    assert("stopped"@.len() == 7);
    assert("running"@[0] == 'r' && "created"@[0] == 'c');
    assert("stopped"@[0] == 's' && "created"@[0] == 'c' && "running"@[0] == 'r');
}

/// What is written by `encode_vm_spec` is read back unchanged.
pub proof fn lemma_parse_encode_vm(v: VmView)
    ensures
        parse_vm_spec(encode_vm_spec(v)) == Some(v),
{
    let t11 = "}"@;
    let t10 = enc_field_str(",\"log_path\":\""@, v.log_path, t11);
    let t9 = enc_field_str(",\"console_socket_path\":\""@, v.console_socket_path, t10);
    let t8 = enc_field_str("},\"socket_path\":\""@, v.socket_path, t9);
    let t7 = enc_field_str(",\"kernel_args\":\""@, v.config.kernel_args, t8);
    let t6 = enc_field_str(",\"rootfs_path\":\""@, v.config.rootfs_path, t7);
    let t5 = enc_field_str(",\"kernel_image_path\":\""@, v.config.kernel_image_path, t6);
    let t4 = enc_field_u64(",\"mem_size_mib\":"@, v.config.mem_size_mib as nat, t5);
    let t3 = enc_field_u64(",\"config\":{\"vcpu_count\":"@, v.config.vcpu_count as nat, t4);
    let t2 = enc_field_str(",\"state\":\""@, v.state.spec_str(), t3);
    let t1 = enc_field_str(",\"name\":\""@, v.name, t2);
    let t0 = enc_field_str("{\"id\":\""@, v.id, t1);
    assert(encode_vm_spec(v) == t0);

    lemma_field_str_round("{\"id\":\""@, v.id, t1);
    lemma_field_str_round(",\"name\":\""@, v.name, t2);
    lemma_field_str_round(",\"state\":\""@, v.state.spec_str(), t3);
    lemma_parse_state_round(v.state);

    reveal_strlit(",\"mem_size_mib\":");
    assert(t4[0] == ',') by {
        assert(t4 == ",\"mem_size_mib\":"@ + (dec_rep(v.config.mem_size_mib as nat) + t5));
        assert(",\"mem_size_mib\":"@.len() > 0);
    }
    assert(!is_digit_char(','));
    lemma_field_u64_round(",\"config\":{\"vcpu_count\":"@, v.config.vcpu_count as nat, t4);
    assert(v.config.vcpu_count as nat <= u8::MAX as u64);

    reveal_strlit(",\"kernel_image_path\":\"");
    assert(t5[0] == ',') by {
        assert(t5 == ",\"kernel_image_path\":\""@ + (esc(v.config.kernel_image_path) + seq!['"']
            + t6));
        assert(",\"kernel_image_path\":\""@.len() > 0);
    }
    lemma_field_u64_round(",\"mem_size_mib\":"@, v.config.mem_size_mib as nat, t5);

    lemma_field_str_round(",\"kernel_image_path\":\""@, v.config.kernel_image_path, t6);
    lemma_field_str_round(",\"rootfs_path\":\""@, v.config.rootfs_path, t7);
    lemma_field_str_round(",\"kernel_args\":\""@, v.config.kernel_args, t8);
    lemma_field_str_round("},\"socket_path\":\""@, v.socket_path, t9);
    lemma_field_str_round(",\"console_socket_path\":\""@, v.console_socket_path, t10);
    lemma_field_str_round(",\"log_path\":\""@, v.log_path, t11);

    lemma_sp_lit("}"@, Seq::<char>::empty());
    assert("}"@ + Seq::<char>::empty() =~= "}"@);
    assert(sp_lit(t11, "}"@) == Some(Seq::<char>::empty()));
}

// ------------------------------------------------------------------
// executable encoder
// ------------------------------------------------------------------

/// The flat, append-order form of the encoding equals its nested form.
#[verifier::rlimit(100)]
proof fn lemma_encode_pieces(v: VmView)
    ensures
        "{\"id\":\""@ + esc(v.id) + "\",\"name\":\""@ + esc(v.name) + "\",\"state\":\""@ + esc(
            v.state.spec_str(),
        ) + "\",\"config\":{\"vcpu_count\":"@ + dec_rep(v.config.vcpu_count as nat)
            + ",\"mem_size_mib\":"@ + dec_rep(v.config.mem_size_mib as nat)
            + ",\"kernel_image_path\":\""@ + esc(v.config.kernel_image_path)
            + "\",\"rootfs_path\":\""@ + esc(v.config.rootfs_path) + "\",\"kernel_args\":\""@
            + esc(v.config.kernel_args) + "\"},\"socket_path\":\""@ + esc(v.socket_path)
            + "\",\"console_socket_path\":\""@ + esc(v.console_socket_path) + "\",\"log_path\":\""@
            + esc(v.log_path) + "\"}"@ == encode_vm_spec(v),
{
    broadcast use crate::codec::lemma_seq_add_assoc;

    reveal_strlit("\",\"name\":\"");
    reveal_strlit(",\"name\":\"");
    reveal_strlit("\",\"state\":\"");
    reveal_strlit(",\"state\":\"");
    reveal_strlit("\",\"config\":{\"vcpu_count\":");
    reveal_strlit(",\"config\":{\"vcpu_count\":");
    reveal_strlit("\",\"rootfs_path\":\"");
    reveal_strlit(",\"rootfs_path\":\"");
    reveal_strlit("\",\"kernel_args\":\"");
    reveal_strlit(",\"kernel_args\":\"");
    reveal_strlit("\"},\"socket_path\":\"");
    reveal_strlit("},\"socket_path\":\"");
    reveal_strlit("\",\"console_socket_path\":\"");
    reveal_strlit(",\"console_socket_path\":\"");
    reveal_strlit("\",\"log_path\":\"");
    reveal_strlit(",\"log_path\":\"");
    reveal_strlit("\"}");
    reveal_strlit("}");
    let q: Seq<char> = seq!['"'];
    assert("\",\"name\":\""@ =~= q + ",\"name\":\""@);
    assert("\",\"state\":\""@ =~= q + ",\"state\":\""@);
    assert("\",\"config\":{\"vcpu_count\":"@ =~= q + ",\"config\":{\"vcpu_count\":"@);
    assert("\",\"rootfs_path\":\""@ =~= q + ",\"rootfs_path\":\""@);
    assert("\",\"kernel_args\":\""@ =~= q + ",\"kernel_args\":\""@);
    assert("\"},\"socket_path\":\""@ =~= q + "},\"socket_path\":\""@);
    assert("\",\"console_socket_path\":\""@ =~= q + ",\"console_socket_path\":\""@);
    assert("\",\"log_path\":\""@ =~= q + ",\"log_path\":\""@);
    assert("\"}"@ =~= q + "}"@);
}

/// The persisted text of a record.
pub fn encode_vm(vm: &Vm) -> (r: Vec<char>)
    ensures
        r@ == encode_vm_spec(vm@),
{
    let mut out: Vec<char> = Vec::new();
    crate::text::push_str_chars(&mut out, "{\"id\":\"");
    push_esc(&mut out, vm.id.as_str());
    crate::text::push_str_chars(&mut out, "\",\"name\":\"");
    push_esc(&mut out, vm.name.as_str());
    crate::text::push_str_chars(&mut out, "\",\"state\":\"");
    push_esc(&mut out, vm.state.as_str());
    crate::text::push_str_chars(&mut out, "\",\"config\":{\"vcpu_count\":");
    push_dec_u64(&mut out, vm.config.vcpu_count as u64);
    crate::text::push_str_chars(&mut out, ",\"mem_size_mib\":");
    push_dec_u64(&mut out, vm.config.mem_size_mib as u64);
    crate::text::push_str_chars(&mut out, ",\"kernel_image_path\":\"");
    push_esc(&mut out, vm.config.kernel_image_path.as_str());
    crate::text::push_str_chars(&mut out, "\",\"rootfs_path\":\"");
    push_esc(&mut out, vm.config.rootfs_path.as_str());
    crate::text::push_str_chars(&mut out, "\",\"kernel_args\":\"");
    push_esc(&mut out, vm.config.kernel_args.as_str());
    crate::text::push_str_chars(&mut out, "\"},\"socket_path\":\"");
    push_esc(&mut out, vm.socket_path.as_str());
    crate::text::push_str_chars(&mut out, "\",\"console_socket_path\":\"");
    push_esc(&mut out, vm.console_socket_path.as_str());
    crate::text::push_str_chars(&mut out, "\",\"log_path\":\"");
    push_esc(&mut out, vm.log_path.as_str());
    crate::text::push_str_chars(&mut out, "\"}");
    proof {
        lemma_encode_pieces(vm@);
    }
    out
}

/// The persisted text of a record, as a string.
pub fn encode_vm_string(vm: &Vm) -> (r: String)
    ensures
        r@ == encode_vm_spec(vm@),
{
    let chars = encode_vm(vm);
    chars_to_string(&chars)
}

// ------------------------------------------------------------------
// executable parser
// ------------------------------------------------------------------

fn chars_eq_lit(v: &Vec<char>, l: &str) -> (r: bool)
    ensures
        r == (v@ == l@),
{
    let n = l.unicode_len();
    if v.len() != n {
        assert(v@.len() != l@.len());
        return false;
    }
    let mut k: usize = 0;
    while k < n
        invariant
            0 <= k <= n,
            n == l@.len(),
            v@.len() == n,
            forall|m: int| 0 <= m < k ==> v@[m] == l@[m],
        decreases n - k,
    {
        let c = v[k];
        let lc = l.get_char(k);
        if c != lc {
            assert(v@[k as int] != l@[k as int]);
            assert(v@ != l@);
            return false;
        }
        k = k + 1;
    }
    assert(v@ =~= l@);
    true
}

fn state_of_chars(v: &Vec<char>) -> (r: Option<VmState>)
    ensures
        r == parse_state(v@),
{
    if chars_eq_lit(v, "created") {
        Some(VmState::Created)
    } else if chars_eq_lit(v, "running") {
        Some(VmState::Running)
    } else if chars_eq_lit(v, "paused") {
        Some(VmState::Paused)
    } else if chars_eq_lit(v, "stopped") {
        Some(VmState::Stopped)
    } else {
        None
    }
}

/// Reads a record back from its persisted text. Accepts exactly what
/// `encode_vm` writes.
#[verifier::rlimit(30)]
pub fn parse_vm(s: &Vec<char>) -> (r: Option<Vm>)
    ensures
        match r {
            Some(vm) => parse_vm_spec(s@) == Some(vm@),
            None => parse_vm_spec(s@) is None,
        },
{
    proof {
        assert(s@.skip(0) =~= s@);
    }
    let i0 = match expect_lit(s, 0, "{\"id\":\"") {
        Some(j) => j,
        None => {
            return None;
        },
    };
    let (id, i1) = match parse_str_at(s, i0) {
        Some(p) => p,
        None => {
            return None;
        },
    };
    let i2 = match expect_lit(s, i1, ",\"name\":\"") {
        Some(j) => j,
        None => {
            return None;
        },
    };
    let (name, i3) = match parse_str_at(s, i2) {
        Some(p) => p,
        None => {
            return None;
        },
    };
    let i4 = match expect_lit(s, i3, ",\"state\":\"") {
        Some(j) => j,
        None => {
            return None;
        },
    };
    let (stv, i5) = match parse_str_at(s, i4) {
        Some(p) => p,
        None => {
            return None;
        },
    };
    let state = match state_of_chars(&stv) {
        Some(st) => st,
        None => {
            return None;
        },
    };
    let i6 = match expect_lit(s, i5, ",\"config\":{\"vcpu_count\":") {
        Some(j) => j,
        None => {
            return None;
        },
    };
    let (vcpu, i7) = match parse_u64_at(s, i6) {
        Some(p) => p,
        None => {
            return None;
        },
    };
    if vcpu > 255 {
        return None;
    }
    let i8 = match expect_lit(s, i7, ",\"mem_size_mib\":") {
        Some(j) => j,
        None => {
            return None;
        },
    };
    let (mem, i9) = match parse_u64_at(s, i8) {
        Some(p) => p,
        None => {
            return None;
        },
    };
    if mem > 0xffff_ffff {
        return None;
    }
    let i10 = match expect_lit(s, i9, ",\"kernel_image_path\":\"") {
        Some(j) => j,
        None => {
            return None;
        },
    };
    let (kip, i11) = match parse_str_at(s, i10) {
        Some(p) => p,
        None => {
            return None;
        },
    };
    let i12 = match expect_lit(s, i11, ",\"rootfs_path\":\"") {
        Some(j) => j,
        None => {
            return None;
        },
    };
    let (rfs, i13) = match parse_str_at(s, i12) {
        Some(p) => p,
        None => {
            return None;
        },
    };
    let i14 = match expect_lit(s, i13, ",\"kernel_args\":\"") {
        Some(j) => j,
        None => {
            return None;
        },
    };
    let (ka, i15) = match parse_str_at(s, i14) {
        Some(p) => p,
        None => {
            return None;
        },
    };
    let i16 = match expect_lit(s, i15, "},\"socket_path\":\"") {
        Some(j) => j,
        None => {
            return None;
        },
    };
    let (sock, i17) = match parse_str_at(s, i16) {
        Some(p) => p,
        None => {
            return None;
        },
    };
    let i18 = match expect_lit(s, i17, ",\"console_socket_path\":\"") {
        Some(j) => j,
        None => {
            return None;
        },
    };
    let (csock, i19) = match parse_str_at(s, i18) {
        Some(p) => p,
        None => {
            return None;
        },
    };
    let i20 = match expect_lit(s, i19, ",\"log_path\":\"") {
        Some(j) => j,
        None => {
            return None;
        },
    };
    let (lp, i21) = match parse_str_at(s, i20) {
        Some(p) => p,
        None => {
            return None;
        },
    };
    let i22 = match expect_lit(s, i21, "}") {
        Some(j) => j,
        None => {
            return None;
        },
    };
    if i22 != s.len() {
        assert(s@.skip(i22 as int).len() != 0);
        return None;
    }
    assert(s@.skip(i22 as int).len() == 0);
    let vm = Vm {
        id: chars_to_string(&id),
        name: chars_to_string(&name),
        state,
        config: VmConfig {
            vcpu_count: vcpu as u8,
            mem_size_mib: mem as u32,
            kernel_image_path: chars_to_string(&kip),
            rootfs_path: chars_to_string(&rfs),
            kernel_args: chars_to_string(&ka),
        },
        socket_path: chars_to_string(&sock),
        console_socket_path: chars_to_string(&csock),
        log_path: chars_to_string(&lp),
    };
    Some(vm)
}

/// Reads a record back from a persisted string.
pub fn parse_vm_string(s: &str) -> (r: Option<Vm>)
    ensures
        match r {
            Some(vm) => parse_vm_spec(s@) == Some(vm@),
            None => parse_vm_spec(s@) is None,
        },
{
    let chars = crate::text::string_to_chars(s);
    parse_vm(&chars)
}

} // verus!
