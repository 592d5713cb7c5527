use ds4::batch::{
    admission_reply, cont_sample_token, override_reply, token_reply, ContAdmit, ContDriver,
    LivePrompts, CONT_SAMPLE_GREEDY, CONT_SAMPLE_NONE,
};
use ds4::mapped::{mappable_len, page_size, MapError, MappedFile, MIN_MODEL_BYTES};
use ds4::model::{
    c_err, check_created, cstring_path, cstring_payload_path, fail, pack_bind_plan,
    pack_host_bind_map, pack_tensor_dir, Backend, Error, Shard, TensorInventory,
};
use ds4::session::{
    after_payload_load, after_snapshot_load, chat_texts, check_save_payload, check_saved_prefix,
    check_snapshot, check_sync, encode_capacity, host_backend, prefill_cap, score_count,
    scores_kept, top_logprobs, written_tokens, PrefillCheckpoint, SessionBackend, SessionKind,
    SyncPlan, TokenBuffer, TokenScore,
};
use ds4::vocab::{bools_to_u8, pack_host_vocab, SpecialIds, Vocab};
use ds4::shape::{BindPlan, BindSlot, LayerRule, ModelFamily, Shape, TensorInfo, Variant};

#[test]
fn token_buffer_round_trip() {
    let mut buf = TokenBuffer::new();
    buf.push(1);
    buf.push(2);
    assert_eq!(buf.as_slice(), &[1, 2]);
    assert_eq!(buf.len(), 2);
}

#[test]
fn an_empty_token_buffer() {
    assert!(TokenBuffer::new().is_empty());
    assert!(TokenBuffer::default().is_empty());
    assert!(!TokenBuffer::from_tokens(vec![0]).is_empty());
    assert_eq!(TokenBuffer::from_tokens(vec![9]).as_slice(), &[9]);
}

#[test]
fn backend_codes_match_bridge_header() {
    assert_eq!(Backend::Cuda.to_c(), 0);
    assert_eq!(Backend::Metal.to_c(), 1);
    assert_eq!(Backend::Cpu.to_c(), 2);
}

#[test]
fn path_rejects_embedded_nul() {
    let err = cstring_path("a\0b").unwrap_err();
    assert_eq!(err.code, 1);
    assert!(err.message.contains("NUL"));
}

#[test]
fn payload_path_preserves_non_utf8_bytes() {
    let bytes = b"/tmp/ds4-payload-\xff";
    assert_eq!(cstring_payload_path(bytes).unwrap(), bytes);
}

#[test]
fn payload_path_rejects_embedded_nul_with_specific_error() {
    let err = cstring_payload_path(b"/tmp/ds4-payload-\0suffix").unwrap_err();
    assert_eq!(err.code, 1);
    assert_eq!(err.message, "payload path contains NUL");
}

#[test]
fn scopes_exact_prefix() {
    let tokens = TokenBuffer::from_tokens(vec![10, 20, 30, 40]);
    let mut seen = Vec::new();
    for (current, total) in [(-1, 4), (0, 4), (2, 4), (2, 3), (4, 4), (5, 4)] {
        if let Some(c) = PrefillCheckpoint::from_report(tokens.as_slice(), current, total) {
            seen.push((c.current(), c.total(), c.tokens().to_vec()));
        }
    }
    assert_eq!(
        seen,
        vec![
            (0, 4, vec![]),
            (2, 4, vec![10, 20]),
            (4, 4, vec![10, 20, 30, 40]),
        ]
    );
}

#[test]
fn errors_as_text() {
    assert_eq!(Error::host("no model").to_text(), "ds4 bridge error 1: no model");
    assert_eq!(Error { code: -3, message: String::new() }.to_text(), "ds4 bridge error -3");
    assert_eq!(c_err(b"bad file\0rest"), "bad file");
    assert_eq!(c_err(b"no end"), "no end");
    assert_eq!(c_err(b"a\xffb\0"), "a\u{fffd}b");
    let e = fail(7, b"lost\0\0\0");
    assert_eq!((e.code, e.message.as_str()), (7, "lost"));
}

#[test]
fn backend_names() {
    assert_eq!(Backend::Cuda.label(), "Cuda");
    assert_eq!(Backend::Metal.label(), "Metal");
    assert_eq!(Backend::Cpu.label(), "Cpu");
    assert_eq!(host_backend(Backend::Cpu), SessionBackend::Cpu);
    assert_eq!(host_backend(Backend::Cuda), SessionBackend::Cuda);
    assert_eq!(host_backend(Backend::Metal), SessionBackend::Cuda);
}

#[test]
fn syncs_are_refused_for_the_first_reason() {
    let plan = |bounds, fence| SyncPlan { bounds, fence };
    assert!(check_sync(4, &plan(false, false)).is_ok());
    assert_eq!(
        check_sync(i32::MAX as usize + 1, &plan(true, true)).unwrap_err().message,
        "token buffer exceeds i32 length"
    );
    assert_eq!(check_sync(4, &plan(true, true)).unwrap_err().message, "prompt exceeds context");
    assert_eq!(
        check_sync(4, &plan(false, true)).unwrap_err().message,
        "whole-prompt prefill fenced"
    );
}

#[test]
fn snapshots_go_back_into_the_same_kind_of_session() {
    let live = SessionKind {
        family: ModelFamily::DeepSeek4,
        backend: SessionBackend::Cpu,
        ctx: 4096,
        prefill_cap: 512,
    };
    assert!(check_snapshot(Some(live), &live).is_ok());
    assert_eq!(check_snapshot(None, &live).unwrap_err().message, "session snapshot is empty");
    for other in [
        SessionKind { ctx: 8192, ..live },
        SessionKind { prefill_cap: 256, ..live },
        SessionKind { backend: SessionBackend::Cuda, ..live },
        SessionKind { family: ModelFamily::Motif3, ..live },
    ] {
        assert_eq!(
            check_snapshot(Some(other), &live).unwrap_err().message,
            "session snapshot belongs to an incompatible session"
        );
    }
}

#[test]
fn the_ledger_after_a_load() {
    let ok = after_snapshot_load(0, 7);
    assert_eq!((ok.clear, ok.generation), (false, 7));
    let failed = after_snapshot_load(1, 8);
    assert_eq!((failed.clear, failed.generation), (true, 8));
    assert!(!after_payload_load(0, 1, 2).clear);
    assert!(!after_payload_load(5, 2, 2).clear);
    let begun = after_payload_load(5, 2, 3);
    assert_eq!((begun.clear, begun.generation), (true, 3));
}

#[test]
fn payloads_must_hold_the_tokens_of_the_ledger() {
    assert!(check_save_payload(true).is_ok());
    assert_eq!(
        check_save_payload(false).unwrap_err().message,
        "session has no valid checkpoint to save"
    );
    assert!(check_saved_prefix(&[1, 2, u32::MAX], &[1, 2, -1]).is_ok());
    for (saved, live) in [(&[1u32, 2][..], &[1i32][..]), (&[1, 2], &[1, 3])] {
        assert_eq!(
            check_saved_prefix(saved, live).unwrap_err().message,
            "host/native token mismatch"
        );
    }
}

#[test]
fn small_bounds() {
    assert_eq!((prefill_cap(-1), prefill_cap(0), prefill_cap(64)), (0, 0, 64));
    assert_eq!((score_count(0), score_count(20), score_count(999)), (0, 20, 128));
    assert_eq!((scores_kept(-1, 4), scores_kept(3, 4), scores_kept(9, 4)), (0, 3, 4));
    assert_eq!(encode_capacity(10, 20), 286);
}

#[test]
fn head_of_a_distribution() {
    let scores: Vec<TokenScore> = (0..130)
        .map(|id| TokenScore {
            id,
            logit_bits: (id as f32).to_bits(),
            logprob_bits: (-(id as f32)).to_bits(),
        })
        .collect();
    let head = |k: usize, n: i32| top_logprobs(k, n, &scores[..score_count(k)]);
    for n in [-1, 0, 1, 128] {
        assert!(head(0, n).is_empty());
    }
    assert!(head(20, 0).is_empty());
    assert!(head(20, -3).is_empty());
    assert_eq!(head(20, 3), scores[..3]);
    assert_eq!(head(1, 1), scores[..1]);
    assert_eq!(head(4, 9), scores[..4]);
    assert_eq!(head(999, 128), scores[..128]);
    assert_eq!(f32::from_bits(head(4, 4)[3].logprob_bits), -3.0);
}

#[test]
fn overrides_and_admissions() {
    assert_eq!((CONT_SAMPLE_NONE, CONT_SAMPLE_GREEDY), (0, 1));
    assert_eq!(cont_sample_token(0), 2);
    assert_eq!(cont_sample_token(40), 42);
    let a = ContAdmit::cold(3, vec![1, 2], 16);
    assert_eq!((a.user, a.tokens.as_slice(), a.max_new, a.eos), (3, &[1, 2][..], 16, -1));
    assert_eq!(f32::from_bits(a.temperature_bits), 0.0);
    assert_eq!((a.top_k, a.seed, a.place_bank, a.n_cached, a.fork_bank), (0, 0, 0, 0, 0));
}

#[test]
fn prompts_live_until_they_are_done() {
    let mut live = LivePrompts::new();
    assert!(live.get(1).is_none());
    live.insert(1, vec![5, 6]);
    live.insert(2, vec![7]);
    assert_eq!(live.get(1), Some(&vec![5, 6]));
    live.insert(1, vec![8]);
    assert_eq!(live.get(1), Some(&vec![8]));
    live.done(1);
    assert!(live.get(1).is_none());
    assert_eq!(live.get(2), Some(&vec![7]));
}

#[test]
fn files_that_can_be_mapped() {
    assert_eq!(MIN_MODEL_BYTES, 32);
    assert_eq!(mappable_len(31), Err(MapError::TooSmall));
    assert_eq!(mappable_len(32), Ok(32));
    assert_eq!(mappable_len(u64::MAX), Err(MapError::TooLarge));
    assert_eq!(MappedFile::from_bytes(&[0; 8]).err(), Some(MapError::TooSmall));
    let bytes = [7u8; 40];
    let map = MappedFile::from_bytes(&bytes).ok().unwrap();
    assert_eq!(map.as_slice(), &bytes);
    assert!(std::ptr::eq(map.as_slice().as_ptr(), bytes.as_ptr()));
    assert_eq!((page_size(-1), page_size(0), page_size(16384)), (4096, 4096, 16384));
}

fn shape() -> Shape {
    Shape {
        name: "tiny".to_string(),
        family: ModelFamily::DeepSeek4,
        variant: Variant::Flash,
        family_code: 0,
        variant_code: 0,
        model_id: 0,
        n_layer: 1,
        n_embd: 8,
        n_vocab: 16,
        n_head: 2,
        n_head_kv: 1,
        n_head_dim: 4,
        n_value_dim: 4,
        n_rot: 2,
        n_lora_q: 4,
        n_lora_o: 4,
        n_out_group: 1,
        n_expert: 2,
        n_expert_used: 1,
        n_ff_exp: 8,
        n_ff_shexp: 8,
        n_ff_dense: 8,
        n_leading_dense: 0,
        n_hash_layer: 0,
        n_indexer_head: 1,
        n_indexer_head_dim: 4,
        n_hc: 1,
        n_noise_head: 0,
        n_kv_lora: 4,
        n_nextn_predict: 0,
        n_swa_head: 1,
        n_swa_kv_lora: 4,
        n_key_mla: 4,
        n_swa_key_mla: 4,
        n_value_mla: 4,
        n_kda_head_dim: 4,
        n_ssm_conv: 4,
        use_qk_norm: false,
        layers: vec![LayerRule { full_attention: false, gqa: false, compress_ratio: 0 }],
    }
}

fn tensor(name: &str) -> TensorInfo {
    TensorInfo {
        name: name.to_string(),
        ndim: 2,
        dim: [4, 8, 0, 0, 0, 0, 0, 0],
        typ: 8,
        rel_offset: 64,
        abs_offset: 1088,
        elements: 32,
        bytes: 34,
        shard: 1,
    }
}

fn slot(name: &str, required: bool, index: Option<u32>, found: bool) -> BindSlot {
    BindSlot {
        name: name.to_string(),
        required,
        index,
        tensor: if found { Some(tensor(name)) } else { None },
    }
}

fn inventory(name: &str, path: &str) -> TensorInventory {
    TensorInventory {
        tensors: vec![tensor(name)],
        shards: vec![Shard { path: path.to_string(), size: 4096, base: 0 }],
        data_pos: 1024,
        alignment: 32,
        page: 4096,
    }
}

#[test]
fn plans_are_packed_slot_by_slot() {
    let plan = BindPlan {
        shape: shape(),
        slots: vec![slot("a", true, Some(3), true), slot("b", false, None, false)],
    };
    let looks = pack_host_bind_map(&plan).unwrap();
    assert_eq!(looks.len(), 2);
    assert_eq!((looks[0].name.as_slice(), looks[0].required, looks[0].found, looks[0].index), (&b"a"[..], 1, 1, 3));
    assert_eq!((looks[1].required, looks[1].found, looks[1].index), (0, 0, u32::MAX));

    let packed = pack_bind_plan(&plan, &inventory("a", "/m.gguf")).unwrap();
    assert_eq!((packed.data_pos, packed.alignment, packed.page), (1024, 32, 4096));
    assert_eq!((packed.slots[0].ndim, packed.slots[0].typ, packed.slots[0].shard), (2, 8, 1));
    assert_eq!(packed.slots[0].dim, [4, 8, 0, 0, 0, 0, 0, 0]);
    assert_eq!((packed.slots[0].rel_offset, packed.slots[0].abs_offset, packed.slots[0].bytes), (64, 1088, 34));
    assert_eq!((packed.slots[1].found, packed.slots[1].ndim, packed.slots[1].bytes), (0, 0, 0));
    assert_eq!((packed.shards[0].path.as_slice(), packed.shards[0].size), (&b"/m.gguf"[..], 4096));

    let dir = pack_tensor_dir(&inventory("a", "/m.gguf")).unwrap();
    assert_eq!((dir[0].name.as_slice(), dir[0].ndim, dir[0].abs_offset), (&b"a"[..], 2, 1088));
}

#[test]
fn names_and_paths_hold_no_nul() {
    let bad = BindPlan { shape: shape(), slots: vec![slot("a\0", true, None, true)] };
    let good = BindPlan { shape: shape(), slots: vec![slot("a", true, None, true)] };
    assert_eq!(pack_host_bind_map(&bad).unwrap_err().message, "bind slot name contains NUL");
    assert_eq!(
        pack_bind_plan(&bad, &inventory("a", "/m\0")).unwrap_err().message,
        "bind slot name contains NUL"
    );
    assert_eq!(
        pack_bind_plan(&good, &inventory("a", "/m\0")).unwrap_err().message,
        "shard path contains NUL"
    );
    assert_eq!(
        pack_tensor_dir(&inventory("a\0", "/m")).unwrap_err().message,
        "tensor name contains NUL"
    );
}

#[test]
fn flags_as_bytes() {
    let mut flags = [false; 256];
    flags[3] = true;
    let out = bools_to_u8(&flags);
    assert_eq!((out[2], out[3], out[255]), (0, 1, 0));
}

#[test]
fn the_last_bound_slot_of_a_name_counts() {
    let mut second = slot("a", true, None, true);
    second.tensor.as_mut().unwrap().typ = 1;
    let plan = BindPlan {
        shape: shape(),
        slots: vec![slot("a", true, None, true), second, slot("a", false, None, false)],
    };
    assert_eq!(plan.tensor("a").unwrap().typ, 1);
    assert!(plan.tensor("b").is_none());
    assert!(plan.missing_required().is_none());
    let lacking = BindPlan {
        shape: shape(),
        slots: vec![slot("x", false, None, false), slot("y", true, None, false)],
    };
    assert_eq!(lacking.missing_required().unwrap(), "y");
}

#[test]
fn the_engine_hands_something_over_or_says_why_not() {
    assert!(check_created("ds4_bridge_session_create", 0, b"", false).is_ok());
    let e = check_created("ds4_bridge_session_create", 0, b"", true).unwrap_err();
    assert_eq!((e.code, e.message.as_str()), (1, "ds4_bridge_session_create returned NULL"));
    let e = check_created("ds4_bridge_session_create", 5, b"full\0", true).unwrap_err();
    assert_eq!((e.code, e.message.as_str()), (5, "full"));
}

#[test]
fn chat_texts_hold_no_nul() {
    let t = chat_texts(Some("be brief"), "h\u{e9}").unwrap();
    assert_eq!((t.system.as_deref(), t.prompt.as_slice()), (Some(&b"be brief"[..]), "h\u{e9}".as_bytes()));
    assert_eq!(t.capacity, 8 + 3 + 256);
    let t = chat_texts(None, "").unwrap();
    assert_eq!((t.system, t.capacity), (None, 256));
    assert_eq!(chat_texts(Some("a\0"), "b\0").unwrap_err().message, "system contains NUL");
    assert_eq!(chat_texts(Some("a"), "b\0").unwrap_err().message, "prompt contains NUL");
    assert_eq!(written_tokens(vec![1, 2, 3], 2).as_slice(), &[1, 2]);
    assert_eq!(written_tokens(vec![1, 2, 3], 9).as_slice(), &[1, 2, 3]);
    assert!(written_tokens(vec![1, 2, 3], -1).is_empty());
}

struct Driver;

impl ContDriver for Driver {
    fn next_admission(&mut self) -> Option<ContAdmit> {
        None
    }

    fn on_token(&mut self, _user: usize, _token: i32) -> bool {
        true
    }

    fn on_done(&mut self, _user: usize, _tokens: &[i32], _finish: i32) {}
}

#[test]
fn drivers_and_their_replies() {
    let mut d = Driver;
    assert_eq!(d.sample_override(1), CONT_SAMPLE_NONE);
    assert!(d.alive(1) && d.on_admitted(1, 0, 0, 0));
    assert_eq!((token_reply(Some(true)), token_reply(Some(false)), token_reply(None)), (1, 0, 0));
    assert_eq!(
        (admission_reply(Some(true)), admission_reply(Some(false)), admission_reply(None)),
        (1, 0, 1)
    );
    assert_eq!((override_reply(Some(9)), override_reply(None)), (9, CONT_SAMPLE_NONE));
    let mut live = LivePrompts::new();
    assert!(live.admitted(None).is_none());
    let mut a = ContAdmit::cold(4, vec![7, 8, 9], 16);
    a.seed = 11;
    a.place_bank = 2;
    let q = live.admitted(Some(a)).unwrap();
    assert_eq!((q.user, q.n, q.max_new, q.eos, q.seed, q.place_bank), (4, 3, 16, -1, 11, 2));
    assert_eq!(live.get(4), Some(&vec![7, 8, 9]));
}

#[test]
fn vocabularies_are_counted() {
    let ids = SpecialIds {
        bos_id: 0,
        eos_id: 1,
        system_id: 2,
        eot_id: 3,
        im_start_id: 4,
        im_content_id: 5,
        im_end_id: 6,
        user_id: 7,
        assistant_id: 8,
        start_of_turn_id: 9,
        end_of_turn_id: 10,
        tool_id: 11,
        reference_id: 12,
        plan_start_id: 13,
        plan_end_id: 14,
        observation_id: 15,
        sop_id: 16,
        think_start_id: 17,
        think_end_id: 18,
        tool_call_start_id: 19,
        tool_call_end_id: 20,
        tool_response_start_id: 21,
        tool_response_end_id: 22,
        arg_key_start_id: 23,
        arg_key_end_id: 24,
        arg_value_start_id: 25,
        latent_start_id: 26,
        latent_pad_id: 27,
        latent_end_id: 28,
        tool_schema_start_id: 29,
        tool_schema_end_id: 30,
        dsml_id: 31,
        dots3_endofsystem_id: 32,
        dots3_endofuser_id: 33,
        dots3_endoftext_id: 34,
    };
    let mut first = [false; 256];
    first[60] = true;
    let v = Vocab {
        tokens: vec![b"a".to_vec(), b"b".to_vec(), b"<x>".to_vec()],
        merges: vec![b"a b".to_vec()],
        user_defined_ids: vec![2],
        user_defined_max_len: 3,
        user_defined_first: first,
        motif3_added_first: [false; 256],
        ids,
    };
    let h = pack_host_vocab(&v);
    assert_eq!((h.n_vocab, h.n_merges, h.n_user_defined, h.user_defined_max_len), (3, 1, 1, 3));
    assert_eq!((h.user_defined_first[60], h.user_defined_first[61], h.motif3_added_first[60]), (1, 0, 0));
    assert_eq!(h.ids, ids);
}
