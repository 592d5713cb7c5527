//! What a worker announces and checks.

use ds4::worker::{
    check_save_tokens, snapshot_failure, worker_hello, worker_model_name, worker_plan, SliceMeta,
    SnapshotSave, SnapshotStep, UNKNOWN_MODEL_NAME,
};

const MAX_MODEL_NAME: u32 = 256;
const FLASH: &str = "flash";

fn meta() -> SliceMeta {
    SliceMeta {
        model_id: 7,
        n_layers: 43,
        ctx_size: 4096,
        layer_start: 20,
        layer_end: 42,
        has_output: true,
    }
}

#[test]
fn worker_hello_matches_c_field_assignment() {
    let hello = worker_hello(&meta(), 2, 7100, FLASH, MAX_MODEL_NAME);
    assert_eq!(hello.model_id, 7);
    assert_eq!(hello.quant_bits, 2);
    assert_eq!(hello.layer_start, 20);
    assert_eq!(hello.layer_end, 42);
    assert_eq!(hello.has_output, 1);
    assert_eq!(hello.has_hidden, 1);
    assert_eq!(hello.ctx_size, 4096);
    assert_eq!(hello.n_layers, 43);
    assert_eq!(hello.listen_port, 7100);
    assert_eq!(hello.model_name_len, FLASH.len() as u32);

    let empty = worker_hello(&meta(), 2, 7100, "", MAX_MODEL_NAME);
    assert_eq!(empty.model_name_len, UNKNOWN_MODEL_NAME.len() as u32);
}

#[test]
fn worker_plan_matches_hello_and_layer_range() {
    let meta = meta();
    let plan = worker_plan(&meta, 2, 7100, FLASH, MAX_MODEL_NAME);
    assert_eq!(plan.hello.model_id, 7);
    assert_eq!(plan.hello.quant_bits, 2);
    assert_eq!(plan.hello.layer_start, meta.layer_start);
    assert_eq!(plan.hello.layer_end, meta.layer_end);
    assert_eq!(plan.hello.has_output, 1);
    assert_eq!(plan.hello.has_hidden, 1);
    assert_eq!(plan.hello.listen_port, 7100);
    assert_eq!(plan.model_name, FLASH);
    assert_eq!(plan.hello.model_name_len, FLASH.len() as u32);
}

#[test]
fn names_are_cut_and_never_empty() {
    assert_eq!(worker_model_name(""), "unknown");
    assert_eq!(worker_model_name("한"), "한");
    assert_eq!(worker_hello(&meta(), 2, 1, "한글", 5).model_name_len, 5);
    assert_eq!(worker_hello(&meta(), 2, 1, "한글", 9).model_name_len, 6);
    assert_eq!(worker_plan(&meta(), 2, 1, "", 9).model_name, "unknown");
}

#[test]
fn save_token_checks_match_c() {
    let hash = 0x1234_5678_9abc_def0;
    let request = SnapshotSave {
        session_id: 1,
        token_count: 3,
        token_hash: hash,
    };
    assert!(check_save_tokens(3, hash, &request).is_ok());
    assert_eq!(
        check_save_tokens(
            3,
            hash,
            &SnapshotSave {
                token_count: 2,
                ..request
            }
        )
        .unwrap_err(),
        "worker snapshot token count mismatch"
    );
    assert_eq!(
        check_save_tokens(
            3,
            hash,
            &SnapshotSave {
                token_hash: hash.wrapping_add(1),
                ..request
            }
        )
        .unwrap_err(),
        "worker snapshot token hash mismatch"
    );
    assert_eq!(
        snapshot_failure(SnapshotStep::Load),
        "failed to restore worker KV shard"
    );
}
