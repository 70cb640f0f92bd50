use quill::style::update::{needs_restyle, text_styles_step, TextStylesAction};
use quill::view::render::{render_step, RenderAction, RenderLoop, MAX_DIVERGENCE_CT};
use quill::view::if_state::{IfState, IfStep};
use quill::view::indexed::{plan_index_update, IndexedOp};
use quill::view::keyed::{lcs, plan_keyed_update, KeyedOp};
use quill::view::local::TrackedLocals;
use quill::view::span::{finish_sequence, sequence_start_spans, NodeSpan, SequenceAction};

// One keyed list item: its key and the id of the state that was built for it.
struct Item {
    key: u64,
    state: u64,
}

// Builds a state for every key, as a first render does.
fn build(keys: &[u64], next_id: &mut u64) -> Vec<Item> {
    keys.iter()
        .map(|k| {
            *next_id += 1;
            Item { key: *k, state: *next_id }
        })
        .collect()
}

// Runs the steps of a keyed update: reused items keep their state, new ones get a new one.
fn update(prev: Vec<Item>, keys: &[u64], next_id: &mut u64) -> Vec<Item> {
    let prev_keys: Vec<u64> = prev.iter().map(|i| i.key).collect();
    let next_keys: Vec<u64> = keys.to_vec();
    let ops = plan_keyed_update(&prev_keys, &next_keys);
    let mut next: Vec<Option<u64>> = vec![None; keys.len()];
    for op in ops {
        match op {
            KeyedOp::Raze(_) => {}
            KeyedOp::Build(j) => {
                *next_id += 1;
                next[j] = Some(*next_id);
            }
            KeyedOp::Reuse(i, j) => next[j] = Some(prev[i].state),
        }
    }
    next.into_iter()
        .enumerate()
        .map(|(j, s)| Item { key: keys[j], state: s.expect("Empty state") })
        .collect()
}

#[test]
fn test_update() {
    let mut ids = 0u64;

    // Initial render
    let mut state = build(&[1, 2, 3], &mut ids);
    assert_eq!(state.len(), 3);
    assert_eq!(state[0].key, 1);
    assert_eq!(state[1].key, 2);
    assert_eq!(state[2].key, 3);
    let e1 = state[0].state;

    // Insert at start
    state = update(state, &[0, 1, 2, 3], &mut ids);
    assert_eq!(state.len(), 4);
    assert_eq!(state[0].key, 0);
    assert_eq!(state[3].key, 3);
    assert_eq!(state[1].state, e1, "Should be same entity");

    // Delete at start
    state = update(state, &[1, 2, 3], &mut ids);
    assert_eq!(state.len(), 3);
    assert_eq!(state[0].key, 1);
    assert_eq!(state[2].key, 3);
    assert_eq!(state[0].state, e1, "Should be same entity");

    // Insert at end
    state = update(state, &[1, 2, 3, 4], &mut ids);
    assert_eq!(state.len(), 4);
    assert_eq!(state[0].key, 1);
    assert_eq!(state[3].key, 4);
    assert_eq!(state[0].state, e1, "Should be same entity");

    // Delete at end
    state = update(state, &[1, 2, 3], &mut ids);
    assert_eq!(state.len(), 3);
    assert_eq!(state[0].key, 1);
    assert_eq!(state[2].key, 3);
    assert_eq!(state[0].state, e1, "Should be same entity");

    // Delete in middle
    state = update(state, &[1, 3], &mut ids);
    assert_eq!(state.len(), 2);
    assert_eq!(state[0].key, 1);
    assert_eq!(state[1].key, 3);
    assert_eq!(state[0].state, e1, "Should be same entity");

    // Insert in middle
    state = update(state, &[1, 2, 3], &mut ids);
    assert_eq!(state.len(), 3);
    assert_eq!(state[0].key, 1);
    assert_eq!(state[1].key, 2);
    assert_eq!(state[2].key, 3);
    assert_eq!(state[0].state, e1, "Should be same entity");

    // Replace in the middle
    state = update(state, &[1, 5, 3], &mut ids);
    assert_eq!(state.len(), 3);
    assert_eq!(state[0].key, 1);
    assert_eq!(state[1].key, 5);
    assert_eq!(state[2].key, 3);
    assert_eq!(state[0].state, e1, "Should be same entity");
}

#[test]
fn keyed_plan_insert_at_start() {
    let ops = plan_keyed_update(&vec![1u64, 2, 3], &vec![0u64, 1, 2, 3]);
    assert_eq!(
        ops,
        vec![KeyedOp::Build(0), KeyedOp::Reuse(0, 1), KeyedOp::Reuse(1, 2), KeyedOp::Reuse(2, 3)]
    );
}

#[test]
fn keyed_plan_replace_in_middle() {
    let ops = plan_keyed_update(&vec![1u64, 2, 3], &vec![1u64, 5, 3]);
    assert_eq!(
        ops,
        vec![KeyedOp::Reuse(0, 0), KeyedOp::Raze(1), KeyedOp::Build(1), KeyedOp::Reuse(2, 2)]
    );
}

#[test]
fn keyed_plan_nothing_in_common() {
    let ops = plan_keyed_update(&vec![1u64, 2], &vec![3u64]);
    assert_eq!(ops, vec![KeyedOp::Raze(0), KeyedOp::Raze(1), KeyedOp::Build(0)]);
    let ops = plan_keyed_update(&Vec::<u64>::new(), &Vec::<u64>::new());
    assert!(ops.is_empty());
}

#[test]
fn keyed_plan_moves_an_item() {
    // [1, 2, 3] -> [3, 1, 2]: the run [1, 2] is kept, 3 is razed and built again.
    let ops = plan_keyed_update(&vec![1u64, 2, 3], &vec![3u64, 1, 2]);
    assert_eq!(
        ops,
        vec![KeyedOp::Build(0), KeyedOp::Reuse(0, 1), KeyedOp::Reuse(1, 2), KeyedOp::Raze(2)]
    );
}

#[test]
fn lcs_finds_the_first_longest_run() {
    let a = vec![1u64, 2, 3, 4, 5];
    let b = vec![9u64, 3, 4, 5, 1, 2];
    assert_eq!(lcs(&a, 0, a.len(), &b, 0, b.len()), (2, 1, 3));
    // Two runs of the same length: the one that starts first in `a` is taken.
    let a = vec![1u64, 2, 7, 3, 4];
    let b = vec![3u64, 4, 1, 2];
    assert_eq!(lcs(&a, 0, a.len(), &b, 0, b.len()), (0, 2, 2));
    // Positions are counted from the start of each range.
    assert_eq!(lcs(&a, 3, 5, &b, 0, 4), (0, 0, 2));
    // Nothing in common.
    assert_eq!(lcs(&a, 0, 2, &b, 0, 2), (0, 0, 0));
}

#[test]
fn index_plan_grow_and_shrink() {
    assert_eq!(
        plan_index_update(2, 4),
        vec![IndexedOp::Update(0), IndexedOp::Update(1), IndexedOp::Build(2), IndexedOp::Build(3)]
    );
    assert_eq!(
        plan_index_update(3, 1),
        vec![IndexedOp::Update(0), IndexedOp::Raze(2), IndexedOp::Raze(1)]
    );
    assert_eq!(plan_index_update(0, 0), vec![]);
}

#[test]
fn if_state_steps() {
    let shown: IfState<u8, u8> = IfState::True(1);
    assert_eq!(shown.update_step(true), IfStep::UpdateTrue);
    assert_eq!(shown.update_step(false), IfStep::ReplaceWithFalse);
    let hidden: IfState<u8, u8> = IfState::False(2);
    assert_eq!(hidden.update_step(false), IfStep::UpdateFalse);
    assert_eq!(hidden.update_step(true), IfStep::ReplaceWithTrue);
}

#[test]
fn locals_keep_their_values() {
    let mut locals = TrackedLocals::new();
    assert!(!locals.is_changed());
    let first = locals.get(0, || 5u32).unwrap();
    assert_eq!(first.get(), 5);
    // A second call for the same slot shares the value; the initializer is not run.
    let mut again = locals.get(0, || 9u32).unwrap();
    assert_eq!(again.get(), 5);
    again.set(7);
    assert_eq!(first.get(), 7);
    assert!(locals.is_changed());
    assert!(first.is_changed());
    // A slot read as another type gives nothing.
    assert!(locals.get::<String, _>(0, || String::new()).is_none());
    // A new slot is appended.
    let second = locals.get(1, || "x".to_string()).unwrap();
    assert_eq!(second.get(), "x");
}

#[test]
fn locals_change_flag() {
    let mut locals = TrackedLocals::new();
    let mut value = locals.get(0, || 1i32).unwrap();
    // Setting the same value is no change.
    value.set(1);
    assert!(!locals.is_changed());
    value.set(2);
    assert!(locals.cas());
    assert!(!locals.cas());
    value.set(3);
    assert!(value.is_changed());
    locals.reset_changed();
    assert!(!locals.is_changed());
    assert!(!value.is_changed());
}

#[test]
fn style_expr_constants() {
    let e = quill::style::StyleExpr::Constant(4u8);
    assert!(matches!(e.get(), Ok(4)));
    let e = quill::style_expr::StyleExpr::Constant(-2i32);
    assert!(matches!(e.eval(), Ok(-2)));
}

#[test]
fn cursor_is_copy() {
    let c = quill::Cursor::Pointer;
    let d = c;
    assert_eq!(c, d);
    assert_ne!(c, quill::Cursor::NoCursor);
}

#[test]
fn keyed_plan_same_keys_keeps_every_state() {
    let keys = vec![4u64, 8, 15, 16];
    let ops = plan_keyed_update(&keys, &keys);
    assert_eq!(
        ops,
        vec![KeyedOp::Reuse(0, 0), KeyedOp::Reuse(1, 1), KeyedOp::Reuse(2, 2), KeyedOp::Reuse(3, 3)]
    );
}

#[test]
fn render_loop_converges_or_gives_up() {
    // Changes that shrink: build, build, then done.
    let s = RenderLoop::new();
    let (s, a) = render_step(s, 3);
    assert_eq!(a, RenderAction::Build);
    assert_eq!(s.divergence_ct, 1);
    let (s, a) = render_step(s, 1);
    assert_eq!(a, RenderAction::Build);
    assert_eq!(s.divergence_ct, 1);
    let (_, a) = render_step(s, 0);
    assert_eq!(a, RenderAction::Done);
    // Changes that never shrink: the loop gives up after the limit.
    let mut s = RenderLoop::new();
    let mut passes = 0;
    loop {
        let (next, a) = render_step(s, 2);
        passes += 1;
        s = next;
        if a != RenderAction::Build {
            assert_eq!(a, RenderAction::Diverged);
            break;
        }
    }
    assert_eq!(passes, MAX_DIVERGENCE_CT + 1);
}

#[test]
fn restyle_walk_decisions() {
    assert!(!needs_restyle(false, true, true, true));
    assert!(needs_restyle(true, true, false, false));
    assert!(!needs_restyle(true, false, false, true));
    assert!(needs_restyle(true, false, true, true));
    assert!(!needs_restyle(true, false, true, false));
    assert_eq!(text_styles_step(false, true), (TextStylesAction::Store, true));
    assert_eq!(text_styles_step(false, false), (TextStylesAction::Remove, false));
    assert_eq!(text_styles_step(true, false), (TextStylesAction::Remove, true));
}

#[test]
fn local_handles_clone_and_share() {
    let mut locals = TrackedLocals::new();
    let a = locals.get(0, || 1u8).unwrap();
    let mut b = a.clone();
    b.set(2);
    assert_eq!(a.get(), 2);
    assert!(a.is_changed());
}

fn nested_spans() -> Vec<NodeSpan> {
    vec![
        NodeSpan::Node(3),
        NodeSpan::Empty,
        NodeSpan::Fragment(vec![
            NodeSpan::Node(4),
            NodeSpan::Fragment(vec![NodeSpan::Node(5)]),
        ]),
    ]
}

#[test]
fn span_count_and_flatten() {
    assert_eq!(NodeSpan::Empty.count(), 0);
    assert_eq!(NodeSpan::Node(7).count(), 1);
    let span = NodeSpan::Fragment(nested_spans());
    assert_eq!(span.count(), 3);
    let mut out = vec![1u64];
    span.flatten(&mut out);
    assert_eq!(out, vec![1, 3, 4, 5]);
}

#[test]
fn sequence_starts_from_stored_spans_of_same_length() {
    let r = sequence_start_spans(Some(nested_spans()), 3);
    assert!(matches!(r[0], NodeSpan::Node(3)));
    assert!(matches!(r[2], NodeSpan::Fragment(_)));
    let r = sequence_start_spans(Some(nested_spans()), 2);
    assert_eq!(r.len(), 2);
    assert!(r.iter().all(|s| matches!(s, NodeSpan::Empty)));
    let r = sequence_start_spans(None, 4);
    assert_eq!(r.len(), 4);
    assert!(r.iter().all(|s| matches!(s, NodeSpan::Empty)));
}

#[test]
fn sequence_keeps_its_node_or_spawns_one() {
    let spans = nested_spans();
    match finish_sequence(&NodeSpan::Node(9), true, &spans) {
        SequenceAction::Keep(e) => assert_eq!(e, 9),
        other => panic!("expected Keep, got {:?}", other),
    }
    match finish_sequence(&NodeSpan::Node(9), false, &spans) {
        SequenceAction::Spawn(flat) => assert_eq!(flat, vec![3, 4, 5]),
        other => panic!("expected Spawn, got {:?}", other),
    }
    match finish_sequence(&NodeSpan::Empty, true, &spans) {
        SequenceAction::Spawn(flat) => assert_eq!(flat, vec![3, 4, 5]),
        other => panic!("expected Spawn, got {:?}", other),
    }
}
