use double_dot_state::prelude::{
    watch_state_event, DoubleStateEvent, DoubleStateSchedule, DoubleStateSystemConfig,
    DoubleStateTransition, ResolveError, Topology, VariantDecl,
};

const LOADING: usize = 0;
const MAIN_MENU: usize = 1;
const PLAYING: usize = 2;
const PAUSED: usize = 3;
const EXIT: usize = 4;

fn variant(linear: Option<usize>, arbitrary: Vec<usize>, is_default: bool) -> VariantDecl {
    VariantDecl { linear_successor: linear, arbitrary_successors: arbitrary, is_default }
}

fn game() -> Topology {
    Topology::new(vec![
        variant(Some(MAIN_MENU), vec![], false),
        variant(None, vec![PLAYING, EXIT], false),
        variant(Some(PAUSED), vec![], true),
        variant(None, vec![MAIN_MENU, EXIT], false),
        variant(None, vec![], false),
    ])
    .unwrap()
}

fn linear() -> DoubleStateEvent<usize> {
    DoubleStateEvent(DoubleStateTransition::Linear)
}

fn arbitrary(target: usize) -> DoubleStateEvent<usize> {
    DoubleStateEvent(DoubleStateTransition::Arbitrary(target))
}

/// One pass followed by the host's commit: the pending state, if any, becomes
/// current and the slot is cleared.
fn pass_and_commit(
    topology: &Topology,
    queue: Vec<DoubleStateEvent<usize>>,
    current: &mut usize,
) -> Result<(), ResolveError> {
    let mut slot = None;
    watch_state_event(topology, &queue, &mut slot, *current)?;
    if let Some(next) = slot {
        *current = next;
    }
    Ok(())
}

#[test]
fn last_write_wins() {
    let topology = game();
    let queue = vec![arbitrary(LOADING), linear(), arbitrary(EXIT)];
    let mut slot = None;
    assert_eq!(watch_state_event(&topology, &queue, &mut slot, PLAYING), Ok(()));
    assert_eq!(slot, topology.resolve_arbitrary(PLAYING, EXIT).ok());
    assert_eq!(slot, Some(EXIT));
}

#[test]
fn last_write_wins_over_what_the_slot_held() {
    let topology = game();
    let queue = vec![arbitrary(MAIN_MENU), linear(), arbitrary(PAUSED)];
    let mut slot = Some(EXIT);
    assert_eq!(watch_state_event(&topology, &queue, &mut slot, LOADING), Ok(()));
    assert_eq!(slot, Some(PAUSED));
}

#[test]
fn last_linear_request_wins() {
    let topology = game();
    let queue = vec![arbitrary(EXIT), arbitrary(LOADING), linear()];
    let mut slot = None;
    assert_eq!(watch_state_event(&topology, &queue, &mut slot, PLAYING), Ok(()));
    assert_eq!(slot, Some(PAUSED));
}

#[test]
fn empty_queue_leaves_an_empty_slot_empty() {
    let topology = game();
    let mut slot = None;
    assert_eq!(watch_state_event(&topology, &vec![], &mut slot, PLAYING), Ok(()));
    assert_eq!(slot, None);
}

#[test]
fn empty_queue_leaves_a_pending_state_pending() {
    let topology = game();
    let mut slot = Some(MAIN_MENU);
    assert_eq!(watch_state_event(&topology, &vec![], &mut slot, EXIT), Ok(()));
    assert_eq!(slot, Some(MAIN_MENU));
}

#[test]
fn empty_queue_asks_nothing_of_the_current_state() {
    let topology = game();
    let mut slot = Some(PAUSED);
    assert_eq!(watch_state_event(&topology, &vec![], &mut slot, 17), Ok(()));
    assert_eq!(slot, Some(PAUSED));
}

#[test]
fn single_request_is_written() {
    let topology = game();
    let mut slot = None;
    assert_eq!(watch_state_event(&topology, &vec![linear()], &mut slot, LOADING), Ok(()));
    assert_eq!(slot, Some(MAIN_MENU));
}

#[test]
fn requests_see_the_state_at_the_start_of_the_pass() {
    let topology = game();
    let queue = vec![arbitrary(LOADING), linear()];
    let mut slot = None;
    assert_eq!(watch_state_event(&topology, &queue, &mut slot, PLAYING), Ok(()));
    // The linear successor of Playing, not that of the Loading just requested.
    assert_eq!(slot, Some(PAUSED));
}

#[test]
fn repeated_linear_requests_advance_once() {
    let topology = game();
    let queue = vec![linear(), linear(), linear(), linear()];
    let mut slot = None;
    assert_eq!(watch_state_event(&topology, &queue, &mut slot, LOADING), Ok(()));
    assert_eq!(slot, Some(MAIN_MENU));
    assert_eq!(slot, topology.resolve_linear(LOADING).ok());
}

#[test]
fn linear_request_from_a_terminal_state_faults() {
    let topology = game();
    let mut slot = None;
    assert_eq!(
        watch_state_event(&topology, &vec![linear()], &mut slot, EXIT),
        Err(ResolveError::TerminalState(EXIT))
    );
    assert_eq!(slot, None);
}

#[test]
fn fault_leaves_the_slot_alone() {
    let topology = game();
    let queue = vec![arbitrary(PLAYING), linear(), arbitrary(LOADING)];
    let mut slot = Some(PAUSED);
    assert_eq!(
        watch_state_event(&topology, &queue, &mut slot, MAIN_MENU),
        Err(ResolveError::TerminalState(MAIN_MENU))
    );
    assert_eq!(slot, Some(PAUSED));
}

#[test]
fn first_fault_is_reported() {
    let topology = game();
    let queue = vec![arbitrary(PLAYING), arbitrary(9), linear(), arbitrary(11)];
    let mut slot = None;
    assert_eq!(
        watch_state_event(&topology, &queue, &mut slot, EXIT),
        Err(ResolveError::UndefinedVariant(9))
    );
    let queue = vec![linear(), arbitrary(9)];
    assert_eq!(
        watch_state_event(&topology, &queue, &mut slot, EXIT),
        Err(ResolveError::TerminalState(EXIT))
    );
    assert_eq!(slot, None);
}

#[test]
fn request_for_what_is_no_variant_faults() {
    let topology = game();
    let mut slot = Some(LOADING);
    assert_eq!(
        watch_state_event(&topology, &vec![arbitrary(5)], &mut slot, PLAYING),
        Err(ResolveError::UndefinedVariant(5))
    );
    assert_eq!(slot, Some(LOADING));
}

#[test]
fn current_state_that_is_no_variant_faults() {
    let topology = game();
    let mut slot = None;
    assert_eq!(
        watch_state_event(&topology, &vec![arbitrary(EXIT)], &mut slot, 5),
        Err(ResolveError::UndefinedVariant(5))
    );
    assert_eq!(
        watch_state_event(&topology, &vec![linear()], &mut slot, 5),
        Err(ResolveError::UndefinedVariant(5))
    );
    assert_eq!(slot, None);
}

#[test]
fn undeclared_arbitrary_target_is_written() {
    let topology = game();
    assert!(!topology.is_arbitrary_successor(LOADING, PAUSED));
    let mut slot = None;
    assert_eq!(watch_state_event(&topology, &vec![arbitrary(PAUSED)], &mut slot, LOADING), Ok(()));
    assert_eq!(slot, Some(PAUSED));
}

#[test]
fn five_state_cycle_end_to_end() {
    let topology = game();
    let mut current = topology.default_state();
    assert_eq!(current, PLAYING);

    assert_eq!(pass_and_commit(&topology, vec![linear()], &mut current), Ok(()));
    assert_eq!(current, PAUSED);

    assert!(topology.is_arbitrary_successor(PAUSED, MAIN_MENU));
    assert_eq!(pass_and_commit(&topology, vec![arbitrary(MAIN_MENU)], &mut current), Ok(()));
    assert_eq!(current, MAIN_MENU);

    assert!(topology.is_arbitrary_successor(MAIN_MENU, EXIT));
    assert_eq!(pass_and_commit(&topology, vec![arbitrary(EXIT)], &mut current), Ok(()));
    assert_eq!(current, EXIT);

    assert_eq!(
        pass_and_commit(&topology, vec![linear()], &mut current),
        Err(ResolveError::TerminalState(EXIT))
    );
    assert_eq!(current, EXIT);
}

#[test]
fn loading_reaches_the_main_menu_linearly() {
    let topology = game();
    let mut current = LOADING;
    assert_eq!(pass_and_commit(&topology, vec![linear()], &mut current), Ok(()));
    assert_eq!(current, MAIN_MENU);
    assert_eq!(pass_and_commit(&topology, vec![arbitrary(PLAYING)], &mut current), Ok(()));
    assert_eq!(current, PLAYING);
}

#[test]
fn system_config_pairs_a_schedule_with_a_transition() {
    let config = DoubleStateSystemConfig {
        schedule: DoubleStateSchedule::OnEnter(PAUSED),
        transition: DoubleStateTransition::Arbitrary(MAIN_MENU),
    };
    assert!(matches!(config.schedule, DoubleStateSchedule::OnEnter(PAUSED)));
    assert!(matches!(config.transition, DoubleStateTransition::Arbitrary(MAIN_MENU)));
    let config = DoubleStateSystemConfig::<usize> {
        schedule: DoubleStateSchedule::OnExit(LOADING),
        transition: DoubleStateTransition::Linear,
    };
    assert!(matches!(config.schedule, DoubleStateSchedule::OnExit(LOADING)));
    assert!(matches!(config.transition, DoubleStateTransition::Linear));
}

#[test]
fn event_carries_its_request() {
    let event = arbitrary(EXIT);
    let copy = event.clone();
    assert!(matches!(event.0, DoubleStateTransition::Arbitrary(EXIT)));
    assert!(matches!(copy.0, DoubleStateTransition::Arbitrary(EXIT)));
    assert_eq!(format!("{:?}", linear()), "DoubleStateEvent(Linear)");
}
