use double_dot_state::registration::{add_double_state, RegistrationError};
use double_dot_state::topology::{TopologyError, VariantDecl};

const MAIN_MENU: usize = 1;
const PLAYING: usize = 2;
const PAUSED: usize = 3;
const EXIT: usize = 4;

fn variant(linear: Option<usize>, arbitrary: Vec<usize>, is_default: bool) -> VariantDecl {
    VariantDecl { linear_successor: linear, arbitrary_successors: arbitrary, is_default }
}

fn five_states() -> Vec<VariantDecl> {
    vec![
        variant(Some(MAIN_MENU), vec![], false),
        variant(None, vec![PLAYING, EXIT], false),
        variant(Some(PAUSED), vec![], true),
        variant(None, vec![MAIN_MENU, EXIT], false),
        variant(None, vec![], false),
    ]
}

#[test]
fn fresh_state_type_starts_in_its_default() {
    let registration = add_double_state(false, five_states()).unwrap();
    assert_eq!(registration.initial_state, PLAYING);
    assert_eq!(registration.topology.default_state(), PLAYING);
    assert_eq!(registration.topology.variant_count(), 5);
    assert_eq!(registration.topology.resolve_linear(registration.initial_state), Ok(PAUSED));
}

#[test]
fn second_registration_is_refused() {
    assert_eq!(
        add_double_state(true, five_states()).unwrap_err(),
        RegistrationError::AlreadyRegistered
    );
}

#[test]
fn second_registration_is_refused_before_the_declarations_are_read() {
    assert_eq!(add_double_state(true, vec![]).unwrap_err(), RegistrationError::AlreadyRegistered);
}

#[test]
fn malformed_topology_is_refused_at_registration() {
    let mut decls = five_states();
    decls[PLAYING].is_default = false;
    assert_eq!(
        add_double_state(false, decls).unwrap_err(),
        RegistrationError::MalformedTopology(TopologyError::NoDefault)
    );
    let mut decls = five_states();
    decls[EXIT].is_default = true;
    assert_eq!(
        add_double_state(false, decls).unwrap_err(),
        RegistrationError::MalformedTopology(TopologyError::MultipleDefaults)
    );
    let mut decls = five_states();
    decls[EXIT].linear_successor = Some(5);
    assert_eq!(
        add_double_state(false, decls).unwrap_err(),
        RegistrationError::MalformedTopology(TopologyError::UndefinedLinearSuccessor(EXIT))
    );
    let mut decls = five_states();
    decls[MAIN_MENU].arbitrary_successors.push(5);
    assert_eq!(
        add_double_state(false, decls).unwrap_err(),
        RegistrationError::MalformedTopology(TopologyError::UndefinedArbitrarySuccessor(MAIN_MENU))
    );
}
