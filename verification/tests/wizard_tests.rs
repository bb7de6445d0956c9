use rcdir::alias_manager::{
    remove_aliases_step, set_aliases_step, AfterPreview, RemoveAliasAction, RemoveAliasEvent, RemoveAliasState,
    SetAliasAction, SetAliasContext, SetAliasEvent, SetAliasState,
};

fn run(ctx: SetAliasContext, events: Vec<SetAliasEvent>) -> (SetAliasState, Vec<SetAliasAction>) {
    let mut state = SetAliasState::AskRoot;
    let mut actions = Vec::new();
    for e in events {
        let (s, a) = set_aliases_step(ctx, state, e);
        state = s;
        actions.push(a);
    }
    (state, actions)
}

#[test]
fn set_wizard_refuses_a_conflicting_root_and_writes_after_confirmation() {
    let ctx = SetAliasContext { what_if: false, location_count: 2 };
    let (state, actions) = run(ctx, vec![
        SetAliasEvent::Begin,
        SetAliasEvent::RootEntered("ls".to_string()),
        SetAliasEvent::RootEntered("d".to_string()),
        SetAliasEvent::SubAliasesChosen(vec![true, false, true, true, false]),
        SetAliasEvent::LocationChosen(1),
        SetAliasEvent::Confirmed(true),
    ]);
    assert!(matches!(state, SetAliasState::Done));
    assert!(matches!(actions[0], SetAliasAction::PromptRoot));
    match &actions[1] {
        SetAliasAction::ReportConflict { candidate, command } => {
            assert_eq!(candidate, "ls");
            assert_eq!(command, "Get-ChildItem");
        }
        _ => panic!("expected a conflict"),
    }
    assert!(matches!(&actions[2], SetAliasAction::PromptSubAliases { root } if root == "d"));
    assert!(matches!(actions[3], SetAliasAction::PromptLocation));
    assert!(matches!(&actions[4], SetAliasAction::ShowBlock { location: 1, session_only: false, then: AfterPreview::Confirm, .. }));
    match &actions[5] {
        SetAliasAction::WriteBlock { root, checked, location } => {
            assert_eq!(root, "d");
            assert_eq!(checked, &vec![true, false, true, true, false]);
            assert_eq!(*location, 1);
        }
        _ => panic!("expected a write"),
    }
}

#[test]
fn set_wizard_what_if_and_session_only_write_nothing() {
    let choices = || vec![
        SetAliasEvent::RootEntered("d".to_string()),
        SetAliasEvent::SubAliasesChosen(vec![true; 5]),
    ];
    let mut evs = choices();
    evs.push(SetAliasEvent::LocationChosen(0));
    let (state, actions) = run(SetAliasContext { what_if: true, location_count: 2 }, evs);
    assert!(matches!(state, SetAliasState::Done));
    assert!(matches!(actions[2], SetAliasAction::ShowBlock { then: AfterPreview::Finish, .. }));
    let mut evs = choices();
    evs.push(SetAliasEvent::LocationChosen(2));
    evs.push(SetAliasEvent::Confirmed(true));
    let (state, actions) = run(SetAliasContext { what_if: false, location_count: 2 }, evs);
    assert!(matches!(state, SetAliasState::Done));
    assert!(matches!(actions[2], SetAliasAction::ShowBlock { session_only: true, then: AfterPreview::SessionOnly, .. }));
    assert!(matches!(actions[3], SetAliasAction::Ignored));
}

#[test]
fn set_wizard_cancels_and_ignores_what_does_not_apply() {
    let ctx = SetAliasContext { what_if: false, location_count: 1 };
    let (state, actions) = run(ctx, vec![
        SetAliasEvent::Confirmed(true),
        SetAliasEvent::RootEntered("x".to_string()),
        SetAliasEvent::SubAliasesChosen(vec![true]),
        SetAliasEvent::LocationChosen(5),
        SetAliasEvent::Cancelled,
        SetAliasEvent::Begin,
    ]);
    assert!(matches!(state, SetAliasState::Done));
    assert!(matches!(actions[0], SetAliasAction::Ignored));
    assert!(matches!(actions[2], SetAliasAction::Ignored));
    assert!(matches!(actions[3], SetAliasAction::Ignored));
    assert!(matches!(actions[4], SetAliasAction::ReportCancelled));
    assert!(matches!(actions[5], SetAliasAction::Ignored));
    let (_, actions) = run(ctx, vec![
        SetAliasEvent::RootEntered("x".to_string()),
        SetAliasEvent::SubAliasesChosen(vec![true; 5]),
        SetAliasEvent::LocationChosen(0),
        SetAliasEvent::Confirmed(false),
    ]);
    assert!(matches!(actions[3], SetAliasAction::ReportCancelled));
}

#[test]
fn remove_wizard_decides_from_the_choices() {
    let (s, a) = remove_aliases_step(false, 0, RemoveAliasState::Start, RemoveAliasEvent::Begin);
    assert_eq!(s, RemoveAliasState::Done);
    assert!(matches!(a, RemoveAliasAction::ReportNoAliases));
    let (s, a) = remove_aliases_step(false, 2, RemoveAliasState::Start, RemoveAliasEvent::Begin);
    assert_eq!(s, RemoveAliasState::AskProfiles);
    assert!(matches!(a, RemoveAliasAction::PromptProfiles));
    let (s, a) = remove_aliases_step(false, 2, s, RemoveAliasEvent::ProfilesChosen(vec![false, false]));
    assert_eq!(s, RemoveAliasState::Done);
    assert!(matches!(a, RemoveAliasAction::ReportNoneSelected));
    let (_, a) = remove_aliases_step(true, 2, RemoveAliasState::AskProfiles, RemoveAliasEvent::ProfilesChosen(vec![false, true]));
    assert!(matches!(a, RemoveAliasAction::ShowWhatIf { ref selected } if selected == &vec![false, true]));
    let (_, a) = remove_aliases_step(false, 2, RemoveAliasState::AskProfiles, RemoveAliasEvent::ProfilesChosen(vec![true, true]));
    assert!(matches!(a, RemoveAliasAction::RemoveFrom { .. }));
    let (s, a) = remove_aliases_step(false, 2, RemoveAliasState::AskProfiles, RemoveAliasEvent::ProfilesChosen(vec![true]));
    assert_eq!(s, RemoveAliasState::AskProfiles);
    assert!(matches!(a, RemoveAliasAction::Ignored));
    let (s, a) = remove_aliases_step(false, 2, RemoveAliasState::AskProfiles, RemoveAliasEvent::Cancelled);
    assert_eq!(s, RemoveAliasState::Done);
    assert!(matches!(a, RemoveAliasAction::ReportCancelled));
}
