use creek::actors::{Actor, ActorHandle, ActorID};
use creek::{CreekAction, CreekActionType, CreekError, GlobalEvent, GlobalEventType};

#[derive(Clone, Debug, PartialEq)]
struct Lamp {
    lit: bool,
}

struct Clerk {
    id: Option<ActorID>,
    actions: Vec<CreekAction>,
    notes: Vec<i16>,
}

impl Actor for Clerk {
    type Event = i16;

    fn receive_event(&mut self, event: i16) {
        self.notes.push(event);
    }

    fn get_creek_actions(&self) -> &Vec<CreekAction> {
        &self.actions
    }

    fn set_id(&mut self, id: ActorID) -> Result<(), ()> {
        self.id = Some(id);
        Ok(())
    }

    fn get_id(&self) -> Option<ActorID> {
        self.id
    }
}

struct Drifter {
    actions: Vec<CreekAction>,
}

impl Actor for Drifter {
    type Event = ();

    fn receive_event(&mut self, _event: ()) {}

    fn get_creek_actions(&self) -> &Vec<CreekAction> {
        &self.actions
    }

    fn get_id(&self) -> Option<ActorID> {
        None
    }
}

#[test]
fn new_handle_holds_the_actor_under_a_placeholder_identifier() {
    let handle = ActorHandle::new(Lamp { lit: true });
    assert_eq!(handle.id, ActorID { index: 0, gen: 0 });
    assert_eq!(handle.inner, Some(Lamp { lit: true }));
}

#[test]
fn empty_handle_holds_nothing_and_names_no_actor() {
    let handle = ActorHandle::<Lamp>::empty();
    assert_eq!(handle.id, ActorID::empty());
    assert!(handle.inner.is_none());
    assert!(handle.borrow_actor().is_none());
}

#[test]
fn default_handle_is_the_empty_handle() {
    let handle = ActorHandle::<Lamp>::default();
    assert_eq!(handle.id, ActorID { index: 0, gen: usize::MAX });
    assert!(handle.inner.is_none());
}

#[test]
fn borrow_actor_reads_the_actor() {
    let handle = ActorHandle::new(Lamp { lit: false });
    assert_eq!(handle.borrow_actor(), Some(&Lamp { lit: false }));
}

#[test]
fn borrow_actor_mut_writes_through() {
    let mut handle = ActorHandle::new(Lamp { lit: false });
    if let Some(lamp) = handle.borrow_actor_mut() {
        lamp.lit = true;
    }
    assert_eq!(handle.inner, Some(Lamp { lit: true }));
    assert_eq!(handle.id, ActorID { index: 0, gen: 0 });
}

#[test]
fn borrow_actor_mut_on_an_empty_handle_gives_nothing() {
    let mut handle = ActorHandle::<Lamp>::empty();
    assert!(handle.borrow_actor_mut().is_none());
    assert!(handle.inner.is_none());
}

#[test]
fn edit_actor_runs_the_closure_on_the_actor() {
    let mut handle = ActorHandle::new(Lamp { lit: false });
    handle.id = ActorID { index: 3, gen: 9 };
    let mut calls = 0;
    handle.edit_actor(|lamp| {
        calls += 1;
        lamp.lit = true;
    });
    assert_eq!(calls, 1);
    assert_eq!(handle.inner, Some(Lamp { lit: true }));
    assert_eq!(handle.id, ActorID { index: 3, gen: 9 });
}

#[test]
fn edit_actor_on_an_empty_handle_does_not_call_the_closure() {
    let mut handle = ActorHandle::<Lamp>::empty();
    let mut calls = 0;
    handle.edit_actor(|_lamp| calls += 1);
    assert_eq!(calls, 0);
    assert!(handle.inner.is_none());
    assert_eq!(handle.id, ActorID::empty());
}

#[test]
fn cloned_handle_carries_identifier_and_actor() {
    let mut handle = ActorHandle::new(Lamp { lit: true });
    handle.id = ActorID { index: 2, gen: 5 };
    let copy = handle.clone();
    assert_eq!(copy.id, handle.id);
    assert_eq!(copy.inner, handle.inner);
}

#[test]
fn new_event_has_no_target() {
    let event = GlobalEvent::new(GlobalEventType::Init);
    assert!(matches!(event.event_type, GlobalEventType::Init));
    assert_eq!(event.target, None);
}

#[test]
fn with_target_keeps_the_kind_and_sets_the_target() {
    let one = ActorID { index: 1, gen: 0 };
    let two = ActorID { index: 2, gen: 4 };
    let event = GlobalEvent::new(GlobalEventType::ActorAdded(one)).with_target(two);
    assert!(matches!(event.event_type, GlobalEventType::ActorAdded(x) if x == one));
    assert_eq!(event.target, Some(two));
    let again = event.with_target(one);
    assert_eq!(again.target, Some(one));
}

#[test]
fn untargeted_event_concerns_everyone() {
    let event = GlobalEvent::new(GlobalEventType::Init);
    assert!(event.concerns(ActorID { index: 0, gen: 0 }));
    assert!(event.concerns(ActorID { index: 17, gen: 3 }));
    assert!(event.concerns(ActorID::empty()));
}

#[test]
fn targeted_event_concerns_its_target_only() {
    let target = ActorID { index: 2, gen: 1 };
    let event = GlobalEvent::new(GlobalEventType::AddedToCreek).with_target(target);
    assert!(event.concerns(target));
    assert!(!event.concerns(ActorID { index: 2, gen: 0 }));
    assert!(!event.concerns(ActorID { index: 2, gen: 2 }));
    assert!(!event.concerns(ActorID { index: 1, gen: 1 }));
}

#[test]
fn update_event_carries_its_time_step_unchanged() {
    let event = GlobalEvent::new(GlobalEventType::Update(0.25f32.to_bits()));
    match event.event_type {
        GlobalEventType::Update(bits) => assert_eq!(f32::from_bits(bits), 0.25f32),
        _ => panic!("not an update"),
    }
}

#[test]
fn action_from_a_sender_with_identifier_targets_the_sender() {
    let me = ActorID { index: 4, gen: 2 };
    let action = CreekAction::from_sender(CreekActionType::Destroy, Some(me)).unwrap();
    assert!(matches!(action.action_type, CreekActionType::Destroy));
    assert_eq!(action.target, me);
}

#[test]
fn action_from_a_sender_without_identifier_is_refused() {
    let refused = CreekAction::from_sender(CreekActionType::Destroy, None);
    assert!(matches!(refused, Err(CreekError::ActorDoesNotStoreId)));
}

#[test]
fn actor_with_identifier_builds_an_action_on_itself() {
    let mut clerk = Clerk { id: None, actions: Vec::new(), notes: Vec::new() };
    assert!(matches!(
        clerk.creek_action(CreekActionType::Destroy),
        Err(CreekError::ActorDoesNotStoreId)
    ));
    assert_eq!(clerk.set_id(ActorID { index: 6, gen: 1 }), Ok(()));
    assert_eq!(clerk.get_id(), Some(ActorID { index: 6, gen: 1 }));
    let action = clerk.creek_action(CreekActionType::Destroy).unwrap();
    assert_eq!(action.target, ActorID { index: 6, gen: 1 });
    assert!(matches!(action.action_type, CreekActionType::Destroy));
    clerk.actions.push(action);
    assert_eq!(clerk.get_creek_actions().len(), 1);
    assert_eq!(clerk.get_creek_actions()[0].target, ActorID { index: 6, gen: 1 });
}

#[test]
fn actor_without_identifier_cannot_build_an_action() {
    let drifter = Drifter { actions: Vec::new() };
    assert!(matches!(
        drifter.creek_action(CreekActionType::Destroy),
        Err(CreekError::ActorDoesNotStoreId)
    ));
}

#[test]
fn actor_that_keeps_no_identifier_refuses_one() {
    let kept = CreekAction { action_type: CreekActionType::Destroy, target: ActorID { index: 2, gen: 0 } };
    let mut drifter = Drifter { actions: vec![kept] };
    assert_eq!(drifter.set_id(ActorID { index: 1, gen: 1 }), Err(()));
    assert_eq!(drifter.get_id(), None);
    assert_eq!(drifter.actions.len(), 1);
    assert_eq!(drifter.actions[0].target, ActorID { index: 2, gen: 0 });
}

#[test]
fn actor_hooks_do_nothing_unless_overridden() {
    let mut clerk = Clerk { id: None, actions: Vec::new(), notes: Vec::new() };
    clerk.recieve_global_event(GlobalEvent::new(GlobalEventType::Init));
    clerk.added_to_creek();
    clerk.removed_from_creek();
    clerk.receive_event(-3);
    assert_eq!(clerk.notes, vec![-3]);
    assert!(clerk.actions.is_empty());
    assert_eq!(clerk.id, None);
}
