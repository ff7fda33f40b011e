use ecs_core::component::Component;
use ecs_core::errors::WorldError;
use ecs_core::world::World;

const HEALTH: u64 = 0;
const NAME: u64 = 1;
const ARMOR: u64 = 2;

#[derive(Debug, PartialEq, Clone)]
enum Comp {
    Health(u64),
    Name(String),
    Armor(u64),
}

impl Component for Comp {
    fn tag_spec(&self) -> u64 {
        self.tag()
    }

    fn tag(&self) -> u64 {
        match self {
            Comp::Health(_) => HEALTH,
            Comp::Name(_) => NAME,
            Comp::Armor(_) => ARMOR,
        }
    }
}

#[test]
fn entity_ids_are_dense() {
    let mut world: World<Comp> = World::new();
    assert_eq!(world.entities_count(), 0);
    assert_eq!(world.create_entity(), 0);
    assert_eq!(world.create_entity(), 1);
    assert_eq!(world.create_entity(), 2);
    assert_eq!(world.entities_count(), 3);
}

#[test]
fn scenario_health_and_name() {
    let mut world: World<Comp> = World::new();
    let e0 = world.create_entity();
    let e1 = world.create_entity();
    let e2 = world.create_entity();
    assert_eq!((e0, e1, e2), (0, 1, 2));

    world.add_component_to_entity(e0, Comp::Health(100)).unwrap();
    world.add_component_to_entity(e2, Comp::Health(20)).unwrap();
    world.add_component_to_entity(e1, Comp::Name("Bob".to_string())).unwrap();

    let healths = world.borrow_component_vec(HEALTH).unwrap().unwrap();
    assert_eq!(
        healths,
        &vec![Some(Comp::Health(100)), None, Some(Comp::Health(20))]
    );
    let names = world.borrow_component_vec(NAME).unwrap().unwrap();
    assert_eq!(names, &vec![None, Some(Comp::Name("Bob".to_string())), None]);
}

#[test]
fn columns_track_entity_count() {
    let mut world: World<Comp> = World::new();
    let e0 = world.create_entity();
    world.add_component_to_entity(e0, Comp::Health(1)).unwrap();
    assert_eq!(world.borrow_component_vec(HEALTH).unwrap().unwrap().len(), 1);

    world.create_entity();
    assert_eq!(world.borrow_component_vec(HEALTH).unwrap().unwrap().len(), 2);

    let e2 = world.create_entity();
    world.add_component_to_entity(e2, Comp::Name("Ada".to_string())).unwrap();
    assert_eq!(world.borrow_component_vec(HEALTH).unwrap().unwrap().len(), 3);
    assert_eq!(world.borrow_component_vec(NAME).unwrap().unwrap().len(), 3);
}

#[test]
fn attach_then_read() {
    let mut world: World<Comp> = World::new();
    let e = world.create_entity();
    world.add_component_to_entity(e, Comp::Health(42)).unwrap();
    let healths = world.borrow_component_vec(HEALTH).unwrap().unwrap();
    assert_eq!(healths[e], Some(Comp::Health(42)));
}

#[test]
fn overwrite_keeps_one_column() {
    let mut world: World<Comp> = World::new();
    let e = world.create_entity();
    world.add_component_to_entity(e, Comp::Health(100)).unwrap();
    world.add_component_to_entity(e, Comp::Health(55)).unwrap();
    assert_eq!(world.columns_count(), 1);
    let healths = world.borrow_component_vec(HEALTH).unwrap().unwrap();
    assert_eq!(healths[e], Some(Comp::Health(55)));
}

#[test]
fn missing_column_is_absent() {
    let mut world: World<Comp> = World::new();
    world.create_entity();
    assert_eq!(world.borrow_component_vec(ARMOR).unwrap(), None);
}

#[test]
fn invalid_entity_rejected() {
    let mut world: World<Comp> = World::new();
    let e = world.create_entity();
    assert_eq!(
        world.add_component_to_entity(e + 1, Comp::Health(9)),
        Err(WorldError::InvalidEntity)
    );
    assert_eq!(world.borrow_component_vec(HEALTH).unwrap(), None);
}

#[test]
fn identical_payloads_stay_distinct() {
    let mut world: World<Comp> = World::new();
    let e = world.create_entity();
    world.add_component_to_entity(e, Comp::Health(5)).unwrap();
    world.add_component_to_entity(e, Comp::Armor(5)).unwrap();
    assert_eq!(world.columns_count(), 2);
    let healths = world.borrow_component_vec(HEALTH).unwrap().unwrap();
    assert_eq!(healths[e], Some(Comp::Health(5)));
    let armors = world.borrow_component_vec(ARMOR).unwrap().unwrap();
    assert_eq!(armors[e], Some(Comp::Armor(5)));
}

#[test]
fn explicit_tag_attachment_matches() {
    let mut world: World<Comp> = World::new();
    let e = world.create_entity();
    world.add_component_with_tag(e, HEALTH, Comp::Health(7)).unwrap();
    let healths = world.borrow_component_vec(HEALTH).unwrap().unwrap();
    assert_eq!(healths[e], Some(Comp::Health(7)));
}

#[test]
fn backfilled_column_has_empty_slots_for_older_entities() {
    let mut world: World<Comp> = World::new();
    world.create_entity();
    world.create_entity();
    let e2 = world.create_entity();
    world.add_component_to_entity(e2, Comp::Name("Eve".to_string())).unwrap();
    let names = world.borrow_component_vec(NAME).unwrap().unwrap();
    assert_eq!(names, &vec![None, None, Some(Comp::Name("Eve".to_string()))]);
}
