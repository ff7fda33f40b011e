use ecs_core::component::Component;
use ecs_core::join::join_indices;
use ecs_core::world::World;

const A: u64 = 0;
const B: u64 = 1;

#[derive(Debug, PartialEq, Clone)]
enum Comp {
    A(u32),
    B(u32),
}

impl Component for Comp {
    fn tag_spec(&self) -> u64 {
        self.tag()
    }

    fn tag(&self) -> u64 {
        match self {
            Comp::A(_) => A,
            Comp::B(_) => B,
        }
    }
}

#[test]
fn join_keeps_only_entities_with_both() {
    // Entities: 0 has A; 1 has A and B; 2 has B.  The join is exactly {1}.
    let mut world: World<Comp> = World::new();
    let e0 = world.create_entity();
    let e1 = world.create_entity();
    let e2 = world.create_entity();
    world.add_component_to_entity(e0, Comp::A(0)).unwrap();
    world.add_component_to_entity(e1, Comp::A(1)).unwrap();
    world.add_component_to_entity(e1, Comp::B(10)).unwrap();
    world.add_component_to_entity(e2, Comp::B(20)).unwrap();

    let col_a = world.borrow_component_vec(A).unwrap().unwrap();
    let col_b = world.borrow_component_vec(B).unwrap().unwrap();
    assert_eq!(join_indices(col_a, col_b), vec![1]);
}

#[test]
fn join_pairs_values_by_index() {
    let mut world: World<Comp> = World::new();
    for i in 0..4 {
        let e = world.create_entity();
        if i % 2 == 0 {
            world.add_component_to_entity(e, Comp::A(i as u32)).unwrap();
        }
        world.add_component_to_entity(e, Comp::B(100 + i as u32)).unwrap();
    }
    let col_a = world.borrow_component_vec(A).unwrap().unwrap();
    let col_b = world.borrow_component_vec(B).unwrap().unwrap();
    let joined = join_indices(col_a, col_b);
    assert_eq!(joined, vec![0, 2]);
    for &i in &joined {
        assert_eq!(col_a[i], Some(Comp::A(i as u32)));
        assert_eq!(col_b[i], Some(Comp::B(100 + i as u32)));
    }
}

#[test]
fn join_of_empty_and_missing_overlap_is_empty() {
    let mut world: World<Comp> = World::new();
    let e0 = world.create_entity();
    world.create_entity();
    world.add_component_to_entity(e0, Comp::A(1)).unwrap();
    let col_a = world.borrow_component_vec(A).unwrap().unwrap();
    let empty: Vec<Option<Comp>> = Vec::new();
    assert_eq!(join_indices(col_a, &empty), Vec::<usize>::new());
    assert_eq!(join_indices(col_a, col_a), vec![0]);
}
