use scoped_freeze::freeze::{FreezeCell, FreezeError};
use scoped_freeze::frozen::{FrozenWorld, WORLD_KIND};
use scoped_freeze::world::World;

#[test]
fn say_hi_advances_counter_and_reports_previous_value() {
    let mut w = World::new(0);
    assert_eq!(w.say_hi(), 0);
    assert_eq!(w.say_hi(), 1);
    assert_eq!(w.i(), 2);
}

#[test]
fn greeting_at_largest_value_is_not_allowed() {
    let mut cell = FrozenWorld::cell(0);
    let h = cell.open(World::new(i64::MAX));
    let f = FrozenWorld::bind(h);
    assert!(!f.can_greet(&cell));
    assert!(FrozenWorld::new().can_greet(&cell));
    assert_eq!(cell.close().unwrap().i(), i64::MAX);
    assert!(f.can_greet(&cell));
    assert_eq!(f.say_hi(&mut cell), Err(FreezeError::Expired));
}

#[test]
fn handle_of_another_cell_is_refused() {
    let mut a = FrozenWorld::cell(1);
    let mut b = FrozenWorld::cell(2);
    let ha = a.open(World::new(0));
    let fa = FrozenWorld::bind(ha);
    assert_eq!(a.close().unwrap().i(), 0);
    let hb = b.open(World::new(7));
    assert!(!b.is_valid(&ha));
    assert!(b.is_valid(&hb));
    assert_eq!(fa.say_hi(&mut b), Err(FreezeError::Expired));
    assert_eq!(b.check(fa.handle()), Some(FreezeError::Expired));
    assert_eq!(FrozenWorld::bind(hb).handle(), Some(hb));
    assert_eq!(b.close().unwrap().i(), 7);
}

#[test]
fn two_windows_each_greeting_once_advance_by_two() {
    let mut cell = FrozenWorld::cell(0);
    let mut world = World::new(0);
    for _ in 0..2 {
        assert!(cell.can_open());
        let h = cell.open(world);
        let f = FrozenWorld::bind(h);
        assert!(f.say_hi(&mut cell).is_ok());
        world = cell.close().unwrap();
    }
    assert_eq!(world.i(), 2);
}

#[test]
fn second_window_sees_first_windows_mutations() {
    let mut cell = FrozenWorld::cell(0);
    let h = cell.open(World::new(10));
    assert_eq!(FrozenWorld::bind(h).say_hi(&mut cell), Ok(10));
    let world = cell.close().unwrap();
    let h = cell.open(world);
    assert_eq!(FrozenWorld::bind(h).say_hi(&mut cell), Ok(11));
    assert_eq!(cell.close().unwrap().i(), 12);
}

#[test]
fn retained_handle_is_expired_after_close() {
    let mut cell = FrozenWorld::cell(0);
    let h = cell.open(World::new(0));
    let kept = FrozenWorld::bind(h);
    let copy = kept.clone();
    let world = cell.close().unwrap();
    assert!(!cell.is_valid(&h));
    assert_eq!(copy.say_hi(&mut cell), Err(FreezeError::Expired));
    let h2 = cell.open(world);
    assert!(cell.is_valid(&h2));
    assert!(!cell.is_valid(&h));
    assert_eq!(kept.say_hi(&mut cell), Err(FreezeError::Expired));
    assert_eq!(cell.close().unwrap().i(), 0);
}

#[test]
fn nested_entry_is_refused_as_aliasing() {
    let mut cell = FrozenWorld::cell(0);
    let h = cell.open(World::new(3));
    let f = FrozenWorld::bind(h);
    let mut outer = cell.enter(Some(h)).unwrap();
    assert_eq!(cell.enter(Some(h)).err(), Some(FreezeError::Aliased));
    assert_eq!(f.say_hi(&mut cell), Err(FreezeError::Aliased));
    assert_eq!(outer.say_hi(), 3);
    cell.leave(outer);
    assert_eq!(f.say_hi(&mut cell), Ok(4));
    assert_eq!(cell.close().unwrap().i(), 5);
}

#[test]
fn five_greetings_in_one_window_run_in_order() {
    let mut cell = FrozenWorld::cell(0);
    let h = cell.open(World::new(0));
    let f = FrozenWorld::bind(h);
    let mut seen = Vec::new();
    for _ in 0..5 {
        seen.push(f.say_hi(&mut cell).unwrap());
    }
    assert_eq!(seen, vec![0, 1, 2, 3, 4]);
    assert_eq!(cell.close().unwrap().i(), 5);
}

#[test]
fn close_while_ticket_held_still_expires_handle() {
    let mut cell = FrozenWorld::cell(0);
    let h = cell.open(World::new(0));
    let _held = cell.enter(Some(h)).unwrap();
    assert!(cell.close().is_none());
    assert_eq!(cell.enter(Some(h)).err(), Some(FreezeError::Expired));
    assert!(cell.can_open());
    let h2 = cell.open(World::new(7));
    assert_eq!(FrozenWorld::bind(h2).say_hi(&mut cell), Ok(7));
}

#[test]
fn unbound_wrapper_is_refused() {
    let mut cell = FrozenWorld::cell(0);
    let _h = cell.open(World::new(0));
    assert_eq!(FrozenWorld::new().say_hi(&mut cell), Err(FreezeError::NotBound));
    assert_eq!(cell.close().unwrap().i(), 0);
}

#[test]
fn handle_of_another_kind_is_a_type_mismatch() {
    let mut cell = FrozenWorld::cell(0);
    let mut other: FreezeCell<u8> = FreezeCell::new(0, WORLD_KIND + 1);
    let _h = cell.open(World::new(0));
    let foreign = other.open(9);
    assert_eq!(FrozenWorld::bind(foreign).say_hi(&mut cell), Err(FreezeError::TypeMismatch));
    assert_eq!(cell.close().unwrap().i(), 0);
}

#[test]
fn failure_midway_keeps_earlier_mutations() {
    let mut cell = FrozenWorld::cell(0);
    let h = cell.open(World::new(0));
    let f = FrozenWorld::bind(h);
    assert_eq!(f.say_hi(&mut cell), Ok(0));
    assert_eq!(FrozenWorld::new().say_hi(&mut cell), Err(FreezeError::NotBound));
    assert_eq!(cell.close().unwrap().i(), 1);
}

#[test]
fn with_mut_hands_value_out_and_back() {
    let mut cell: FreezeCell<u32> = FreezeCell::new(3, 4);
    let h = cell.open(40);
    let r = cell.with_mut(Some(h), |v: u32| (v + 2, v * 10));
    assert_eq!(r, Ok(400));
    assert_eq!(cell.with_mut(None, |v: u32| (v, v)), Err(FreezeError::NotBound));
    assert_eq!(cell.close(), Some(42));
    assert_eq!(cell.with_mut(Some(h), |v: u32| (v, v)), Err(FreezeError::Expired));
}

#[test]
fn error_messages_describe_each_error() {
    assert_eq!(FreezeError::Expired.message(), "frozen value accessed outside of enclosing scope");
    assert_eq!(FreezeError::Aliased.message(), "already borrowed incompatibly");
    assert_eq!(FreezeError::NotBound.message(), "frozen value is not bound to any scope");
    assert_eq!(FreezeError::TypeMismatch.message(), "frozen value requested as another type");
}

#[test]
fn in_scope_runs_body_then_closes() {
    let mut cell = FrozenWorld::cell(0);
    let (back, seen) = cell.in_scope(World::new(0), |mut c: FreezeCell<World>, h| {
        let f = FrozenWorld::bind(h);
        let first = f.say_hi(&mut c);
        let second = f.say_hi(&mut c);
        (c, (first, second))
    });
    assert_eq!(seen, (Ok(0), Ok(1)));
    assert_eq!(back.unwrap().i(), 2);
    assert!(cell.can_open());
}

#[test]
fn in_scope_keeps_numbering_when_body_swaps_cell() {
    let mut cell = FrozenWorld::cell(0);
    let (_, kept) = cell.in_scope(World::new(0), |c: FreezeCell<World>, h| (c, h));
    let (back, res) = cell.in_scope(World::new(5), |_c: FreezeCell<World>, _h| {
        let mut fresh = FrozenWorld::cell(0);
        let revived = fresh.open(World::new(9));
        (fresh, revived)
    });
    assert_eq!(back.unwrap().i(), 9);
    assert!(!cell.is_valid(&kept));
    assert!(!cell.is_valid(&res));
    assert_eq!(FrozenWorld::bind(kept).say_hi(&mut cell), Err(FreezeError::Expired));
    assert!(cell.can_open());
}

#[test]
fn run_window_hands_back_greeted_world_and_result() {
    let mut cell = FrozenWorld::cell(0);
    let mut world = World::new(1);
    let r = FrozenWorld::run_window(&mut cell, &mut world, |mut c, f| {
        let seen = f.say_hi(&mut c);
        (c, seen)
    });
    assert_eq!(r, Ok(1));
    assert_eq!(world.i(), 2);
    let kept = FrozenWorld::run_window(&mut cell, &mut world, |c, f| (c, f));
    assert_eq!(kept.say_hi(&mut cell), Err(FreezeError::Expired));
    assert_eq!(world.i(), 2);
}

#[test]
fn run_window_failure_keeps_earlier_greetings() {
    let mut cell = FrozenWorld::cell(0);
    let mut world = World::new(0);
    let r: Result<(), FreezeError> = FrozenWorld::run_window(&mut cell, &mut world, |mut c, f| {
        let _ = f.say_hi(&mut c);
        (c, Err(FreezeError::NotBound))
    });
    assert_eq!(r, Err(FreezeError::NotBound));
    assert_eq!(world.i(), 1);
}
