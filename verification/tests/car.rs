use rush_hour::car::{Car, Plan};

#[test]
fn car_parked_on_horitontal() {
    let car = Car {
        x: 0,
        y: 1,
        length: 3,
        plan: Plan::Horizontal,
    };

    assert_eq!(true, car.parked_on(0, 1));
    assert_eq!(true, car.parked_on(1, 1));
    assert_eq!(true, car.parked_on(2, 1));

    assert_ne!(true, car.parked_on(3, 1));
    assert_ne!(true, car.parked_on(4, 4));
}

#[test]
fn car_parked_on_vertical() {
    let car = Car {
        x: 1,
        y: 0,
        length: 3,
        plan: Plan::Vertical,
    };

    assert_eq!(true, car.parked_on(1, 0));
    assert_eq!(true, car.parked_on(1, 1));
    assert_eq!(true, car.parked_on(1, 2));

    assert_ne!(true, car.parked_on(1, 3));
    assert_ne!(true, car.parked_on(4, 4));
}

#[test]
fn horizontal_car_covers_exactly_its_run() {
    let car = Car { x: 2, y: 4, length: 3, plan: Plan::Horizontal };
    for x in 0..=255u8 {
        for y in 0..=255u8 {
            let expected = y == 4 && (2..5).contains(&x);
            assert_eq!(expected, car.parked_on(x, y), "cell ({}, {})", x, y);
        }
    }
}

#[test]
fn vertical_car_covers_exactly_its_run() {
    let car = Car { x: 5, y: 1, length: 4, plan: Plan::Vertical };
    for x in 0..=255u8 {
        for y in 0..=255u8 {
            let expected = x == 5 && (1..5).contains(&y);
            assert_eq!(expected, car.parked_on(x, y), "cell ({}, {})", x, y);
        }
    }
}

#[test]
fn unit_car_covers_only_its_anchor() {
    for plan in [Plan::Horizontal, Plan::Vertical] {
        let car = Car { x: 3, y: 2, length: 1, plan };
        for x in 0..=255u8 {
            for y in 0..=255u8 {
                assert_eq!(x == 3 && y == 2, car.parked_on(x, y));
            }
        }
    }
}

#[test]
fn empty_car_covers_nothing() {
    for plan in [Plan::Horizontal, Plan::Vertical] {
        let car = Car { x: 3, y: 2, length: 0, plan };
        for x in 0..6u8 {
            for y in 0..6u8 {
                assert!(!car.parked_on(x, y));
            }
        }
    }
}

#[test]
fn car_reaching_past_the_largest_coordinate() {
    let car = Car { x: 250, y: 0, length: 10, plan: Plan::Horizontal };
    assert!(!car.parked_on(249, 0));
    assert!(car.parked_on(250, 0));
    assert!(car.parked_on(255, 0));
    assert!(!car.parked_on(255, 1));
    assert!(!car.parked_on(3, 0));

    let car = Car { x: 0, y: 255, length: 255, plan: Plan::Vertical };
    assert!(car.parked_on(0, 255));
    assert!(!car.parked_on(0, 254));
    assert!(!car.parked_on(1, 255));
}
