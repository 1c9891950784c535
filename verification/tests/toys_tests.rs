use vacancies::toys::{constructor_order, parse_toys, Price, Toy, ToyIntoError, ToyListError, ToySpecific};

#[test]
fn parse_line_reads_each_kind() {
    let t = Toy::parse_line("Doll,1250,3+,30").unwrap().unwrap();
    assert_eq!(t.name, "Doll");
    assert_eq!(t.price, 1250);
    assert_eq!(t.age, "3+");
    assert_eq!(t.specific, ToySpecific::Doll { height: 30 });
    let t = Toy::parse_line("BALL,10,1,200").unwrap().unwrap();
    assert_eq!(t.specific, ToySpecific::Ball { weight: 200 });
    let t = Toy::parse_line("bricks,10,1,50,extra").unwrap().unwrap();
    assert_eq!(t.specific, ToySpecific::Bricks { amount: 50 });
    let t = Toy::parse_line("constructor,999,7,120").unwrap().unwrap();
    assert_eq!(t.specific, ToySpecific::Constructor { amount: 120 });
}

#[test]
fn parse_line_needs_four_fields() {
    assert!(matches!(Toy::parse_line("doll,1,2"), Some(Err(ToyIntoError::NotEnoughtInputFields))));
    assert!(matches!(Toy::parse_line(""), Some(Err(ToyIntoError::NotEnoughtInputFields))));
}

#[test]
fn parse_line_unknown_kind_is_none() {
    assert!(Toy::parse_line("robot,1,2,3").is_none());
    assert!(Toy::parse_line(" doll,1,2,3").is_none());
}

#[test]
fn parse_line_reports_the_number_field() {
    match Toy::parse_line("doll,12,3,tall") {
        Some(Err(ToyIntoError::ErrorParsing { error, input })) => {
            assert_eq!(input, "tall");
            assert_eq!(error, "invalid digit found in string");
        }
        other => panic!("{:?}", other),
    }
    match Toy::parse_line("doll,,3,x") {
        Some(Err(ToyIntoError::ErrorParsing { input, .. })) => assert_eq!(input, "x"),
        other => panic!("{:?}", other),
    }
    match Toy::parse_line("doll,,3,4") {
        Some(Err(ToyIntoError::ErrorParsing { error, input })) => {
            assert_eq!(input, "");
            assert_eq!(error, "cannot parse integer from empty string");
        }
        other => panic!("{:?}", other),
    }
}

#[test]
fn try_from_takes_a_string() {
    let t = Toy::try_from("ball,5,1,9".to_owned()).unwrap();
    assert_eq!(t.price, 5);
    assert!(matches!(Toy::try_from("ball".to_owned()), Err(ToyIntoError::NotEnoughtInputFields)));
}

#[test]
fn parse_toys_reads_every_line() {
    let toys = parse_toys("doll,100,3,20\nconstructor,50,8,300").unwrap();
    assert_eq!(toys.len(), 2);
    assert_eq!(toys[1].name, "constructor");
}

#[test]
fn parse_toys_stops_at_the_first_bad_line() {
    match parse_toys("doll,100,3,20\nball,x,1,1\nrobot,1,1,1") {
        Err(ToyListError::Invalid(1, ToyIntoError::ErrorParsing { input, .. })) => assert_eq!(input, "x"),
        other => panic!("{:?}", other),
    }
    match parse_toys("doll,100,3,20\nrobot,1,1,1\nball,x,1,1") {
        Err(ToyListError::UnknownKind(1)) => {}
        other => panic!("{:?}", other),
    }
    match parse_toys("doll,100,3,20\n") {
        Err(ToyListError::Invalid(1, ToyIntoError::NotEnoughtInputFields)) => {}
        other => panic!("{:?}", other),
    }
}

#[test]
fn constructors_by_price_stable() {
    let toys = parse_toys(
        "constructor,300,5,1\ndoll,100,3,2\nConstructor,50,5,3\nconstructor,100,6,4\nconstructor,100,7,5",
    )
    .unwrap();
    assert_eq!(constructor_order(&toys), vec![3, 4, 0]);
}

#[test]
fn price_splits_kopiykas() {
    let p = Price::from(149250);
    assert_eq!(p, Price { hrn: 1492, cop: 50 });
    assert_eq!(p.render(), "1492грн 50коп");
    assert_eq!(Price::from(7).render(), "0грн 7коп");
    let p = Price::from(usize::MAX);
    assert_eq!(p.hrn * 100 + p.cop, usize::MAX);
}

#[test]
fn listing_line_shows_name_age_price() {
    let t = Toy::parse_line("constructor,12345,8+,300").unwrap().unwrap();
    assert_eq!(t.listing_line(), "constructor (8+) - 123грн 45коп");
}

#[test]
fn fields_after_the_fourth_are_ignored() {
    for line in ["doll,100,3,20", "ball,x,1,1", "robot,1,2,3", "doll,5,6,"].iter() {
        let longer = format!("{},{}", line, "extra,more");
        let a = format!("{:?}", Toy::parse_line(line));
        let b = format!("{:?}", Toy::parse_line(&longer));
        assert_eq!(a, b);
    }
}
