use convers::calc::{eval, meval};
use convers::rat::Rat;
use convers::units::{Measurement, Unit};

#[test]
fn check_length_unit() {
    let length_in_meters = Measurement {
        value: Rat::from_int(1),
        unit: Unit::Meter,
    };

    let length_in_centimeters = Measurement {
        value: Rat::from_int(100),
        unit: Unit::Centimeter,
    };

    let length_in_millimeters = Measurement {
        value: Rat::from_int(1000),
        unit: Unit::Millimeter,
    };

    let length_in_kilometers = Measurement {
        value: Rat::new(1, 1000).unwrap(),
        unit: Unit::Kilometer,
    };

    let length_in_decimeters = Measurement {
        value: Rat::from_int(10),
        unit: Unit::Decimeter,
    };

    let length_in_hectometers = Measurement {
        value: Rat::new(1, 100).unwrap(),
        unit: Unit::Hectometer,
    };

    let length_in_decameters = Measurement {
        value: Rat::new(1, 10).unwrap(),
        unit: Unit::Decameter,
    };

    let length_in_str = "250m";
    let predicated_length_from_str = Measurement {
        value: Rat::from_int(250),
        unit: Unit::Meter,
    };
    let a = Measurement {
        value: Rat::from_int(30),
        unit: Unit::Meter,
    };
    let b = Measurement {
        value: Rat::from_int(30),
        unit: Unit::Kilometer,
    };
    let c = a.add(b);
    let d = Measurement {
        value: Rat::from_int(30030),
        unit: Unit::Meter,
    };
    assert_eq!(c.unwrap(), d);
    assert_eq!(
        predicated_length_from_str,
        *Measurement::from_str(&length_in_str.to_string()).unwrap()
    );
    assert_eq!(length_in_meters.to_base().unwrap().value, Rat::from_int(1));
    assert_eq!(length_in_centimeters.to_base().unwrap().value, Rat::from_int(1));
    assert_eq!(length_in_millimeters.to_base().unwrap().value, Rat::from_int(1));
    assert_eq!(length_in_kilometers.to_base().unwrap().value, Rat::from_int(1));
    assert_eq!(length_in_decimeters.to_base().unwrap().value, Rat::from_int(1));
    assert_eq!(length_in_hectometers.to_base().unwrap().value, Rat::from_int(1));
    assert_eq!(length_in_decameters.to_base().unwrap().value, Rat::from_int(1));
}

#[test]
fn check_convert() {
    let response = Measurement::convert(&String::from("250m to km")).unwrap();
    println!("Result: {}", response.txt());
}

#[test]
fn check_eval() {
    let measur = Measurement::new(Rat::from_int(100), Unit::Meter);
    assert_eq!(measur, meval(&String::from("50m+50m")).unwrap());
    assert_eq!(Rat::from_int(5), eval(&String::from("15/3")).unwrap());
}
