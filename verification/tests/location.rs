use isa_codec::assembly_error::AssemblyError;
use isa_codec::components::address::Address;
use isa_codec::components::location::Location;
use isa_codec::components::offset::Offset;
use isa_codec::Labels;

fn table(entries: &[(&str, u32)]) -> Labels {
    let mut labels = Labels::new();
    for (name, value) in entries {
        labels.insert(name.to_string(), *value);
    }
    labels
}

#[test]
fn address_resolves_to_itself() {
    let labels = table(&[]);
    let location = Location::Address(Address::new(77).unwrap());
    assert_eq!(location.get_address(0, &labels), Ok(77));
    assert_eq!(location.get_address(900, &labels), Ok(77));
    let last = Location::Address(Address::new(1023).unwrap());
    assert_eq!(last.get_address(5, &labels), Ok(1023));
}

#[test]
fn offset_back_from_zero_wraps_to_the_last_address() {
    let labels = table(&[]);
    let location = Location::Offset(Offset::new(-1).unwrap());
    assert_eq!(location.get_address(0, &labels), Ok(1023));
}

#[test]
fn offset_is_added_to_the_current_address() {
    let labels = table(&[]);
    let forward = Location::Offset(Offset::new(7).unwrap());
    let back = Location::Offset(Offset::new(-8).unwrap());
    let stay = Location::Offset(Offset::new(0).unwrap());
    assert_eq!(forward.get_address(10, &labels), Ok(17));
    assert_eq!(back.get_address(10, &labels), Ok(2));
    assert_eq!(stay.get_address(10, &labels), Ok(10));
    assert_eq!(back.get_address(5, &labels), Ok(1021));
    assert_eq!(back.get_address(0, &labels), Ok(1016));
    assert_eq!(forward.get_address(1020, &labels), Ok(3));
    assert_eq!(forward.get_address(1023, &labels), Ok(6));
}

#[test]
fn offset_from_an_address_beyond_the_address_space_wraps() {
    let labels = table(&[]);
    let forward = Location::Offset(Offset::new(7).unwrap());
    let back = Location::Offset(Offset::new(-1).unwrap());
    assert_eq!(forward.get_address(1024, &labels), Ok(7));
    assert_eq!(forward.get_address(4294967295, &labels), Ok(6));
    assert_eq!(back.get_address(4294967295, &labels), Ok(1022));
    assert_eq!(back.get_address(2048, &labels), Ok(1023));
}

#[test]
fn label_resolves_to_its_value() {
    let labels = table(&[("start", 0), ("end", 5), ("far", 5000)]);
    assert_eq!(Location::Label("end".to_string()).get_address(3, &labels), Ok(5));
    assert_eq!(Location::Label("start".to_string()).get_address(3, &labels), Ok(0));
    assert_eq!(Location::Label("far".to_string()).get_address(3, &labels), Ok(5000));
}

#[test]
fn missing_label_is_an_error_that_names_it() {
    let labels = table(&[("start", 0)]);
    assert_eq!(
        Location::Label("end".to_string()).get_address(3, &labels),
        Err(AssemblyError { description: "Unknown label \"end\"".to_string(), address: None })
    );
    assert_eq!(
        Location::Label("".to_string()).get_address(3, &labels),
        Err(AssemblyError { description: "Unknown label \"\"".to_string(), address: None })
    );
    assert_eq!(
        Location::Label("Start".to_string()).get_address(3, &labels),
        Err(AssemblyError { description: "Unknown label \"Start\"".to_string(), address: None })
    );
}
