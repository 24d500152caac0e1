use ockam::address::Address;
use ockam::route::Route;
use ockam::route::RouteError;

#[test]
fn test1() {
    let _route = Route::new().build();
}

#[test]
fn test2() {
    let address: Address = Address::random_tagged("address");
    let _route1 = Route::new()
        .append(Address::from_string("str"))
        .append(Address::from_string("STR2"))
        .append(Address::from_string(&"STR3".to_string()))
        .append(address)
        .build();
}

#[test]
fn test3() {
    let _route = Route::new().append(Address::from_string("str")).build();
}

#[test]
fn test_route_macro() {
    let address = Address::from_string("a");
    let mut route = Route::new()
        .append(address)
        .append(Address::from_string("b"))
        .build();
    assert_eq!(route.next().unwrap(), &Address::from_string("0#a"));
    assert_eq!(route.next().unwrap(), &Address::from_string("0#a"));
    assert_eq!(route.recipient().unwrap(), &Address::from_string("0#b"));
    assert_eq!(route.step().unwrap(), Address::from_string("0#a"));
    assert_eq!(route.step().unwrap(), Address::from_string("0#b"));
}

#[test]
fn test_route_create() {
    let addresses = vec![
        Address::from_string("node-1"),
        Address::from_string("node-2"),
    ];
    let route = Route::create(addresses);
    assert_eq!(
        route.recipient().unwrap(),
        &Address::from_string("0#node-2")
    );
}

#[test]
fn test_route_parse_empty_string() {
    assert_eq!(Route::parse(""), None);
}

#[test]
fn test_route_parse_valid_input() {
    let s = " node-1 =>node-2=> node-3 ";
    let mut route = Route::parse(s).unwrap();
    assert_eq!(route.next().unwrap(), &Address::from_string("0#node-1"));
    assert_eq!(
        route.recipient().unwrap(),
        &Address::from_string("0#node-3")
    );
    let _ = route.step();
    assert_eq!(route.next().unwrap(), &Address::from_string("0#node-2"));
}

fn validate_error(_err: RouteError) {
    // The error's kind is the whole of it.
}

#[test]
fn test_route_accessors_error_condition() {
    let s = "node-1";
    let mut route = Route::parse(s).unwrap();
    let _ = route.step();
    validate_error(route.step().err().unwrap());
    validate_error(route.next().err().unwrap());
}

#[test]
fn test_route_no_recipient() -> Result<(), ()> {
    let mut route = Route::parse("node-1=>node-2").unwrap();
    let _ = route.step();
    let _ = route.step();
    match route.recipient() {
        Ok(_) => Err(()),
        Err(_) => Ok(()),
    }
}

#[test]
fn test_route_prepend_route() {
    let r1 = Route::new()
        .append(Address::from_string("a"))
        .append(Address::from_string("b"))
        .append(Address::from_string("c"))
        .build();
    let r2 = Route::new()
        .append(Address::from_string("1"))
        .append(Address::from_string("2"))
        .append(Address::from_string("3"))
        .build();

    let r1: Route = r1.modify().prepend_route(r2).build();
    let expected = Route::new()
        .append(Address::from_string("1"))
        .append(Address::from_string("2"))
        .append(Address::from_string("3"))
        .append(Address::from_string("a"))
        .append(Address::from_string("b"))
        .append(Address::from_string("c"))
        .build();
    assert_eq!(r1, expected);
}

fn route_of(names: &[&str]) -> Route {
    let mut builder = Route::new();
    for name in names {
        builder = builder.append(Address::from_string(name));
    }
    builder.build()
}

#[test]
fn test_route_contains_route() {
    let r = route_of(&["a", "b", "c", "d", "e"]);

    assert!(matches!(r.contains_route(&route_of(&["a"])), Ok(true)));
    assert!(matches!(r.contains_route(&route_of(&["a", "b"])), Ok(true)));
    assert!(matches!(r.contains_route(&route_of(&["b", "c"])), Ok(true)));
    assert!(matches!(r.contains_route(&route_of(&["c", "d"])), Ok(true)));
    assert!(matches!(r.contains_route(&route_of(&["e"])), Ok(true)));

    assert!(r.contains_route(&Route::new().build()).is_err());

    assert!(matches!(
        r.contains_route(&route_of(&["a", "b", "c", "d", "e", "f"])),
        Ok(false)
    ));

    assert!(matches!(r.contains_route(&route_of(&["a", "c"])), Ok(false)));
    assert!(matches!(r.contains_route(&route_of(&["x"])), Ok(false)));
}

#[test]
fn address_text_forms() {
    let typed = Address::from_string("1#alice");
    assert_eq!(typed.transport_type(), 1);
    assert_eq!(typed.address(), "alice");
    assert!(!typed.is_local());

    let local = Address::from_string("bob");
    assert_eq!(local.transport_type(), ockam::LOCAL);
    assert!(local.is_local());

    // A prefix that is no transport number stays part of a local name.
    let odd = Address::from_string("300#x");
    assert!(odd.is_local());
    assert_eq!(odd.address(), "300#x");
    let empty_prefix = Address::from_string("#x");
    assert!(empty_prefix.is_local());
    assert_eq!(empty_prefix.address(), "#x");
}

#[test]
fn route_is_local() {
    assert!(route_of(&["a", "b"]).is_local());
    let mixed = Route::new()
        .append(Address::from_string("1#alice"))
        .append(Address::from_string("bob"))
        .build();
    assert!(!mixed.is_local());
}

#[test]
fn route_text_form() {
    let route = Route::new()
        .append(Address::from_string("1#alice"))
        .append(Address::from_string("bob"))
        .build();
    assert_eq!(route.to_text(), "1#alice => 0#bob");
    assert_eq!(Address::from_string("bob").to_text(), "0#bob");
    assert_eq!(Address::from_string("213#far").to_text(), "213#far");
    assert_eq!(Route::new().build().to_text(), "");

    // Printing and parsing meet in the middle.
    assert_eq!(Route::parse(&route.to_text()).unwrap(), route);
}
