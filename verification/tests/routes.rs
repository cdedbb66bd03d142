use pwvucontrol::routes::{
    find_struct_key, route_is_shown, route_label, ParamAvailability, RouteDirection, RouteEntry, PwRouteFilterModel,
};

fn route(index: u32, direction: RouteDirection, availability: ParamAvailability) -> RouteEntry {
    RouteEntry { index, direction, availability }
}

#[test]
fn direction_codes_convert_both_ways() {
    assert_eq!(RouteDirection::from(0u32), RouteDirection::Input);
    assert_eq!(RouteDirection::from(1u32), RouteDirection::Output);
    assert_eq!(RouteDirection::from(2u32), RouteDirection::Unknown);
    assert_eq!(RouteDirection::from(77u32), RouteDirection::Unknown);
    assert_eq!(u32::from(RouteDirection::Input), 0);
    assert_eq!(u32::from(RouteDirection::Output), 1);
    assert_eq!(u32::from(RouteDirection::Unknown), 2);
    for d in [RouteDirection::Input, RouteDirection::Output, RouteDirection::Unknown] {
        assert_eq!(RouteDirection::from(u32::from(d)), d);
    }
}

#[test]
fn availability_codes_convert() {
    assert_eq!(ParamAvailability::from(0u32), ParamAvailability::Unknown);
    assert_eq!(ParamAvailability::from(1u32), ParamAvailability::No);
    assert_eq!(ParamAvailability::from(2u32), ParamAvailability::Yes);
    assert_eq!(ParamAvailability::from(3u32), ParamAvailability::Unknown);
}

#[test]
fn defaults_are_unknown() {
    assert_eq!(RouteDirection::default(), RouteDirection::Unknown);
    assert_eq!(ParamAvailability::default(), ParamAvailability::Unknown);
}

#[test]
fn route_shown_for_its_direction_when_available_or_unknown() {
    let out_yes = route(0, RouteDirection::Output, ParamAvailability::Yes);
    let out_no = route(1, RouteDirection::Output, ParamAvailability::No);
    let in_unknown = route(2, RouteDirection::Input, ParamAvailability::Unknown);
    assert!(route_is_shown(&out_yes, RouteDirection::Output));
    assert!(!route_is_shown(&out_yes, RouteDirection::Input));
    assert!(!route_is_shown(&out_no, RouteDirection::Output));
    assert!(route_is_shown(&in_unknown, RouteDirection::Output));
    assert!(route_is_shown(&in_unknown, RouteDirection::Input));
}

fn sample_routes() -> Vec<RouteEntry> {
    vec![
        route(5, RouteDirection::Input, ParamAvailability::Yes),
        route(6, RouteDirection::Output, ParamAvailability::Yes),
        route(7, RouteDirection::Output, ParamAvailability::No),
        route(8, RouteDirection::Output, ParamAvailability::Yes),
        route(9, RouteDirection::Input, ParamAvailability::Unknown),
    ]
}

#[test]
fn filter_model_shows_routes_of_its_direction() {
    let routes = sample_routes();
    let mut m = PwRouteFilterModel::new(RouteDirection::Output);
    assert_eq!(m.direction(), RouteDirection::Output);
    assert_eq!(m.n_items(), 0);
    assert_eq!(m.routes_changed(&routes, 0), (0, 3));
    assert_eq!(m.n_items(), 3);
    assert_eq!(m.item(0), Some(1));
    assert_eq!(m.item(1), Some(3));
    assert_eq!(m.item(2), Some(4));
    assert_eq!(m.item(3), None);
    assert_eq!(m.position_of_route(&routes, 8), Some(1));
    assert_eq!(m.position_of_route(&routes, 9), Some(2));
    assert_eq!(m.position_of_route(&routes, 7), None);
    assert_eq!(m.position_of_route(&routes, 5), None);
}

#[test]
fn filter_model_counts_from_the_changed_position() {
    let routes = sample_routes();
    let mut m = PwRouteFilterModel::new(RouteDirection::Input);
    assert_eq!(m.routes_changed(&routes, 0), (0, 2));
    assert_eq!(m.routes_changed(&routes, 3), (2, 1));
    assert_eq!(m.item(0), Some(1));
    assert_eq!(m.routes_changed(&routes, 9), (1, 0));
    assert_eq!(m.n_items(), 0);
}

#[test]
fn filter_model_clear_empties_it() {
    let routes = sample_routes();
    let mut m = PwRouteFilterModel::new(RouteDirection::Output);
    m.routes_changed(&routes, 0);
    assert_eq!(m.clear(), 0);
    assert_eq!(m.n_items(), 0);
    assert_eq!(m.item(0), None);
    assert_eq!(m.direction(), RouteDirection::Output);
}

#[test]
fn route_label_names_product_and_index() {
    assert_eq!(route_label("Headphones", Some("USB DAC"), 3), "Headphones [USB DAC] (3)");
    assert_eq!(route_label("Speakers", None, 12), "Speakers (12)");
}

#[test]
fn struct_key_gives_the_text_after_the_key() {
    let items = vec![
        Some("card.profile.device".to_string()),
        None,
        Some("device.product.name".to_string()),
        Some("USB DAC".to_string()),
        Some("device.product.name".to_string()),
        Some("other".to_string()),
    ];
    assert_eq!(find_struct_key(&items, "device.product.name"), Some("USB DAC".to_string()));
    assert_eq!(find_struct_key(&items, "card.profile.device"), None);
    assert_eq!(find_struct_key(&items, "missing"), None);
    let last = vec![Some("k".to_string())];
    assert_eq!(find_struct_key(&last, "k"), None);
}

#[test]
fn set_model_filters_from_the_start_or_clears() {
    let routes = sample_routes();
    let mut m = PwRouteFilterModel::new(RouteDirection::Output);
    assert_eq!(m.set_model(Some(&routes)), (0, 3));
    assert_eq!(m.item(0), Some(1));
    assert_eq!(m.set_model(Some(&routes)), (3, 3));
    assert_eq!(m.set_model(None), (0, 0));
    assert_eq!(m.n_items(), 0);
}
