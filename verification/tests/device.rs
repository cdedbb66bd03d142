use pwvucontrol::device::{current_profile_index, current_route_index, device_icon_name};
use pwvucontrol::routes::{ParamAvailability, RouteDirection, RouteEntry, PwRouteFilterModel};

#[test]
fn device_icon_defaults_to_a_sound_card() {
    assert_eq!(device_icon_name(Some("audio-card-analog-pci")), "audio-card-analog-pci");
    assert_eq!(device_icon_name(None), "soundcard-symbolic");
}

#[test]
fn current_profile_moves_to_each_profile_found() {
    let profiles = vec![0, 4, 2];
    assert_eq!(current_profile_index(&vec![2], &profiles, 0), 2);
    assert_eq!(current_profile_index(&vec![4, 9], &profiles, 0), 1);
    assert_eq!(current_profile_index(&vec![9], &profiles, 1), 1);
    assert_eq!(current_profile_index(&vec![], &profiles, 7), 7);
    assert_eq!(current_profile_index(&vec![-1], &profiles, 5), 5);
}

#[test]
fn current_route_moves_within_its_direction() {
    let routes = vec![
        RouteEntry { index: 5, direction: RouteDirection::Input, availability: ParamAvailability::Yes },
        RouteEntry { index: 6, direction: RouteDirection::Output, availability: ParamAvailability::Yes },
        RouteEntry { index: 8, direction: RouteDirection::Output, availability: ParamAvailability::Yes },
    ];
    let mut model = PwRouteFilterModel::new(RouteDirection::Output);
    model.routes_changed(&routes, 0);
    assert_eq!(current_route_index(&vec![(8, 1)], RouteDirection::Output, &model, &routes, 0), 1);
    assert_eq!(current_route_index(&vec![(8, 0)], RouteDirection::Output, &model, &routes, 0), 0);
    assert_eq!(current_route_index(&vec![(5, 1)], RouteDirection::Output, &model, &routes, 3), 3);
    assert_eq!(current_route_index(&vec![(6, 1), (8, 1)], RouteDirection::Output, &model, &routes, 9), 1);
    assert_eq!(current_route_index(&vec![(8, 1), (6, 1)], RouteDirection::Output, &model, &routes, 9), 0);
}
