//! What a device shows: its icon, and which profile and routes are current
//! after the device reports its current ones.
use vstd::prelude::*;
use crate::lists::{first_position, lemma_first_position, position_of};
use crate::routes::{code_of_direction, route_position, RouteDirection, RouteEntry, PwRouteFilterModel};

verus! {

/// The icon of a device: the one it names, else a sound card.
pub open spec fn device_icon_text(named: Option<Seq<char>>) -> Seq<char> {
    match named {
        Some(n) => n,
        None => "soundcard-symbolic"@,
    }
}

/// Law: a device shows the icon it names, and the sound card icon when it
/// names none.
pub proof fn lemma_device_icon(named: Option<Seq<char>>)
    ensures
        named matches Some(n) ==> device_icon_text(named) == n,
        named is None ==> device_icon_text(named) == seq!['s', 'o', 'u', 'n', 'd', 'c', 'a', 'r', 'd', '-', 's', 'y', 'm', 'b', 'o', 'l', 'i', 'c'],
{
    reveal_strlit("soundcard-symbolic");
    assert("soundcard-symbolic"@ =~= seq!['s', 'o', 'u', 'n', 'd', 'c', 'a', 'r', 'd', '-', 's', 'y', 'm', 'b', 'o', 'l', 'i', 'c']);
}

/// The icon of a device.
pub fn device_icon_name(named: Option<&str>) -> (r: String)
    ensures
        r@ == device_icon_text(
            match named {
                Some(n) => Some(n@),
                None => None,
            },
        ),
{
    match named {
        Some(n) => String::from_str(n),
        None => String::from_str("soundcard-symbolic"),
    }
}

/// The profile position a device shows after it reports its current
/// profiles one after another: each one found among the profiles moves the
/// selection to it; one not found leaves it.
pub open spec fn profile_index_after(params: Seq<i32>, profiles: Seq<u32>, current: u32) -> u32
    decreases params.len(),
{
    if params.len() == 0 {
        current
    } else {
        let prev = profile_index_after(params.drop_last(), profiles, current);
        match first_position(profiles, params.last() as u32) {
            Some(i) => i as u32,
            None => prev,
        }
    }
}

/// The route position a device shows for a direction after it reports its
/// current routes one after another: a route of the direction that the
/// direction's model shows moves the selection to it; others leave it.
pub open spec fn route_index_after(
    params: Seq<(i32, u32)>,
    direction: RouteDirection,
    shown: Set<u32>,
    routes: Seq<RouteEntry>,
    current: u32,
) -> u32
    decreases params.len(),
{
    if params.len() == 0 {
        current
    } else {
        let prev = route_index_after(params.drop_last(), direction, shown, routes, current);
        let (index, code) = params.last();
        if code != code_of_direction(direction) {
            prev
        } else {
            match route_position(shown, routes, index as u32) {
                Some(p) => p as u32,
                None => prev,
            }
        }
    }
}

/// Law: after the device reports its current profiles, the selection is
/// the first listed position of the last reported profile that is listed;
/// when none of them is listed, the selection stays where it was.
pub proof fn lemma_profile_selection(params: Seq<i32>, profiles: Seq<u32>, current: u32)
    requires
        profiles.len() <= u32::MAX,
    ensures
        (forall|k: int| 0 <= k < params.len() ==> !profiles.contains(#[trigger] params[k] as u32))
            ==> profile_index_after(params, profiles, current) == current,
        forall|k: int|
            #![trigger params[k]]
            0 <= k < params.len() && profiles.contains(params[k] as u32) && (forall|l: int|
                k < l < params.len() ==> !profiles.contains(#[trigger] params[l] as u32)) ==> {
                let r = profile_index_after(params, profiles, current);
                &&& r < profiles.len()
                &&& profiles[r as int] == params[k] as u32
                &&& forall|j: int| 0 <= j < r ==> profiles[j] != params[k] as u32
            },
    decreases params.len(),
{
    if params.len() > 0 {
        let init = params.drop_last();
        lemma_profile_selection(init, profiles, current);
        let last = params.last() as u32;
        lemma_first_position(profiles, last);
        assert forall|k: int| 0 <= k < init.len() implies #[trigger] init[k] == params[k] by {}
        let r = profile_index_after(params, profiles, current);
        if profiles.contains(last) {
            let i = first_position(profiles, last)->0;
            assert(r == i as u32);
            assert forall|k: int|
                #![trigger params[k]]
                0 <= k < params.len() && profiles.contains(params[k] as u32) && (forall|l: int|
                    k < l < params.len() ==> !profiles.contains(#[trigger] params[l] as u32)) implies {
                    &&& r < profiles.len()
                    &&& profiles[r as int] == params[k] as u32
                    &&& forall|j: int| 0 <= j < r ==> profiles[j] != params[k] as u32
                } by {
                if k < params.len() - 1 {
                    assert(!profiles.contains(params[params.len() - 1] as u32));
                }
            }
        } else {
            assert(r == profile_index_after(init, profiles, current));
            assert forall|k: int|
                #![trigger params[k]]
                0 <= k < params.len() && profiles.contains(params[k] as u32) && (forall|l: int|
                    k < l < params.len() ==> !profiles.contains(#[trigger] params[l] as u32)) implies {
                    &&& r < profiles.len()
                    &&& profiles[r as int] == params[k] as u32
                    &&& forall|j: int| 0 <= j < r ==> profiles[j] != params[k] as u32
                } by {
                assert(k < params.len() - 1);
                assert(init[k] == params[k]);
                assert forall|l: int| k < l < init.len() implies !profiles.contains(#[trigger] init[l] as u32) by {
                    assert(init[l] == params[l]);
                }
            }
            if forall|k: int| 0 <= k < params.len() ==> !profiles.contains(#[trigger] params[k] as u32) {
                assert forall|k: int| 0 <= k < init.len() implies !profiles.contains(#[trigger] init[k] as u32) by {
                    assert(init[k] == params[k]);
                }
            }
        }
    }
}

/// A reported current route moves the selection of a direction's model
/// when it goes that way and the model shows a route with its index.
pub open spec fn moves_route_selection(
    param: (i32, u32),
    direction: RouteDirection,
    shown: Set<u32>,
    routes: Seq<RouteEntry>,
) -> bool {
    param.1 == code_of_direction(direction) && route_position(shown, routes, param.0 as u32) is Some
}

/// Law: after the device reports its current routes, a direction's
/// selection is the item of the last reported route that goes that way and
/// that its model shows; when there is none, the selection stays.
pub proof fn lemma_route_selection(
    params: Seq<(i32, u32)>,
    direction: RouteDirection,
    shown: Set<u32>,
    routes: Seq<RouteEntry>,
    current: u32,
)
    ensures
        (forall|k: int| 0 <= k < params.len() ==> !moves_route_selection(#[trigger] params[k], direction, shown, routes))
            ==> route_index_after(params, direction, shown, routes, current) == current,
        forall|k: int|
            #![trigger params[k]]
            0 <= k < params.len() && moves_route_selection(params[k], direction, shown, routes) && (forall|l: int|
                k < l < params.len() ==> !moves_route_selection(#[trigger] params[l], direction, shown, routes))
                ==> route_index_after(params, direction, shown, routes, current) == route_position(
                shown,
                routes,
                params[k].0 as u32,
            )->0 as u32,
    decreases params.len(),
{
    if params.len() > 0 {
        let init = params.drop_last();
        lemma_route_selection(init, direction, shown, routes, current);
        assert forall|k: int| 0 <= k < init.len() implies #[trigger] init[k] == params[k] by {}
        let r = route_index_after(params, direction, shown, routes, current);
        let n = params.len() - 1;
        if moves_route_selection(params[n], direction, shown, routes) {
            assert forall|k: int|
                #![trigger params[k]]
                0 <= k < params.len() && moves_route_selection(params[k], direction, shown, routes) && (forall|l: int|
                    k < l < params.len() ==> !moves_route_selection(#[trigger] params[l], direction, shown, routes))
                    implies r == route_position(shown, routes, params[k].0 as u32)->0 as u32 by {
                if k < n {
                    assert(!moves_route_selection(params[n], direction, shown, routes));
                }
            }
        } else {
            assert(r == route_index_after(init, direction, shown, routes, current));
            assert forall|k: int|
                #![trigger params[k]]
                0 <= k < params.len() && moves_route_selection(params[k], direction, shown, routes) && (forall|l: int|
                    k < l < params.len() ==> !moves_route_selection(#[trigger] params[l], direction, shown, routes))
                    implies r == route_position(shown, routes, params[k].0 as u32)->0 as u32 by {
                assert(k < n);
                assert(init[k] == params[k]);
                assert forall|l: int| k < l < init.len() implies !moves_route_selection(
                    #[trigger] init[l],
                    direction,
                    shown,
                    routes,
                ) by {
                    assert(init[l] == params[l]);
                }
            }
            if forall|k: int| 0 <= k < params.len() ==> !moves_route_selection(#[trigger] params[k], direction, shown, routes) {
                assert forall|k: int| 0 <= k < init.len() implies !moves_route_selection(
                    #[trigger] init[k],
                    direction,
                    shown,
                    routes,
                ) by {
                    assert(init[k] == params[k]);
                }
            }
        }
    }
}

/// The profile position after the device reports its current profiles by
/// their indices; `profiles` holds the indices of the listed profiles.
pub fn current_profile_index(params: &Vec<i32>, profiles: &Vec<u32>, current: u32) -> (r: u32)
    ensures
        r == profile_index_after(params@, profiles@, current),
{
    let mut index = current;
    let mut i: usize = 0;
    while i < params.len()
        invariant
            i <= params@.len(),
            index == profile_index_after(params@.subrange(0, i as int), profiles@, current),
        decreases params@.len() - i,
    {
        let ghost prefix = params@.subrange(0, i + 1);
        assert(prefix.drop_last() =~= params@.subrange(0, i as int));
        match position_of(profiles, params[i] as u32) {
            Some(p) => {
                index = p as u32;
            },
            None => {},
        }
        i = i + 1;
    }
    assert(params@.subrange(0, params@.len() as int) =~= params@);
    index
}

/// The route position for a direction after the device reports its current
/// routes as (index, direction code) pairs; `model` is the direction's
/// route model over the route list `routes`.
pub fn current_route_index(
    params: &Vec<(i32, u32)>,
    direction: RouteDirection,
    model: &PwRouteFilterModel,
    routes: &Vec<RouteEntry>,
    current: u32,
) -> (r: u32)
    requires
        direction != RouteDirection::Unknown,
    ensures
        r == route_index_after(params@, direction, model.spec_shown(), routes@, current),
{
    let code = u32::from(direction);
    let mut index = current;
    let mut i: usize = 0;
    while i < params.len()
        invariant
            code == code_of_direction(direction),
            i <= params@.len(),
            index == route_index_after(params@.subrange(0, i as int), direction, model.spec_shown(), routes@, current),
        decreases params@.len() - i,
    {
        let ghost prefix = params@.subrange(0, i + 1);
        assert(prefix.drop_last() =~= params@.subrange(0, i as int));
        let (route_index, route_code) = params[i];
        if route_code == code {
            match model.position_of_route(routes, route_index as u32) {
                Some(p) => {
                    index = p;
                },
                None => {},
            }
        }
        i = i + 1;
    }
    assert(params@.subrange(0, params@.len() as int) =~= params@);
    index
}

} // verus!
