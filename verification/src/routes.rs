//! Routes and profiles of a device: the direction and availability codes,
//! the labels of routes, and the list model that shows the routes of one
//! direction.
use vstd::prelude::*;
use crate::ordset::{count_below, ordset_clear, ordset_contents, ordset_insert, ordset_len, ordset_new, ordset_nth, IndexSet};
use crate::text::{decimal_text, same_text, usize_to_decimal};

verus! {

/// The direction of a route.
#[derive(Clone, Copy, Debug, PartialEq, Eq, Structural)]
pub enum RouteDirection {
    Unknown,
    Input,
    Output,
}

/// Whether a profile or route can be used.
#[derive(Clone, Copy, Debug, PartialEq, Eq, Structural)]
pub enum ParamAvailability {
    Unknown,
    No,
    Yes,
}

/// The direction that a SPA direction code names.
pub open spec fn direction_of_code(value: u32) -> RouteDirection {
    if value == 0 {
        RouteDirection::Input
    } else if value == 1 {
        RouteDirection::Output
    } else {
        RouteDirection::Unknown
    }
}

/// The SPA code of a direction.
pub open spec fn code_of_direction(d: RouteDirection) -> u32 {
    match d {
        RouteDirection::Input => 0,
        RouteDirection::Output => 1,
        RouteDirection::Unknown => 2,
    }
}

/// The availability that a SPA availability code names.
pub open spec fn availability_of_code(value: u32) -> ParamAvailability {
    if value == 1 {
        ParamAvailability::No
    } else if value == 2 {
        ParamAvailability::Yes
    } else {
        ParamAvailability::Unknown
    }
}

impl Default for RouteDirection {
    fn default() -> (r: Self)
        ensures
            r == RouteDirection::Unknown,
    {
        RouteDirection::Unknown
    }
}

impl Default for ParamAvailability {
    fn default() -> (r: Self)
        ensures
            r == ParamAvailability::Unknown,
    {
        ParamAvailability::Unknown
    }
}

impl From<u32> for RouteDirection {
    fn from(value: u32) -> (r: Self) {
        match value {
            0 => RouteDirection::Input,
            1 => RouteDirection::Output,
            _ => RouteDirection::Unknown,
        }
    }
}

impl vstd::std_specs::convert::FromSpecImpl<u32> for RouteDirection {
    open spec fn obeys_from_spec() -> bool {
        true
    }

    open spec fn from_spec(value: u32) -> RouteDirection {
        direction_of_code(value)
    }
}

impl From<RouteDirection> for u32 {
    fn from(value: RouteDirection) -> (r: u32) {
        match value {
            RouteDirection::Input => 0,
            RouteDirection::Output => 1,
            RouteDirection::Unknown => 2,
        }
    }
}

impl vstd::std_specs::convert::FromSpecImpl<RouteDirection> for u32 {
    open spec fn obeys_from_spec() -> bool {
        true
    }

    open spec fn from_spec(value: RouteDirection) -> u32 {
        code_of_direction(value)
    }
}

impl From<u32> for ParamAvailability {
    fn from(value: u32) -> (r: Self) {
        match value {
            1 => ParamAvailability::No,
            2 => ParamAvailability::Yes,
            _ => ParamAvailability::Unknown,
        }
    }
}

impl vstd::std_specs::convert::FromSpecImpl<u32> for ParamAvailability {
    open spec fn obeys_from_spec() -> bool {
        true
    }

    open spec fn from_spec(value: u32) -> ParamAvailability {
        availability_of_code(value)
    }
}

/// Law: SPA code 0 is the input direction and 1 the output direction, any
/// other code no known direction; availability code 1 means unavailable, 2
/// available, any other unknown.
pub proof fn lemma_spa_codes(value: u32)
    ensures
        direction_of_code(0) == RouteDirection::Input,
        direction_of_code(1) == RouteDirection::Output,
        value > 1 ==> direction_of_code(value) == RouteDirection::Unknown,
        code_of_direction(RouteDirection::Input) == 0,
        code_of_direction(RouteDirection::Output) == 1,
        availability_of_code(1) == ParamAvailability::No,
        availability_of_code(2) == ParamAvailability::Yes,
        value != 1 && value != 2 ==> availability_of_code(value) == ParamAvailability::Unknown,
{
}

/// Law: the code of a direction names that direction again.
pub proof fn lemma_direction_code_round_trip(d: RouteDirection)
    ensures
        direction_of_code(code_of_direction(d)) == d,
{
}

/// Law: a code that names a known direction is that direction's code.
pub proof fn lemma_direction_code_known(value: u32)
    requires
        direction_of_code(value) != RouteDirection::Unknown,
    ensures
        code_of_direction(direction_of_code(value)) == value,
{
}

/// A route as the route list holds it.
#[derive(Clone, Copy, Debug, PartialEq, Eq, Structural)]
pub struct RouteEntry {
    /// The route's own index on the device.
    pub index: u32,
    pub direction: RouteDirection,
    pub availability: ParamAvailability,
}

/// A route of the list is shown for `direction` when it goes that way and is
/// available, or when its availability is unknown, whatever its direction.
pub open spec fn route_shown(route: RouteEntry, direction: RouteDirection) -> bool {
    (route.direction == direction && route.availability == ParamAvailability::Yes) || route.availability
        == ParamAvailability::Unknown
}

/// Tests whether a route is shown for a direction.
pub fn route_is_shown(route: &RouteEntry, direction: RouteDirection) -> (r: bool)
    ensures
        r == route_shown(*route, direction),
        route.availability == ParamAvailability::No ==> !r,
        route.availability == ParamAvailability::Unknown ==> r,
        route.availability == ParamAvailability::Yes ==> (r <==> route.direction == direction),
{
    route.direction == direction && route.availability == ParamAvailability::Yes || route.availability
        == ParamAvailability::Unknown
}

/// The positions, counted from `position`, of the routes shown for
/// `direction` among those from `position` on.
pub open spec fn shown_positions(routes: Seq<RouteEntry>, position: int, direction: RouteDirection) -> Set<u32> {
    Set::new(
        |a: u32| 0 <= position && position + a < routes.len() && route_shown(routes[position + a], direction),
    )
}

/// Law: whether a route is shown goes by its availability: an unavailable
/// route is never shown, a route of unknown availability always, and an
/// available route exactly when it goes the model's way.
pub proof fn lemma_route_shown_by_availability(route: RouteEntry, direction: RouteDirection)
    ensures
        route.availability == ParamAvailability::No ==> !route_shown(route, direction),
        route.availability == ParamAvailability::Unknown ==> route_shown(route, direction),
        route.availability == ParamAvailability::Yes ==> (route_shown(route, direction) <==> route.direction
            == direction),
{
}

/// Law: among the routes from `position` on, the model lists no
/// unavailable route, every route of unknown availability, and the
/// available routes of its direction and no others.
pub proof fn lemma_shown_positions_by_availability(
    routes: Seq<RouteEntry>,
    position: int,
    direction: RouteDirection,
    a: u32,
)
    requires
        0 <= position,
        position + a < routes.len(),
    ensures
        routes[position + a].availability == ParamAvailability::No ==> !shown_positions(
            routes,
            position,
            direction,
        ).contains(a),
        routes[position + a].availability == ParamAvailability::Unknown ==> shown_positions(
            routes,
            position,
            direction,
        ).contains(a),
        routes[position + a].availability == ParamAvailability::Yes ==> (shown_positions(
            routes,
            position,
            direction,
        ).contains(a) <==> routes[position + a].direction == direction),
{
}

/// Route-list position `x` is shown and holds a route with this index.
pub open spec fn matching_route(shown: Set<u32>, routes: Seq<RouteEntry>, route_index: u32, x: u32) -> bool {
    shown.contains(x) && x < routes.len() && routes[x as int].index == route_index
}

/// The item at position `p` shows a route with this index.
pub open spec fn shows_route_at(shown: Set<u32>, routes: Seq<RouteEntry>, route_index: u32, p: nat) -> bool {
    exists|x: u32| #[trigger] matching_route(shown, routes, route_index, x) && count_below(shown, x) == p
}

/// The first item position that shows a route with this index.
pub open spec fn route_position(shown: Set<u32>, routes: Seq<RouteEntry>, route_index: u32) -> Option<nat> {
    if exists|x: u32| #[trigger] matching_route(shown, routes, route_index, x) {
        Some(
            choose|p: nat|
                shows_route_at(shown, routes, route_index, p) && forall|x: u32|
                    #[trigger] matching_route(shown, routes, route_index, x) ==> p <= count_below(shown, x),
        )
    } else {
        None
    }
}

proof fn lemma_route_position(shown: Set<u32>, routes: Seq<RouteEntry>, route_index: u32, p: nat)
    requires
        shows_route_at(shown, routes, route_index, p),
        forall|x: u32| #[trigger] matching_route(shown, routes, route_index, x) ==> p <= count_below(shown, x),
    ensures
        route_position(shown, routes, route_index) == Some(p),
{
    let x = choose|x: u32| #[trigger] matching_route(shown, routes, route_index, x) && count_below(shown, x) == p;
    let q = choose|q: nat|
        shows_route_at(shown, routes, route_index, q) && forall|y: u32|
            #[trigger] matching_route(shown, routes, route_index, y) ==> q <= count_below(shown, y);
    assert(q <= p);
    let y = choose|y: u32| #[trigger] matching_route(shown, routes, route_index, y) && count_below(shown, y) == q;
    assert(p <= q);
}

/// Among the items showing a route with this index, one has no such item
/// before it.
proof fn lemma_first_route_item_exists(shown: Set<u32>, routes: Seq<RouteEntry>, route_index: u32, x: u32)
    requires
        matching_route(shown, routes, route_index, x),
    ensures
        exists|p: nat|
            shows_route_at(shown, routes, route_index, p) && forall|y: u32|
                #[trigger] matching_route(shown, routes, route_index, y) ==> p <= count_below(shown, y),
    decreases count_below(shown, x),
{
    if exists|y: u32| #[trigger] matching_route(shown, routes, route_index, y) && count_below(shown, y) < count_below(shown, x) {
        let y = choose|y: u32| #[trigger] matching_route(shown, routes, route_index, y) && count_below(shown, y) < count_below(shown, x);
        lemma_first_route_item_exists(shown, routes, route_index, y);
    } else {
        let p = count_below(shown, x);
        assert(shows_route_at(shown, routes, route_index, p));
    }
}

/// Law: the item position of a route index is that of the first item
/// showing a route with this index: some shown route with the index has
/// that many shown positions below it, and none has fewer. There is none
/// exactly when no shown route has the index.
pub proof fn lemma_route_position_first(shown: Set<u32>, routes: Seq<RouteEntry>, route_index: u32)
    ensures
        match route_position(shown, routes, route_index) {
            Some(p) => (exists|x: u32|
                #[trigger] matching_route(shown, routes, route_index, x) && count_below(shown, x) == p) && forall|x: u32|
                #[trigger] matching_route(shown, routes, route_index, x) ==> p <= count_below(shown, x),
            None => forall|x: u32| !#[trigger] matching_route(shown, routes, route_index, x),
        },
{
    if exists|x: u32| #[trigger] matching_route(shown, routes, route_index, x) {
        let x = choose|x: u32| #[trigger] matching_route(shown, routes, route_index, x);
        lemma_first_route_item_exists(shown, routes, route_index, x);
    }
}

/// A list model of the routes of one direction: it holds, in order, the
/// positions of the shown routes in the device's route list.
pub struct PwRouteFilterModel {
    direction: RouteDirection,
    shown: IndexSet,
}

/// Two values of a finite set with as many values below them are the same.
proof fn lemma_count_below_injective(s: Set<u32>, x: u32, y: u32)
    requires
        s.finite(),
        s.contains(x),
        s.contains(y),
        count_below(s, x) == count_below(s, y),
    ensures
        x == y,
{
    if x < y {
        let lx = s.filter(|z: u32| z < x);
        let ly = s.filter(|z: u32| z < y);
        assert(lx.subset_of(ly));
        lx.lemma_subset_not_in_lt(ly, x);
    } else if y < x {
        let lx = s.filter(|z: u32| z < x);
        let ly = s.filter(|z: u32| z < y);
        assert(ly.subset_of(lx));
        ly.lemma_subset_not_in_lt(lx, y);
    }
}

impl PwRouteFilterModel {
    /// The shown positions form a finite set that item positions can count.
    #[verifier::type_invariant]
    closed spec fn wf(self) -> bool {
        ordset_contents(self.shown).finite() && ordset_contents(self.shown).len() <= u32::MAX
    }

    /// The direction this model shows.
    pub closed spec fn spec_direction(&self) -> RouteDirection {
        self.direction
    }

    /// The positions of the shown routes.
    pub closed spec fn spec_shown(&self) -> Set<u32> {
        ordset_contents(self.shown)
    }

    /// A model for a direction that shows nothing yet.
    pub fn new(direction: RouteDirection) -> (m: Self)
        ensures
            m.spec_direction() == direction,
            m.spec_shown() == Set::<u32>::empty(),
    {
        PwRouteFilterModel { direction, shown: ordset_new() }
    }

    /// The direction this model shows.
    pub fn direction(&self) -> (r: RouteDirection)
        ensures
            r == self.spec_direction(),
    {
        self.direction
    }

    /// The route list changed from `position` on: the model now shows the
    /// routes of its direction from there, counted from there. Gives the
    /// number of items it showed before and the number it shows now. A
    /// list model counts its items in `u32`.
    pub fn routes_changed(&mut self, routes: &Vec<RouteEntry>, position: u32) -> (r: (u32, u32))
        requires
            routes@.len() <= u32::MAX,
        ensures
            final(self).spec_direction() == old(self).spec_direction(),
            final(self).spec_shown() == shown_positions(routes@, position as int, old(self).spec_direction()),
            r.0 == old(self).spec_shown().len(),
            r.1 == final(self).spec_shown().len(),
    {
        proof {
            use_type_invariant(&*self);
        }
        let removed = ordset_len(&self.shown) as u32;
        let mut shown = ordset_new();
        let direction = self.direction;
        let mut count: usize = 0;
        if (position as usize) < routes.len() {
            count = routes.len() - position as usize;
        }
        let mut a: usize = 0;
        while a < count
            invariant
                count > 0 ==> position + count == routes@.len(),
                routes@.len() <= u32::MAX,
                a <= count,
                count <= u32::MAX,
                ordset_contents(shown).finite(),
                ordset_contents(shown) == Set::new(|x: u32| x < a && route_shown(routes@[position + x], direction)),
            decreases count - a,
        {
            let at: usize = position as usize + a;
            if route_is_shown(&routes[at], direction) {
                ordset_insert(&mut shown, a as u32);
            }
            proof {
                assert(ordset_contents(shown) =~= Set::new(
                    |x: u32| x < a + 1 && route_shown(routes@[position + x], direction),
                ));
            }
            a = a + 1;
        }
        proof {
            assert(ordset_contents(shown) =~= shown_positions(routes@, position as int, direction));
            let c = ordset_contents(shown);
            let ints = vstd::set_lib::set_int_range(0, count as int);
            vstd::set_lib::lemma_int_range(0, count as int);
            let to_int = |x: u32| x as int;
            assert(vstd::relations::injective_on(to_int, c));
            vstd::set_lib::lemma_map_size(c, c.map(to_int), to_int);
            assert(c.map(to_int).subset_of(ints));
            vstd::set_lib::lemma_len_subset(c.map(to_int), ints);
        }
        self.shown = shown;
        let added = ordset_len(&self.shown) as u32;
        (removed, added)
    }

    /// The model lost its route list: it shows nothing, and reports the
    /// number of items it showed after clearing, which is none.
    pub fn clear(&mut self) -> (removed: u32)
        ensures
            final(self).spec_direction() == old(self).spec_direction(),
            final(self).spec_shown() == Set::<u32>::empty(),
            removed == 0,
    {
        ordset_clear(&mut self.shown);
        ordset_len(&self.shown) as u32
    }

    /// Sets the route list the model filters. With a list, the model shows
    /// the routes of its direction, counted from the start, and gives the
    /// numbers of items it showed before and shows now; without one, it
    /// shows nothing and gives `(0, 0)`: it reports what it shows after
    /// clearing. A list model counts its items in `u32`.
    pub fn set_model(&mut self, routes: Option<&Vec<RouteEntry>>) -> (r: (u32, u32))
        requires
            routes matches Some(rs) ==> rs@.len() <= u32::MAX,
        ensures
            final(self).spec_direction() == old(self).spec_direction(),
            match routes {
                Some(rs) => final(self).spec_shown() == shown_positions(rs@, 0, old(self).spec_direction())
                    && r.0 == old(self).spec_shown().len() && r.1 == final(self).spec_shown().len(),
                None => final(self).spec_shown() == Set::<u32>::empty() && r == (0u32, 0u32),
            },
    {
        match routes {
            Some(rs) => self.routes_changed(rs, 0),
            None => {
                let removed = self.clear();
                (removed, 0)
            },
        }
    }

    /// The number of items shown.
    pub fn n_items(&self) -> (n: u32)
        ensures
            n == self.spec_shown().len(),
    {
        proof {
            use_type_invariant(self);
        }
        ordset_len(&self.shown) as u32
    }

    /// The route-list position of the item at `position`: the shown position
    /// with `position` shown positions below it.
    pub fn item(&self, position: u32) -> (r: Option<u32>)
        ensures
            position < self.spec_shown().len() ==> r is Some && self.spec_shown().contains(r->0) && count_below(
                self.spec_shown(),
                r->0,
            ) == position,
            position >= self.spec_shown().len() ==> r is None,
    {
        ordset_nth(&self.shown, position as usize)
    }

    /// The item position of the first shown route whose own index is
    /// `route_index`, looking the items up in `routes`.
    pub fn position_of_route(&self, routes: &Vec<RouteEntry>, route_index: u32) -> (r: Option<u32>)
        ensures
            r == match route_position(self.spec_shown(), routes@, route_index) {
                Some(p) => Some(p as u32),
                None => None,
            },
    {
        proof {
            use_type_invariant(self);
        }
        let n = self.n_items();
        let ghost sp = self.spec_shown();
        let mut p: u32 = 0;
        while p < n
            invariant
                sp == self.spec_shown(),
                sp.finite(),
                n == sp.len(),
                p <= n,
                forall|x: u32|
                    #![trigger sp.contains(x)]
                    sp.contains(x) && count_below(sp, x) < p && x < routes@.len() ==> routes@[x as int].index
                        != route_index,
            decreases n - p,
        {
            let item = self.item(p);
            let x = match item {
                Some(x) => x,
                None => 0,
            };
            if (x as usize) < routes.len() && routes[x as usize].index == route_index {
                proof {
                    assert(matching_route(sp, routes@, route_index, x));
                    assert forall|y: u32| #[trigger] matching_route(sp, routes@, route_index, y) implies p
                        <= count_below(sp, y) by {
                    }
                    lemma_route_position(sp, routes@, route_index, p as nat);
                }
                return Some(p);
            }
            proof {
                assert forall|y: u32|
                    #![trigger sp.contains(y)]
                    sp.contains(y) && count_below(sp, y) < p + 1 && y < routes@.len() implies routes@[y as int].index
                    != route_index by {
                    if count_below(sp, y) == p {
                        lemma_count_below_injective(sp, x, y);
                    }
                }
            }
            p = p + 1;
        }
        proof {
            assert forall|x: u32| !#[trigger] matching_route(sp, routes@, route_index, x) by {
                if sp.contains(x) {
                    lemma_count_below_bound(sp, x);
                }
            }
        }
        None
    }
}

/// A value of a finite set has fewer values below it than the set holds.
proof fn lemma_count_below_bound(s: Set<u32>, x: u32)
    requires
        s.finite(),
        s.contains(x),
    ensures
        count_below(s, x) < s.len(),
{
    let below = s.filter(|z: u32| z < x);
    assert(below.subset_of(s));
    below.lemma_subset_not_in_lt(s, x);
}

/// The label of a route: its description, then its product name in
/// brackets when known, then its index in parentheses.
pub open spec fn route_label_text(description: Seq<char>, product: Option<Seq<char>>, index: u32) -> Seq<char> {
    let base = match product {
        Some(p) => description + " ["@ + p + "]"@,
        None => description,
    };
    base + " ("@ + decimal_text(index as nat) + ")"@
}

/// Law: a route's label is its description, then ` [`, its product name and
/// `]` when the product is known, then ` (`, its index in decimal and `)`.
pub proof fn lemma_route_label_parts(description: Seq<char>, product: Option<Seq<char>>, index: u32)
    ensures
        ({
            let t = route_label_text(description, product, index);
            let d = decimal_text(index as nat);
            let a: int = match product {
                Some(p) => (description.len() + 2 + p.len() + 1) as int,
                None => description.len() as int,
            };
            &&& t.len() == a + 2 + d.len() + 1
            &&& t.subrange(0, description.len() as int) == description
            &&& product matches Some(p) ==> t.subrange(description.len() as int, description.len() + 2int)
                == seq![' ', '['] && t.subrange(description.len() + 2int, description.len() + 2int + p.len()) == p
                && t[a - 1] == ']'
            &&& t.subrange(a, a + 2) == seq![' ', '(']
            &&& t.subrange(a + 2, a + 2 + d.len()) == d
            &&& t[t.len() - 1] == ')'
        }),
{
    reveal_strlit(" [");
    reveal_strlit("]");
    reveal_strlit(" (");
    reveal_strlit(")");
    let t = route_label_text(description, product, index);
    let d = decimal_text(index as nat);
    let a: int = match product {
        Some(p) => (description.len() + 2 + p.len() + 1) as int,
        None => description.len() as int,
    };
    assert(t.subrange(0, description.len() as int) =~= description);
    if let Some(p) = product {
        assert(t.subrange(description.len() as int, description.len() + 2int) =~= seq![' ', '[']);
        assert(t.subrange(description.len() + 2int, description.len() + 2int + p.len()) =~= p);
    }
    assert(t.subrange(a, a + 2) =~= seq![' ', '(']);
    assert(t.subrange(a + 2, a + 2 + d.len()) =~= d);
}

/// Builds the label of a route.
pub fn route_label(description: &str, product: Option<&str>, index: u32) -> (r: String)
    ensures
        r@ == route_label_text(
            description@,
            match product {
                Some(p) => Some(p@),
                None => None,
            },
            index,
        ),
{
    let mut s = String::from_str(description);
    match product {
        Some(p) => {
            s.append(" [");
            s.append(p);
            s.append("]");
        },
        None => {},
    }
    s.append(" (");
    let digits = usize_to_decimal(index as usize);
    s.append(digits.as_str());
    s.append(")");
    s
}

/// An item of a structure that is the text `key`.
pub open spec fn item_is_key(item: Option<String>, key: Seq<char>) -> bool {
    match item {
        Some(s) => s@ == key,
        None => false,
    }
}

/// The value that follows the first item equal to `key` in the items of a
/// structure, when there is such an item and a value after it.
pub open spec fn struct_value(items: Seq<Option<String>>, key: Seq<char>) -> Option<Option<String>> {
    if exists|k: int| 0 <= k < items.len() && item_is_key(items[k], key) {
        let k = choose|k: int|
            0 <= k < items.len() && item_is_key(items[k], key) && forall|j: int|
                0 <= j < k ==> !item_is_key(items[j], key);
        if k + 1 < items.len() {
            Some(items[k + 1])
        } else {
            None
        }
    } else {
        None
    }
}

/// Finds the text that follows `key` in the items of a structure: the item
/// after the first item equal to `key`, when there is one and it is a text.
pub fn find_struct_key(items: &Vec<Option<String>>, key: &str) -> (r: Option<String>)
    ensures
        match struct_value(items@, key@) {
            Some(Some(s)) => r matches Some(t) && t@ == s@,
            _ => r is None,
        },
{
    let mut i: usize = 0;
    while i < items.len()
        invariant
            i <= items@.len(),
            forall|j: int| 0 <= j < i ==> !item_is_key(#[trigger] items@[j], key@),
        decreases items@.len() - i,
    {
        let hit = match &items[i] {
            Some(s) => same_text(s.as_str(), key),
            None => false,
        };
        if hit {
            proof {
                assert(item_is_key(items@[i as int], key@));
                let k = choose|k: int|
                    0 <= k < items@.len() && item_is_key(items@[k], key@) && forall|j: int|
                        0 <= j < k ==> !item_is_key(items@[j], key@);
                if k < i {
                } else if k > i {
                    assert(!item_is_key(items@[i as int], key@));
                }
                assert(k == i);
            }
            if i + 1 < items.len() {
                return match &items[i + 1] {
                    Some(s) => Some(s.clone()),
                    None => None,
                };
            }
            return None;
        }
        i = i + 1;
    }
    None
}

} // verus!
