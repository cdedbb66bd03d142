# pwvucontrol core

The verified core of a PipeWire volume control, written in Verus.

- `src/state.rs`: the PipeWire objects kept by id, the index from a port pair
  to its link, and what happens when objects appear, change and go.
- `src/mixer.rs`: reading and writing the volume dictionaries of
  WirePlumber's mixer API; doubles travel as their bit patterns.
- `src/props.rs`: the volume, mute and channel volume properties of `Props`.
- `src/properties.rs`: property dictionaries, node names, media and node
  types, hidden nodes.
- `src/routes.rs`, `src/device.rs`: route and profile codes, route labels,
  the list model of the routes of one direction, and the current route and
  profile of a device.
- `src/lists.rs`: the node list model and lookups by id.
- `src/meter.rs`: the layout of the LED peak meter.
- `src/metadata.rs`: the default sink and source announced in metadata.
- `src/format.rs`: sample format names and format descriptions.
- `src/ui.rs`: the decisions of the user interface.
- `src/text.rs`: decimal numbers and text search.
- `src/ordset.rs`, `src/vector.rs`: the contracts of the `imbl` ordered set
  and the `im-rc` vector that the list models use.

`app/` holds the command-line entry, the float arithmetic on volumes and
levels, and the conversion between GLib variants and mixer values.
