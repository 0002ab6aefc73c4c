# simbus

An industrial field-device simulator: one process plays one device (a
temperature sensor, a UPS, a meter) on Modbus TCP, Modbus TLS, OPC UA and
BACnet/IP, with an HTTP control plane for overrides, fault injection and
timed scenarios.

The library in `src/` is verified with Verus. It holds the device language
and everything the runtime decides:

- `types`, `ieee`, `text`: wire names, IEEE-754 ordering of reals held by
  their bit pattern, string equality and byte-wise order.
- `device`, `behavior`, `scenario`, `export`: the device document.
- `validate`, `message`: every rule of the language, with `Ok` exactly when
  the document is valid and the text of the first violation otherwise.
- `lift`, `load`: language 1 register maps lifted to points; language 2
  points materialized into registers from the Modbus export.
- `encode`, `bank`, `modbus`: typed register cells, the packed register bank
  and the Modbus PDU dispatch (reads, all-or-nothing writes, exceptions).
- `engine`: the fault table, what a scenario step does, trigger plans, seeds.
- `runner`, `control`, `ctl`, `listen`, `report`, `opcua`, `bacnet`: scenario
  playback state, HTTP decisions, the `ctl` client's requests, listener
  plans, the `check` report, and the OPC UA and BACnet address spaces.

`app/` is the program around it: YAML and JSON parsing, the floating-point
simulation of engineering values, the network servers and the command line.
`tests/` exercises the library on concrete values.
