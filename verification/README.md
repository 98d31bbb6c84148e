# wotb_agent

Data layer of a World of Tanks Blitz replay and armour analysis tool, written
in Verus: every function under `src/` carries a contract that the verifier
proves.

- `protobuf`: a read-only protobuf walker; the spec side tokenises a buffer
  into fields, the cursor is proved to produce the same fields.
- `blitzkit`, `tanks_pb`: readers of the BlitzKit databases `models.pb` and
  `tanks.pb` (turret and gun model nodes; tanks, turrets, guns, shells,
  reloads). Four-byte floats are kept as their bit patterns.
- `dvpl`: the DVPL container (stored, LZ4 block, zlib through `flate2`).
- `armor_xml`: the armour model of a vehicle's item definition XML (plate
  pattern through `regex`).
- `map_assets`: map whitelists and the standard terrain height field.
- `game_extract`: client directory, client version, vehicle file matching,
  orphaned data files.
- `viewer`, `playback_viewer`: page templates, the playback document cache,
  and the turret / gun indices of each tank configuration in its 3D model.
- `penetration`, `tank_resolver`, `sessions`, `heatmap_ready`, `snapshot`,
  `api_client`, `data_version`, `text`: the smaller rules.

`app/` holds what stays outside the verifier: HTTP handlers (axum), network
requests (reqwest), file access, serialisation (serde), and the computations
whose results are floating-point numbers (the penetration model, collision
boxes, statistics).

`tests/` runs the library against concrete inputs. `extras/viewer_index.html`
is the 3D viewer's page (HTML and JavaScript), which `app/` embeds.
