# rogue_hunter

The content model of Rogue Hunter, a seeded roguelike about investigating
and hunting a monster, with the parts of its run that read the world: the
run state, sight, the map grid and the checks the commands share. Written in
Verus, with each function's behaviour stated in its contract and proved.

## Layout

- `src/` is the verified library.
  - `schema`, `keyed`, `strings`, `csv`, `catalogue`: the authored content
    model, the id-ordered tables it is held in, the localisation string table
    and its CSV reader, and catalogue assembly.
  - `validate`: every cross-reference and content rule, map reachability
    included; the issue list comes back empty exactly when the catalogue
    meets them all.
  - `viability`, `ai`, `combat`: the final-fight estimate and the villain's
    tier-scaled numbers.
  - `geometry`, `world`, `state`, `fov`: the grid and its lines, the
    generated world, the mutable run (its start, its occupants, its terrain
    overrides, its fog of war) and line of sight, pounce lanes and the
    visibility refresh.
  - `sim`: the catalogue, world and run together, with the lookups and
    checks that commands share (live targets, NPC presence, the best weapon
    carried, the villain's ward and vulnerability), the discovery pass that
    meets NPCs and finds leads in sight, what is in sight and what can be
    shot, each listed in a stable order.
  - `economy`, `command`, `events`: prices, commands and their rejections,
    and the event log's kinds.
  - `strike`: a blow landing on an actor (the villain's guard, the
    vulnerability window, the hex-ward, silver against regeneration, waking
    the dormant) and what a death brings, the drop roll taken as given.
  - `input`, `view`, `client`: key translation, the frame's view types, the
    map panel's grid, the action panel, the travel confirmation, and the
    step a modal takes on a key or click.
  - `frame`, `interact`, `records`, `dossier`, `report`, `screens`: the
    shared viewmodel both clients draw. The run frame (status lines, pack,
    log tail, overlays), the interact menu and what the interact key does,
    the event log, region and relationship lists, the case dossier, the
    case report, and the frame for whichever screen is up.
  - `fingerprint`: the content fingerprint share codes carry.
  - `text`: small verified text helpers.
- `tests/` exercises the library from outside.
- `app/` is the `rh` command-line tool: it reads the TOML content from disk,
  parses it into the library's types, and hands it to the verified assembly
  and validation.

## What is not here

The rest of the command interpreter (`Sim::apply`, the commands and the
turn they drive, with the villain's and villagers' moves), world generation, replay and the
interactive client session are not part of this library. They draw their
random numbers through the `vellum-rng` generator and run sessions through
`rh-replay`, neither of which this crate depends on; the run state carries
the generator's two words (`RngState`) so that a driver holding the
generator can carry on from them. The frame takes from its caller what
only those parts know: how a run ended, its share code, and how each
opportunity is framed as a lead in the dossier.
