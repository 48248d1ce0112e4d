use rogue_hunter::client::grave_contents_name;
use rogue_hunter::events::EventKind;
use rogue_hunter::schema::{PoolKind, Terrain};
use rogue_hunter::strings::StringTable;
use rogue_hunter::view::{
    empty_run_view, event_kind_label, map_legend, pool_name, terrain_glyph, terrain_name, CellColor, PanelLabels,
};
use rogue_hunter::world::GraveContents;

fn table() -> StringTable {
    StringTable::parse(
        "id,context,english\nui.grave.villain,Inspect,[The thing itself]\nui.legend.hunter,Legend,[you]\nui.panel.hunter,Panel,[Hunter]\nui.pool.lore,Pools,[Lore]\nui.terrain.wall,Terrain,[wall]\n",
    )
    .expect("parses")
}

#[test]
fn names_resolve_through_the_table() {
    let strings = table();
    assert_eq!(pool_name(&strings, PoolKind::Lore), "[Lore]");
    assert_eq!(pool_name(&strings, PoolKind::Social), "[!missing]");
    assert_eq!(terrain_name(&strings, Terrain::Wall), "[wall]");
    assert_eq!(grave_contents_name(&strings, GraveContents::Villain), "[The thing itself]");
    let labels = PanelLabels::build(&strings);
    assert_eq!(labels.hunter, "[Hunter]");
    assert_eq!(labels.pack, "[!missing]");
    let legend = map_legend(&strings);
    assert_eq!(legend.len(), 10);
    assert_eq!((legend[0].glyph, legend[0].meaning.as_str()), ('@', "[you]"));
    assert_eq!(legend[9].glyph, '>');
}

#[test]
fn glyphs_and_labels_are_fixed() {
    assert_eq!(terrain_glyph(Terrain::Wall), '#');
    assert_eq!(terrain_glyph(Terrain::Workstation), '=');
    assert_eq!(event_kind_label(EventKind::Clue), "ui.log.kind.clue");
    let view = empty_run_view();
    assert_eq!(view.cells.len(), 640);
    assert!(view.cells.iter().all(|cell| cell.glyph == ' ' && cell.color == CellColor::Unseen));
    assert!(view.actions.is_empty() && view.overlay.is_none());
}
